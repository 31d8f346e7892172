//! Level-up cards: which cards of the pool are offered to the player.
//!
//! On a level-up, up to three different cards are drawn from the pool,
//! leaving out the cards that would swap to the weapon or the power already
//! equipped. Each card is drawn uniformly among the cards not drawn yet,
//! and the cards are shown in the order they were drawn.
use vstd::prelude::*;
use crate::rng::random_usize_in;

verus! {

/// Most cards offered on one level-up.
pub const CARDS_OFFERED: usize = 3;

/// Indices, in increasing order, of the offerable cards among the first `k`
/// cards of the pool (`offered[i]` tells whether card `i` may be offered).
pub open spec fn offered_prefix(offered: Seq<bool>, k: int) -> Seq<usize>
    decreases k,
{
    if k <= 0 {
        Seq::empty()
    } else {
        let p = offered_prefix(offered, k - 1);
        if offered[k - 1] {
            p.push((k - 1) as usize)
        } else {
            p
        }
    }
}

/// Indices, in increasing order, of the offerable cards of the pool.
pub open spec fn offered_indices(offered: Seq<bool>) -> Seq<usize> {
    offered_prefix(offered, offered.len() as int)
}

/// Each roll picks a position among the cards left; the pool shrinks by one
/// card per roll.
pub open spec fn rolls_fit(rolls: Seq<usize>, pool_len: int) -> bool {
    forall|j: int| 0 <= j < rolls.len() ==> #[trigger] rolls[j] < pool_len - j
}

/// Cards drawn from `pool` by `rolls`: the first roll takes the card at its
/// position, the next rolls draw from the cards left.
pub open spec fn draw_spec(pool: Seq<usize>, rolls: Seq<usize>) -> Seq<usize>
    decreases rolls.len(),
{
    if rolls.len() == 0 || pool.len() == 0 {
        Seq::empty()
    } else {
        seq![pool[rolls[0] as int]] + draw_spec(pool.remove(rolls[0] as int), rolls.drop_first())
    }
}

proof fn lemma_offered_prefix(offered: Seq<bool>, k: int)
    requires
        0 <= k <= offered.len(),
        offered.len() <= usize::MAX,
    ensures
        offered_prefix(offered, k).no_duplicates(),
        offered_prefix(offered, k).len() <= k,
        forall|j: int|
            0 <= j < offered_prefix(offered, k).len() ==> {
                let c = #[trigger] offered_prefix(offered, k)[j];
                &&& (c as int) < k
                &&& offered[c as int]
            },
    decreases k,
{
    if k > 0 {
        lemma_offered_prefix(offered, k - 1);
        let p = offered_prefix(offered, k - 1);
        let q = offered_prefix(offered, k);
        if offered[k - 1] {
            assert(q == p.push((k - 1) as usize));
            assert forall|j: int| 0 <= j < q.len() implies {
                let c = #[trigger] q[j];
                &&& (c as int) < k
                &&& offered[c as int]
            } by {
                if j < p.len() {
                    assert(q[j] == p[j]);
                }
            }
            assert forall|a: int, b: int| 0 <= a < q.len() && 0 <= b < q.len() && a != b implies q[a] != q[b] by {
                if a < p.len() && b < p.len() {
                    assert(q[a] == p[a] && q[b] == p[b]);
                } else if a < p.len() {
                    assert(q[a] == p[a]);
                } else {
                    assert(q[b] == p[b]);
                }
            }
        } else {
            assert(q == p);
        }
    }
}

/// Drawing with fitting rolls from a pool without repeats gives one card
/// per roll, all different, all from the pool.
pub proof fn lemma_draw_distinct(pool: Seq<usize>, rolls: Seq<usize>)
    requires
        pool.no_duplicates(),
        rolls_fit(rolls, pool.len() as int),
    ensures
        draw_spec(pool, rolls).len() == rolls.len(),
        draw_spec(pool, rolls).no_duplicates(),
        forall|j: int| 0 <= j < draw_spec(pool, rolls).len() ==> pool.contains(#[trigger] draw_spec(pool, rolls)[j]),
    decreases rolls.len(),
{
    if rolls.len() > 0 {
        assert(rolls[0] < pool.len());
        let r = rolls[0] as int;
        let rest = pool.remove(r);
        pool.remove_ensures(r);
        let tail = rolls.drop_first();
        assert forall|j: int| 0 <= j < tail.len() implies #[trigger] tail[j] < rest.len() - j by {
            assert(tail[j] == rolls[j + 1]);
        }
        assert(rest.no_duplicates()) by {
            assert forall|a: int, b: int| 0 <= a < rest.len() && 0 <= b < rest.len() && a != b implies rest[a]
                != rest[b] by {
                let ia = if a < r { a } else { a + 1 };
                let ib = if b < r { b } else { b + 1 };
                assert(rest[a] == pool[ia]);
                assert(rest[b] == pool[ib]);
            }
        }
        lemma_draw_distinct(rest, tail);
        let d = draw_spec(pool, rolls);
        let dt = draw_spec(rest, tail);
        assert(d == seq![pool[r]] + dt);
        assert forall|x: int| 0 <= x < rest.len() implies #[trigger] rest[x] != pool[r] && pool.contains(rest[x]) by {
            let ix = if x < r { x } else { x + 1 };
            assert(rest[x] == pool[ix]);
        }
        assert forall|j: int| 0 <= j < d.len() implies pool.contains(#[trigger] d[j]) by {
            if j > 0 {
                assert(d[j] == dt[j - 1]);
                assert(rest.contains(dt[j - 1]));
            }
        }
        assert forall|a: int, b: int| 0 <= a < d.len() && 0 <= b < d.len() && a != b implies d[a] != d[b] by {
            if a > 0 && b > 0 {
                assert(d[a] == dt[a - 1]);
                assert(d[b] == dt[b - 1]);
            } else if a == 0 {
                assert(d[b] == dt[b - 1]);
                assert(rest.contains(dt[b - 1]));
            } else {
                assert(d[a] == dt[a - 1]);
                assert(rest.contains(dt[a - 1]));
            }
        }
    }
}

/// Indices of the cards that may be offered, in pool order.
fn offered_pool(offered: &[bool]) -> (pool: Vec<usize>)
    ensures
        pool@ == offered_indices(offered@),
{
    let mut pool: Vec<usize> = Vec::new();
    let mut i: usize = 0;
    while i < offered.len()
        invariant
            i <= offered.len(),
            pool@ == offered_prefix(offered@, i as int),
        decreases offered.len() - i,
    {
        if offered[i] {
            pool.push(i);
        }
        i = i + 1;
    }
    pool
}

/// Draws cards with the given rolls: roll `j` picks a position among the
/// offerable cards not drawn yet. Returns the pool indices of the cards
/// drawn, in draw order.
pub fn draw_cards_with_rolls(offered: &[bool], rolls: &[usize]) -> (cards: Vec<usize>)
    requires
        rolls_fit(rolls@, offered_indices(offered@).len() as int),
    ensures
        cards@ == draw_spec(offered_indices(offered@), rolls@),
{
    let mut remaining = offered_pool(offered);
    let ghost pool = remaining@;
    let mut cards: Vec<usize> = Vec::new();
    let mut j: usize = 0;
    assert(rolls@.skip(0) =~= rolls@);
    while j < rolls.len()
        invariant
            j <= rolls.len(),
            pool == offered_indices(offered@),
            rolls_fit(rolls@, pool.len() as int),
            remaining@.len() == pool.len() - j,
            draw_spec(pool, rolls@) == cards@ + draw_spec(remaining@, rolls@.skip(j as int)),
        decreases rolls.len() - j,
    {
        let r = rolls[j];
        assert(r < pool.len() - j);
        let ghost before = remaining@;
        let ghost s = rolls@.skip(j as int);
        assert(s[0] == r);
        assert(s.drop_first() =~= rolls@.skip(j + 1));
        assert(draw_spec(before, s) == seq![before[r as int]] + draw_spec(before.remove(r as int), s.drop_first()));
        let c = remaining.remove(r);
        cards.push(c);
        j = j + 1;
        assert(cards@ + draw_spec(remaining@, rolls@.skip(j as int)) =~= (cards@.drop_last() + (seq![c]
            + draw_spec(remaining@, rolls@.skip(j as int)))));
    }
    assert(rolls@.skip(j as int).len() == 0);
    assert(cards@ + draw_spec(remaining@, rolls@.skip(j as int)) =~= cards@);
    cards
}

/// Draws the cards offered on a level-up: as many as possible up to three,
/// all different, all offerable. Returns their pool indices in draw order.
pub fn sample_three_cards(offered: &[bool]) -> (cards: Vec<usize>)
    ensures
        cards@.len() == if offered_indices(offered@).len() < CARDS_OFFERED {
            offered_indices(offered@).len() as int
        } else {
            CARDS_OFFERED as int
        },
        cards@.no_duplicates(),
        forall|j: int| 0 <= j < cards@.len() ==> offered_indices(offered@).contains(#[trigger] cards@[j]),
        forall|j: int| 0 <= j < cards@.len() ==> (#[trigger] cards@[j] as int) < offered@.len() && offered@[cards@[j] as int],
{
    let ghost pool = offered_indices(offered@);
    assert(offered@.len() == offered.len());
    let n = offered_pool(offered).len();
    let target = if n < CARDS_OFFERED { n } else { CARDS_OFFERED };
    let mut rolls: Vec<usize> = Vec::new();
    let mut j: usize = 0;
    while j < target
        invariant
            n == pool.len(),
            target <= n,
            j <= target,
            rolls@.len() == j,
            rolls_fit(rolls@, n as int),
        decreases target - j,
    {
        let r = random_usize_in(0, n - j - 1);
        rolls.push(r);
        j = j + 1;
    }
    proof {
        lemma_offered_prefix(offered@, offered@.len() as int);
        lemma_draw_distinct(pool, rolls@);
    }
    let cards = draw_cards_with_rolls(offered, &rolls);
    proof {
        assert forall|j: int| 0 <= j < cards@.len() implies (#[trigger] cards@[j] as int) < offered@.len()
            && offered@[cards@[j] as int] by {
            assert(pool.contains(cards@[j]));
            let k = choose|k: int| 0 <= k < pool.len() && pool[k] == cards@[j];
            assert(pool[k] == cards@[j]);
        }
    }
    cards
}

} // verus!

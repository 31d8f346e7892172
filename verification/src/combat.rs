//! Player projectiles hitting enemies.
use vstd::prelude::*;

verus! {

/// An overlap between a player projectile and some target, as reported by
/// the collision system (entities given by their ids).
#[derive(Clone, Copy, Debug, PartialEq, Eq)]
pub struct ProjectileOverlap {
    pub projectile: u64,
    pub target: u64,
    /// Collision layer bits of the target.
    pub target_layer: u32,
}

/// Indices of the overlaps among the first `k` that deal damage: the
/// target is on one of the `mask` layers and the projectile has not already
/// hit something earlier in the same frame (it is consumed by its first
/// hit).
pub open spec fn accepted_hits(events: Seq<ProjectileOverlap>, mask: u32, k: int) -> Seq<int>
    decreases k,
{
    if k <= 0 {
        Seq::empty()
    } else {
        let prev = accepted_hits(events, mask, k - 1);
        let e = events[k - 1];
        if e.target_layer & mask != 0 && !(exists|j: int|
            0 <= j < prev.len() && #[trigger] events[prev[j]].projectile == e.projectile) {
            prev.push(k - 1)
        } else {
            prev
        }
    }
}

proof fn lemma_accepted_bounds(events: Seq<ProjectileOverlap>, mask: u32, k: int)
    requires
        0 <= k <= events.len(),
    ensures
        forall|j: int| 0 <= j < accepted_hits(events, mask, k).len() ==> 0 <= #[trigger] accepted_hits(events, mask, k)[j] < k,
    decreases k,
{
    if k > 0 {
        lemma_accepted_bounds(events, mask, k - 1);
        let prev = accepted_hits(events, mask, k - 1);
        let cur = accepted_hits(events, mask, k);
        assert forall|j: int| 0 <= j < cur.len() implies 0 <= #[trigger] cur[j] < k by {
            if j < prev.len() {
                assert(cur[j] == prev[j]);
            }
        }
    }
}

/// A projectile deals damage at most once per frame: the overlaps kept all
/// have different projectiles, and they come in the order reported.
pub proof fn lemma_one_hit_per_projectile(events: Seq<ProjectileOverlap>, mask: u32, k: int)
    requires
        0 <= k <= events.len(),
    ensures
        forall|a: int, b: int|
            0 <= a < b < accepted_hits(events, mask, k).len() ==> #[trigger] accepted_hits(events, mask, k)[a]
                < #[trigger] accepted_hits(events, mask, k)[b] && events[accepted_hits(events, mask, k)[a]].projectile
                != events[accepted_hits(events, mask, k)[b]].projectile,
    decreases k,
{
    if k > 0 {
        lemma_one_hit_per_projectile(events, mask, k - 1);
        lemma_accepted_bounds(events, mask, k - 1);
        let prev = accepted_hits(events, mask, k - 1);
        let cur = accepted_hits(events, mask, k);
        assert forall|a: int, b: int| 0 <= a < b < cur.len() implies #[trigger] cur[a] < #[trigger] cur[b]
            && events[cur[a]].projectile != events[cur[b]].projectile by {
            if b < prev.len() {
                assert(cur[a] == prev[a] && cur[b] == prev[b]);
            } else {
                assert(cur[a] == prev[a]);
                assert(cur[b] == k - 1);
                assert(0 <= a < prev.len());
                assert(events[prev[a]].projectile != events[k - 1].projectile);
            }
        }
    }
}

/// Resolves a frame's projectile overlaps: returns, in order, the indices
/// of the overlaps that deal the projectile's damage to their target (and
/// consume the projectile). Overlaps with targets outside `mask`, and any
/// later overlap of an already consumed projectile, are ignored.
pub fn resolve_projectile_hits(events: &[ProjectileOverlap], mask: u32) -> (hits: Vec<usize>)
    ensures
        hits@.len() == accepted_hits(events@, mask, events@.len() as int).len(),
        forall|j: int| 0 <= j < hits@.len() ==> hits@[j] as int == #[trigger] accepted_hits(events@, mask, events@.len() as int)[j],
{
    let mut hits: Vec<usize> = Vec::new();
    let mut consumed: Vec<u64> = Vec::new();
    let mut i: usize = 0;
    while i < events.len()
        invariant
            i <= events@.len(),
            hits@.len() == accepted_hits(events@, mask, i as int).len(),
            consumed@.len() == hits@.len(),
            forall|j: int| 0 <= j < hits@.len() ==> hits@[j] as int == #[trigger] accepted_hits(events@, mask, i as int)[j],
            forall|j: int| 0 <= j < hits@.len() ==> 0 <= #[trigger] hits@[j] < i,
            forall|j: int| 0 <= j < consumed@.len() ==> #[trigger] consumed@[j] == events@[hits@[j] as int].projectile,
        decreases events.len() - i,
    {
        let e = events[i];
        proof {
            lemma_accepted_bounds(events@, mask, i as int);
        }
        let mut seen = false;
        let mut k: usize = 0;
        while k < consumed.len()
            invariant
                k <= consumed@.len(),
                seen == exists|j: int| 0 <= j < k && consumed@[j] == e.projectile,
            decreases consumed.len() - k,
        {
            if consumed[k] == e.projectile {
                seen = true;
            }
            k = k + 1;
        }
        let ghost prev = accepted_hits(events@, mask, i as int);
        proof {
            assert(seen == exists|j: int| 0 <= j < prev.len() && #[trigger] events@[prev[j]].projectile == e.projectile) by {
                if seen {
                    let j = choose|j: int| 0 <= j < k && consumed@[j] == e.projectile;
                    assert(events@[prev[j]].projectile == e.projectile);
                }
                if exists|j: int| 0 <= j < prev.len() && #[trigger] events@[prev[j]].projectile == e.projectile {
                    let j = choose|j: int| 0 <= j < prev.len() && #[trigger] events@[prev[j]].projectile == e.projectile;
                    assert(consumed@[j] == e.projectile);
                }
            }
        }
        if e.target_layer & mask != 0 && !seen {
            hits.push(i);
            consumed.push(e.projectile);
        }
        i = i + 1;
    }
    hits
}

} // verus!

//! Stable ordering by key: the position of each entry once a list is sorted
//! by key with ties kept in list order.
use vstd::prelude::*;
use vstd::set_lib::*;
use vstd::relations::injective_on;

verus! {

/// Entry `j` comes before entry `i` when sorted by key, ties kept in list
/// order (a stable sort).
pub open spec fn sorts_before(ws: Seq<int>, j: int, i: int) -> bool {
    ws[j] < ws[i] || (ws[j] == ws[i] && j < i)
}

/// Number of entries among the first `k` that sort before entry `i`.
pub open spec fn count_before(ws: Seq<int>, i: int, k: int) -> nat
    decreases k,
{
    if k <= 0 {
        0
    } else {
        count_before(ws, i, k - 1) + if sorts_before(ws, k - 1, i) {
            1nat
        } else {
            0nat
        }
    }
}

/// Position of entry `i` in the list stably sorted by key.
pub open spec fn stable_rank(ws: Seq<int>, i: int) -> nat {
    count_before(ws, i, ws.len() as int)
}

pub proof fn lemma_count_before_bound(ws: Seq<int>, i: int, k: int)
    requires
        0 <= k <= ws.len(),
        0 <= i < ws.len(),
    ensures
        count_before(ws, i, k) <= k,
        i < k ==> count_before(ws, i, k) < k,
    decreases k,
{
    if k > 0 {
        lemma_count_before_bound(ws, i, k - 1);
    }
}

/// If `a` sorts before `b`, everything before `a` is before `b`, and `a`
/// itself too.
proof fn lemma_count_before_strict(ws: Seq<int>, a: int, b: int, k: int)
    requires
        0 <= a < ws.len(),
        0 <= b < ws.len(),
        0 <= k <= ws.len(),
        sorts_before(ws, a, b),
    ensures
        count_before(ws, a, k) <= count_before(ws, b, k),
        a < k ==> count_before(ws, a, k) < count_before(ws, b, k),
    decreases k,
{
    if k > 0 {
        lemma_count_before_strict(ws, a, b, k - 1);
    }
}

/// Distinct entries have distinct ranks.
proof fn lemma_rank_injective(ws: Seq<int>, a: int, b: int)
    requires
        0 <= a < ws.len(),
        0 <= b < ws.len(),
        a != b,
    ensures
        stable_rank(ws, a) != stable_rank(ws, b),
{
    if sorts_before(ws, a, b) {
        lemma_count_before_strict(ws, a, b, ws.len() as int);
    } else {
        assert(sorts_before(ws, b, a));
        lemma_count_before_strict(ws, b, a, ws.len() as int);
    }
}

/// Every position of the sorted list is held by some entry.
pub proof fn lemma_rank_onto(ws: Seq<int>, r: int)
    requires
        0 <= r < ws.len(),
    ensures
        exists|i: int| 0 <= i < ws.len() && stable_rank(ws, i) == r,
{
    let n = ws.len() as int;
    let dom = set_int_range(0, n);
    let f = |i: int| stable_rank(ws, i) as int;
    lemma_int_range(0, n);
    assert(injective_on(f, dom)) by {
        assert forall|a: int, b: int| dom.contains(a) && dom.contains(b) && #[trigger] f(a) == #[trigger] f(b)
            implies a == b by {
            if a != b {
                lemma_rank_injective(ws, a, b);
            }
        }
    }
    let img = dom.map(f);
    lemma_map_size(dom, img, f);
    assert(img.subset_of(dom)) by {
        assert forall|x: int| img.contains(x) implies dom.contains(x) by {
            let i = choose|i: int| dom.contains(i) && f(i) == x;
            lemma_count_before_bound(ws, i, n);
        }
    }
    lemma_subset_equality(img, dom);
    assert(dom.contains(r));
    assert(img.contains(r));
    let i = choose|i: int| dom.contains(i) && f(i) == r;
    assert(0 <= i < n && stable_rank(ws, i) == r);
}

/// Sorting by rank orders the keys, and equal keys keep their list order:
/// an entry ranked before another has a key no greater, and if the keys
/// are equal it came first in the list.
pub proof fn lemma_rank_sorted(ws: Seq<int>, a: int, b: int)
    requires
        0 <= a < ws.len(),
        0 <= b < ws.len(),
        stable_rank(ws, a) < stable_rank(ws, b),
    ensures
        sorts_before(ws, a, b),
        ws[a] <= ws[b],
        ws[a] == ws[b] ==> a < b,
{
    if a == b {
    } else if !sorts_before(ws, a, b) {
        assert(sorts_before(ws, b, a));
        lemma_count_before_strict(ws, b, a, ws.len() as int);
    }
}

} // verus!

//! Animation frames on disk: files named `frameNNN.png` (any number of
//! digits), played in increasing order of their number.
use vstd::prelude::*;
use crate::order::{lemma_rank_onto, stable_rank, count_before, lemma_count_before_bound};

verus! {

/// Is byte `c` an ASCII digit?
pub open spec fn is_digit(c: u8) -> bool {
    48 <= c <= 57
}

/// Value of a non-empty string of ASCII digits.
pub open spec fn digits_value(s: Seq<u8>) -> int
    decreases s.len(),
{
    if s.len() == 0 {
        0
    } else {
        digits_value(s.drop_last()) * 10 + (s.last() - 48)
    }
}

/// The digits of an unsigned integer as `str::parse` reads them: an
/// optional leading `+` followed by at least one ASCII digit.
pub open spec fn number_digits(s: Seq<u8>) -> Seq<u8> {
    if s.len() > 0 && s[0] == 43 {
        s.drop_first()
    } else {
        s
    }
}

/// `s` reads as an unsigned integer that fits in a `usize`.
pub open spec fn parses_as_usize(s: Seq<u8>) -> bool {
    let d = number_digits(s);
    &&& d.len() > 0
    &&& forall|i: int| 0 <= i < d.len() ==> is_digit(#[trigger] d[i])
    &&& digits_value(d) <= usize::MAX
}

/// The part of a file name between `frame` and `.png`, when the name has
/// that shape.
pub open spec fn frame_middle(name: Seq<u8>) -> Option<Seq<u8>> {
    if name.len() >= 9 && name.take(5) == seq![102u8, 114, 97, 109, 101] && name.skip(name.len() - 4)
        == seq![46u8, 112, 110, 103] {
        Some(name.subrange(5, name.len() - 4))
    } else {
        None
    }
}

proof fn lemma_digits_value_nonneg(s: Seq<u8>)
    requires
        forall|i: int| 0 <= i < s.len() ==> is_digit(#[trigger] s[i]),
    ensures
        digits_value(s) >= 0,
    decreases s.len(),
{
    if s.len() > 0 {
        lemma_digits_value_nonneg(s.drop_last());
    }
}

/// Reads the number of a `frameNNN.png` file name (given as its bytes):
/// `Some(n)` when the name is `frame`, then an unsigned integer that fits
/// in a `usize` (an optional `+` and digits), then `.png`; `None`
/// otherwise.
pub fn parse_frame_index(name: &[u8]) -> (r: Option<usize>)
    ensures
        r is Some <==> (frame_middle(name@) matches Some(m) && parses_as_usize(m)),
        r matches Some(n) ==> n as int == digits_value(number_digits(frame_middle(name@)->0)),
{
    let len = name.len();
    if len < 9 {
        return None;
    }
    if !(name[0] == 102 && name[1] == 114 && name[2] == 97 && name[3] == 109 && name[4] == 101) {
        proof {
            assert(name@.take(5) != seq![102u8, 114, 97, 109, 101]) by {
                if name@.take(5) == seq![102u8, 114, 97, 109, 101] {
                    assert(name@.take(5)[0] == name@[0]);
                    assert(name@.take(5)[1] == name@[1]);
                    assert(name@.take(5)[2] == name@[2]);
                    assert(name@.take(5)[3] == name@[3]);
                    assert(name@.take(5)[4] == name@[4]);
                }
            }
        }
        return None;
    }
    if !(name[len - 4] == 46 && name[len - 3] == 112 && name[len - 2] == 110 && name[len - 1] == 103) {
        proof {
            let t = name@.skip(len - 4);
            assert(t != seq![46u8, 112, 110, 103]) by {
                if t == seq![46u8, 112, 110, 103] {
                    assert(t[0] == name@[len - 4]);
                    assert(t[1] == name@[len - 3]);
                    assert(t[2] == name@[len - 2]);
                    assert(t[3] == name@[len - 1]);
                }
            }
        }
        return None;
    }
    proof {
        assert(name@.take(5) =~= seq![102u8, 114, 97, 109, 101]);
        assert(name@.skip(len - 4) =~= seq![46u8, 112, 110, 103]);
    }
    let ghost mid = name@.subrange(5, len - 4);
    let mut start: usize = 5;
    if name[5] == 43 {
        start = 6;
    }
    let ghost d = number_digits(mid);
    proof {
        assert(d =~= name@.subrange(start as int, len - 4));
        assert(frame_middle(name@) == Some(mid));
    }
    if start >= len - 4 {
        return None;
    }
    let mut value: usize = 0;
    let mut i: usize = start;
    while i < len - 4
        invariant
            start <= i <= len - 4,
            len == name@.len(),
            len >= 9,
            d =~= name@.subrange(start as int, len - 4),
            frame_middle(name@) == Some(mid),
            d == number_digits(mid),
            forall|j: int| start <= j < i ==> is_digit(#[trigger] name@[j]),
            value as int == digits_value(name@.subrange(start as int, i as int)),
        decreases len - 4 - i,
    {
        let c = name[i];
        if !(48 <= c && c <= 57) {
            proof {
                assert(d[i - start] == c);
                assert(!is_digit(d[i - start]));
            }
            return None;
        }
        proof {
            assert(name@.subrange(start as int, i + 1).drop_last() =~= name@.subrange(start as int, i as int));
            lemma_digits_value_nonneg(name@.subrange(start as int, i as int));
        }
        let digit = (c - 48) as usize;
        match value.checked_mul(10) {
            Some(v10) => match v10.checked_add(digit) {
                Some(v) => {
                    value = v;
                },
                None => {
                    proof {
                        assert(name@.subrange(start as int, i + 1) =~= d.take(i + 1 - start));
                        if forall|q: int| 0 <= q < d.len() ==> is_digit(#[trigger] d[q]) {
                            lemma_digits_prefix_bound(d, i + 1 - start);
                        }
                    }
                    return None;
                },
            },
            None => {
                proof {
                    assert(name@.subrange(start as int, i + 1) =~= d.take(i + 1 - start));
                    assert(value * 10 > usize::MAX);
                    if forall|q: int| 0 <= q < d.len() ==> is_digit(#[trigger] d[q]) {
                        lemma_digits_prefix_bound(d, i + 1 - start);
                    }
                }
                return None;
            },
        }
        i = i + 1;
    }
    proof {
        assert(name@.subrange(start as int, (len - 4) as int) =~= d);
    }
    Some(value)
}

/// The value of a digit string is at least that of any of its prefixes.
proof fn lemma_digits_prefix_bound(d: Seq<u8>, k: int)
    requires
        0 <= k <= d.len(),
        forall|i: int| 0 <= i < d.len() ==> is_digit(#[trigger] d[i]),
    ensures
        digits_value(d.take(k)) <= digits_value(d),
    decreases d.len() - k,
{
    if k < d.len() {
        lemma_digits_prefix_bound(d, k + 1);
        assert(d.take(k + 1).drop_last() =~= d.take(k));
        lemma_digits_value_nonneg(d.take(k));
    } else {
        assert(d.take(k) =~= d);
    }
}

/// Order in which to play frames numbered `indices`: position `r` of the
/// result holds the entry whose number comes `r`-th in increasing order,
/// entries with equal numbers kept in their listing order (a stable sort).
pub fn frame_order(indices: &Vec<usize>) -> (order: Vec<usize>)
    ensures
        order@.len() == indices@.len(),
        forall|r: int| 0 <= r < order@.len() ==> order@[r] < indices@.len() && stable_rank(
            indices@.map_values(|x: usize| x as int),
            order@[r] as int,
        ) == r,
{
    let ghost ws = indices@.map_values(|x: usize| x as int);
    let n = indices.len();
    let mut order: Vec<usize> = Vec::new();
    let mut r: usize = 0;
    while r < n
        invariant
            r <= n,
            n == indices@.len(),
            ws == indices@.map_values(|x: usize| x as int),
            order@.len() == r,
            forall|q: int| 0 <= q < r ==> order@[q] < n && stable_rank(ws, order@[q] as int) == q,
        decreases n - r,
    {
        proof {
            lemma_rank_onto(ws, r as int);
        }
        let mut i: usize = 0;
        let mut found: usize = 0;
        let mut ok = false;
        while i < n
            invariant
                i <= n,
                n == indices@.len(),
                r < n,
                ws == indices@.map_values(|x: usize| x as int),
                ok ==> found < n && stable_rank(ws, found as int) == r,
                !ok ==> forall|j: int| 0 <= j < i ==> stable_rank(ws, j) != r,
                exists|j: int| 0 <= j < n && stable_rank(ws, j) == r,
            decreases n - i,
        {
            if !ok {
                let key = indices[i];
                let mut c: usize = 0;
                let mut j: usize = 0;
                while j < n
                    invariant
                        j <= n,
                        i < n,
                        n == indices@.len(),
                        ws == indices@.map_values(|x: usize| x as int),
                        key == indices@[i as int],
                        c as int == count_before(ws, i as int, j as int),
                        c <= j,
                    decreases n - j,
                {
                    let kj = indices[j];
                    if kj < key || (kj == key && j < i) {
                        c = c + 1;
                    }
                    j = j + 1;
                }
                if c == r {
                    found = i;
                    ok = true;
                }
            }
            i = i + 1;
        }
        if !ok {
            proof {
                assert(false);
            }
        }
        order.push(found);
        r = r + 1;
    }
    order
}

} // verus!

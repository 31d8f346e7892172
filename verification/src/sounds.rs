//! Sounds played on a schedule while a phase lasts: one when it starts,
//! then one per interval, up to a given number.
//!
//! A frame long enough to span several intervals plays every sound it
//! skipped over, so the sounds heard depend only on the time spent in the
//! phase, not on how that time was cut into frames.
use vstd::prelude::*;

verus! {

/// Sounds due once `elapsed_ms` of the phase have passed: sound `k` (from
/// 0) is due at `k` intervals, and there are `count`.
pub open spec fn sounds_due(elapsed_ms: int, interval_ms: int, count: int) -> int {
    let n = elapsed_ms / interval_ms + 1;
    if n < count {
        n
    } else {
        count
    }
}

/// Sounds played after a frame that brings the phase to `elapsed_ms`,
/// `played` having been played before it.
pub open spec fn sounds_after(played: int, elapsed_ms: int, interval_ms: int, count: int) -> int {
    if played < sounds_due(elapsed_ms, interval_ms, count) {
        sounds_due(elapsed_ms, interval_ms, count)
    } else {
        played
    }
}

/// The schedule of the sounds: with an interval of `interval_ms`, sound
/// `k` (from 0, among the `count`) is due exactly from `k` intervals into
/// the phase on, so the first one plays at once; never more than `count`
/// are due, and more are due as time passes.
pub proof fn lemma_sound_schedule(elapsed_ms: int, interval_ms: int, count: int, k: int)
    requires
        elapsed_ms >= 0,
        interval_ms > 0,
        count >= 0,
        0 <= k < count,
    ensures
        sounds_due(elapsed_ms, interval_ms, count) <= count,
        sounds_due(elapsed_ms, interval_ms, count) > k <==> elapsed_ms >= k * interval_ms,
{
    let q = elapsed_ms / interval_ms;
    vstd::arithmetic::div_mod::lemma_fundamental_div_mod(elapsed_ms, interval_ms);
    let r = elapsed_ms % interval_ms;
    assert(0 <= r < interval_ms);
    if q >= k {
        assert(q * interval_ms >= k * interval_ms) by (nonlinear_arith)
            requires q >= k, interval_ms > 0;
        assert(elapsed_ms == interval_ms * q + r);
        assert(interval_ms * q == q * interval_ms) by (nonlinear_arith);
    } else {
        assert((q + 1) * interval_ms <= k * interval_ms) by (nonlinear_arith)
            requires q + 1 <= k, interval_ms > 0;
        assert(elapsed_ms == interval_ms * q + r);
        assert(interval_ms * q + interval_ms == (q + 1) * interval_ms) by (nonlinear_arith);
    }
}

/// Number of sounds played once the phase reaches `elapsed_ms`, `played`
/// having been played: every sound due and not played yet is played now.
pub fn catch_up(played: u8, elapsed_ms: u64, interval_ms: u64, count: u8) -> (r: u8)
    requires
        interval_ms > 0,
        interval_ms * count <= u64::MAX,
    ensures
        r == sounds_after(played as int, elapsed_ms as int, interval_ms as int, count as int),
{
    let mut n = played;
    proof {
        if n < count {
            assert((n as int) * (interval_ms as int) <= (interval_ms as int) * (count as int)) by (nonlinear_arith)
                requires n < count, interval_ms > 0;
        }
    }
    while n < count && (n as u64) * interval_ms <= elapsed_ms
        invariant
            played <= n,
            n < count ==> (n as int) * (interval_ms as int) <= u64::MAX,
            interval_ms > 0,
            interval_ms * count <= u64::MAX,
            played < sounds_due(elapsed_ms as int, interval_ms as int, count as int) ==> n <= sounds_due(
                elapsed_ms as int,
                interval_ms as int,
                count as int,
            ),
            played >= sounds_due(elapsed_ms as int, interval_ms as int, count as int) ==> n == played,
        decreases count - n,
    {
        proof {
            lemma_due_at_least(elapsed_ms as int, interval_ms as int, count as int, n as int);
            if n + 1 < count {
                assert(((n + 1) as int) * (interval_ms as int) <= (interval_ms as int) * (count as int))
                    by (nonlinear_arith)
                    requires n + 1 < count, interval_ms > 0;
            }
        }
        n = n + 1;
    }
    proof {
        if n < count {
            lemma_due_at_most(elapsed_ms as int, interval_ms as int, count as int, n as int);
        }
    }
    n
}

/// A sound whose time has come (`k` intervals have passed) is due.
proof fn lemma_due_at_least(elapsed_ms: int, interval_ms: int, count: int, k: int)
    requires
        interval_ms > 0,
        0 <= k < count,
        k * interval_ms <= elapsed_ms,
    ensures
        k < sounds_due(elapsed_ms, interval_ms, count),
{
    vstd::arithmetic::div_mod::lemma_fundamental_div_mod(elapsed_ms, interval_ms);
    vstd::arithmetic::div_mod::lemma_mod_pos_bound(elapsed_ms, interval_ms);
    if elapsed_ms / interval_ms < k {
        assert(interval_ms * (elapsed_ms / interval_ms) <= interval_ms * (k - 1)) by (nonlinear_arith)
            requires interval_ms > 0, elapsed_ms / interval_ms <= k - 1;
        assert(k * interval_ms == interval_ms * (k - 1) + interval_ms) by (nonlinear_arith);
    }
}

/// A sound whose time has not come is not due.
proof fn lemma_due_at_most(elapsed_ms: int, interval_ms: int, count: int, k: int)
    requires
        interval_ms > 0,
        0 <= elapsed_ms,
        0 <= k,
        k * interval_ms > elapsed_ms,
    ensures
        sounds_due(elapsed_ms, interval_ms, count) <= k,
{
    vstd::arithmetic::div_mod::lemma_fundamental_div_mod(elapsed_ms, interval_ms);
    vstd::arithmetic::div_mod::lemma_mod_pos_bound(elapsed_ms, interval_ms);
    if elapsed_ms / interval_ms >= k {
        assert(interval_ms * (elapsed_ms / interval_ms) >= interval_ms * k) by (nonlinear_arith)
            requires interval_ms > 0, elapsed_ms / interval_ms >= k;
        assert(k * interval_ms == interval_ms * k) by (nonlinear_arith);
    }
}

/// Total of a run of frame lengths.
pub open spec fn total_ms(dts: Seq<u64>) -> int
    decreases dts.len(),
{
    if dts.len() == 0 {
        0
    } else {
        dts[0] + total_ms(dts.drop_first())
    }
}

/// Sounds played after the frames `dts`, starting with `played` sounds at
/// `elapsed_ms`.
pub open spec fn sounds_after_frames(
    played: int,
    elapsed_ms: int,
    dts: Seq<u64>,
    interval_ms: int,
    count: int,
) -> int
    decreases dts.len(),
{
    if dts.len() == 0 {
        played
    } else {
        let e = elapsed_ms + dts[0];
        sounds_after_frames(sounds_after(played, e, interval_ms, count), e, dts.drop_first(), interval_ms, count)
    }
}

/// More time never makes fewer sounds due.
pub proof fn lemma_sounds_due_monotone(a: int, b: int, interval_ms: int, count: int)
    requires
        0 <= a <= b,
        interval_ms > 0,
    ensures
        sounds_due(a, interval_ms, count) <= sounds_due(b, interval_ms, count),
{
    vstd::arithmetic::div_mod::lemma_div_is_ordered(a, b, interval_ms);
}

/// However the phase's time is cut into frames, once at least one frame has
/// passed the sounds played are exactly those due at the total time spent.
pub proof fn lemma_sounds_follow_time(dts: Seq<u64>, interval_ms: int, count: int)
    requires
        dts.len() > 0,
        interval_ms > 0,
        count >= 0,
    ensures
        sounds_after_frames(0, 0, dts, interval_ms, count) == sounds_due(total_ms(dts), interval_ms, count),
{
    lemma_caught_up(0, 0, dts, interval_ms, count);
}

proof fn lemma_caught_up(played: int, elapsed_ms: int, dts: Seq<u64>, interval_ms: int, count: int)
    requires
        0 <= elapsed_ms,
        interval_ms > 0,
        count >= 0,
        0 <= played <= sounds_due(elapsed_ms, interval_ms, count),
        dts.len() > 0,
    ensures
        sounds_after_frames(played, elapsed_ms, dts, interval_ms, count) == sounds_due(
            elapsed_ms + total_ms(dts),
            interval_ms,
            count,
        ),
    decreases dts.len(),
{
    let e = elapsed_ms + dts[0];
    lemma_sounds_due_monotone(elapsed_ms, e, interval_ms, count);
    vstd::arithmetic::div_mod::lemma_div_pos_is_pos(e, interval_ms);
    let p = sounds_after(played, e, interval_ms, count);
    assert(p == sounds_due(e, interval_ms, count));
    assert(total_ms(dts) == dts[0] + total_ms(dts.drop_first()));
    assert(sounds_after_frames(played, elapsed_ms, dts, interval_ms, count) == sounds_after_frames(
        p,
        e,
        dts.drop_first(),
        interval_ms,
        count,
    ));
    if dts.len() == 1 {
        assert(dts.drop_first().len() == 0);
        assert(total_ms(dts.drop_first()) == 0);
        assert(sounds_after_frames(p, e, dts.drop_first(), interval_ms, count) == p);
    } else {
        lemma_caught_up(p, e, dts.drop_first(), interval_ms, count);
    }
}

} // verus!

//! Shooting saucers: the burst fired when a rush starts.
//!
//! A burst fires one projectile each time its timer runs out, in a
//! direction fixed when the burst started, and is over after its third
//! projectile.
use vstd::prelude::*;

verus! {

/// Projectiles in one burst.
pub const BURST_PROJECTILES: i32 = 3;

/// What one frame of a burst does.
#[derive(Clone, Copy, Debug, PartialEq, Eq)]
pub struct BurstTick {
    /// Fire a projectile now.
    pub fire: bool,
    /// The burst is over: its state is to be removed.
    pub done: bool,
}

/// A burst in progress: projectiles still to fire.
#[derive(Clone, Copy, Debug, PartialEq, Eq)]
pub struct ShooterBurst {
    pub remaining: i32,
}

/// Projectiles left after the frames `fired` (each `true` being a frame
/// where the burst's timer ran out), starting with `remaining`.
pub open spec fn remaining_after(remaining: int, fired: Seq<bool>) -> int
    decreases fired.len(),
{
    if fired.len() == 0 {
        remaining
    } else {
        remaining_after(if fired[0] { remaining - 1 } else { remaining }, fired.drop_first())
    }
}

/// Frames of `fired` where the timer ran out.
pub open spec fn timer_runs(fired: Seq<bool>) -> int
    decreases fired.len(),
{
    if fired.len() == 0 {
        0
    } else {
        (if fired[0] { 1int } else { 0int }) + timer_runs(fired.drop_first())
    }
}

impl ShooterBurst {
    /// A burst that has fired nothing yet.
    pub fn new() -> (b: Self)
        ensures
            b.remaining == BURST_PROJECTILES,
    {
        ShooterBurst { remaining: BURST_PROJECTILES }
    }

    /// One frame; `timer_finished` tells whether the burst's timer ran out.
    /// Each time it does a projectile is fired, and the burst is over once
    /// none is left.
    pub fn tick(&mut self, timer_finished: bool) -> (t: BurstTick)
        requires
            old(self).remaining > i32::MIN,
        ensures
            !timer_finished ==> *final(self) == *old(self) && !t.fire && !t.done,
            timer_finished ==> final(self).remaining == old(self).remaining - 1 && t.fire && t.done == (
            final(self).remaining <= 0),
            final(self).remaining == remaining_after(old(self).remaining as int, seq![timer_finished]),
    {
        proof {
            reveal_with_fuel(remaining_after, 2);
        }
        if !timer_finished {
            return BurstTick { fire: false, done: false };
        }
        self.remaining = self.remaining - 1;
        BurstTick { fire: true, done: self.remaining <= 0 }
    }
}

/// A burst fires one projectile per run of its timer: after any frames
/// with at most three runs of the timer, what is left is the number of
/// projectiles minus the runs, so the burst is over exactly at its third
/// projectile.
pub proof fn lemma_burst_counts_shots(fired: Seq<bool>)
    requires
        timer_runs(fired) <= BURST_PROJECTILES,
    ensures
        remaining_after(BURST_PROJECTILES as int, fired) == BURST_PROJECTILES - timer_runs(fired),
        remaining_after(BURST_PROJECTILES as int, fired) >= 0,
        remaining_after(BURST_PROJECTILES as int, fired) == 0 <==> timer_runs(fired) == BURST_PROJECTILES,
{
    lemma_remaining_after(BURST_PROJECTILES as int, fired);
}

proof fn lemma_remaining_after(remaining: int, fired: Seq<bool>)
    ensures
        remaining_after(remaining, fired) == remaining - timer_runs(fired),
        timer_runs(fired) >= 0,
    decreases fired.len(),
{
    if fired.len() > 0 {
        lemma_remaining_after(if fired[0] { remaining - 1 } else { remaining }, fired.drop_first());
    }
}

} // verus!

//! Mines: the beeps of the countdown before a mine explodes.
//!
//! A countdown plays three beeps: one when it starts, then one every half
//! second. A frame long enough to span several intervals plays every beep
//! it skipped over.
use vstd::prelude::*;
use crate::sounds::{catch_up, sounds_after, sounds_due};

verus! {

/// Time between two beeps, in milliseconds.
pub const MINE_BEEP_INTERVAL_MS: u64 = 500;

/// Beeps played by one countdown.
pub const MINE_BEEP_COUNT: u8 = 3;

/// Beeps due once `elapsed_ms` of the countdown have passed.
pub open spec fn beeps_due(elapsed_ms: int) -> int {
    sounds_due(elapsed_ms, MINE_BEEP_INTERVAL_MS as int, MINE_BEEP_COUNT as int)
}

/// A countdown beeps three times: at its start, after half a second and
/// after one second; beep `k` is due exactly from `500 k` ms on.
pub proof fn lemma_mine_beeps(elapsed_ms: int, k: int)
    requires
        elapsed_ms >= 0,
        0 <= k < 3,
    ensures
        beeps_due(elapsed_ms) <= 3,
        beeps_due(elapsed_ms) > k <==> elapsed_ms >= 500 * k,
{
    crate::sounds::lemma_sound_schedule(elapsed_ms, 500, 3, k);
}

/// Audio state of a mine's countdown.
#[derive(Clone, Copy, Debug, PartialEq, Eq)]
pub struct MineCountdownAudio {
    pub elapsed_ms: u64,
    pub beeps_played: u8,
}

impl MineCountdownAudio {
    /// A countdown that has just started: no time spent, no beep yet.
    pub fn new() -> (a: Self)
        ensures
            a.elapsed_ms == 0,
            a.beeps_played == 0,
    {
        MineCountdownAudio { elapsed_ms: 0, beeps_played: 0 }
    }

    /// Adds a frame of `dt_ms` to the countdown and returns how many beeps
    /// to play now: every beep now due that was not played yet.
    pub fn tick(&mut self, dt_ms: u64) -> (beeps: u8)
        requires
            old(self).elapsed_ms + dt_ms <= u64::MAX,
        ensures
            final(self).elapsed_ms == old(self).elapsed_ms + dt_ms,
            final(self).beeps_played == sounds_after(
                old(self).beeps_played as int,
                final(self).elapsed_ms as int,
                MINE_BEEP_INTERVAL_MS as int,
                MINE_BEEP_COUNT as int,
            ),
            beeps == final(self).beeps_played - old(self).beeps_played,
            // A countdown never plays more than its beeps.
            old(self).beeps_played <= MINE_BEEP_COUNT ==> final(self).beeps_played <= MINE_BEEP_COUNT,
    {
        self.elapsed_ms = self.elapsed_ms + dt_ms;
        let start = self.beeps_played;
        self.beeps_played = catch_up(start, self.elapsed_ms, MINE_BEEP_INTERVAL_MS, MINE_BEEP_COUNT);
        self.beeps_played - start
    }
}

} // verus!

//! Octopuses: the telegraph before an attack and the rush sounds before a
//! swoop.
//!
//! After a short telegraph the octopus picks, by a coin toss, either a
//! swoop through the player or a volley of shots; the telegraph asks for
//! that attack once. Before a swoop, the rush sound plays on a schedule.
use vstd::prelude::*;
use crate::rng::random_bool;
use crate::sounds::{catch_up, sounds_after};

verus! {

/// Length of the telegraph, in milliseconds.
pub const TELEGRAPH_DURATION_MS: u64 = 400;

/// Time between two rush sounds before a swoop, in milliseconds: half the
/// 600 ms pre-swoop phase.
pub const PRE_SWOOP_INTERVAL_MS: u64 = 300;

/// Rush sounds played during the pre-swoop phase: at its start and at its
/// middle (the third comes with the swoop itself).
pub const PRE_SWOOP_SOUNDS: u8 = 2;

/// The attack an octopus goes for.
#[derive(Clone, Copy, Debug, PartialEq, Eq)]
pub enum OctopusAttack {
    /// "do_swoop": a curve through the player's position.
    Swoop,
    /// "do_shoot": a volley of projectiles.
    Shoot,
}

/// The attack chosen by the coin toss `heads`: heads is a swoop.
pub fn attack_for_coin(heads: bool) -> (a: OctopusAttack)
    ensures
        a == if heads { OctopusAttack::Swoop } else { OctopusAttack::Shoot },
{
    if heads {
        OctopusAttack::Swoop
    } else {
        OctopusAttack::Shoot
    }
}

/// State of a telegraph: time spent, and whether it has asked for its
/// attack.
#[derive(Clone, Copy, Debug, PartialEq, Eq)]
pub struct OctopusTelegraph {
    pub elapsed_ms: u64,
    pub fired: bool,
}

/// One frame of `dt_ms` of a telegraph: its next state, and whether it
/// asks for its attack on that frame.
pub open spec fn telegraph_step(t: OctopusTelegraph, dt_ms: u64) -> (OctopusTelegraph, bool) {
    if t.fired {
        (t, false)
    } else {
        let e = (t.elapsed_ms + dt_ms) as u64;
        (OctopusTelegraph { elapsed_ms: e, fired: e >= TELEGRAPH_DURATION_MS }, e >= TELEGRAPH_DURATION_MS)
    }
}

/// Number of frames of the run `dts` on which a telegraph, starting from
/// `t`, asks for an attack.
pub open spec fn attacks_in_run(t: OctopusTelegraph, dts: Seq<u64>) -> int
    decreases dts.len(),
{
    if dts.len() == 0 {
        0
    } else {
        let (u, asks) = telegraph_step(t, dts[0]);
        (if asks {
            1int
        } else {
            0int
        }) + attacks_in_run(u, dts.drop_first())
    }
}

/// A telegraph asks for at most one attack, however its time is cut into
/// frames, and none once it has asked.
pub proof fn lemma_one_attack_per_telegraph(t: OctopusTelegraph, dts: Seq<u64>)
    ensures
        0 <= attacks_in_run(t, dts) <= 1,
        t.fired ==> attacks_in_run(t, dts) == 0,
    decreases dts.len(),
{
    if dts.len() > 0 {
        let (u, asks) = telegraph_step(t, dts[0]);
        lemma_one_attack_per_telegraph(u, dts.drop_first());
    }
}

impl OctopusTelegraph {
    /// A telegraph that has just started.
    pub fn new() -> (t: Self)
        ensures
            t.elapsed_ms == 0,
            !t.fired,
    {
        OctopusTelegraph { elapsed_ms: 0, fired: false }
    }

    /// A frame of `dt_ms`. Once the telegraph has lasted its time, it asks
    /// for an attack chosen by a coin toss, once; after that frames change
    /// nothing.
    pub fn tick(&mut self, dt_ms: u64) -> (attack: Option<OctopusAttack>)
        requires
            !old(self).fired ==> old(self).elapsed_ms + dt_ms <= u64::MAX,
        ensures
            old(self).fired ==> *final(self) == *old(self) && attack is None,
            !old(self).fired ==> {
                &&& final(self).elapsed_ms == old(self).elapsed_ms + dt_ms
                &&& attack is Some <==> final(self).elapsed_ms >= TELEGRAPH_DURATION_MS
                &&& final(self).fired == attack is Some
            },
            (*final(self), attack is Some) == telegraph_step(*old(self), dt_ms),
    {
        if self.fired {
            return None;
        }
        self.elapsed_ms = self.elapsed_ms + dt_ms;
        if self.elapsed_ms >= TELEGRAPH_DURATION_MS {
            self.fired = true;
            Some(attack_for_coin(random_bool()))
        } else {
            None
        }
    }
}

/// The pre-swoop phase plays two rush sounds: one at its start and one
/// 300 ms in; sound `k` is due exactly from `300 k` ms on.
pub proof fn lemma_pre_swoop_sounds(elapsed_ms: int, k: int)
    requires
        elapsed_ms >= 0,
        0 <= k < 2,
    ensures
        crate::sounds::sounds_due(elapsed_ms, PRE_SWOOP_INTERVAL_MS as int, PRE_SWOOP_SOUNDS as int) <= 2,
        crate::sounds::sounds_due(elapsed_ms, PRE_SWOOP_INTERVAL_MS as int, PRE_SWOOP_SOUNDS as int) > k
            <==> elapsed_ms >= 300 * k,
{
    crate::sounds::lemma_sound_schedule(elapsed_ms, 300, 2, k);
}

/// A telegraph asks for its attack on the frame its time reaches 400 ms,
/// not before, and only once.
pub proof fn lemma_telegraph_timing(t: OctopusTelegraph, dt_ms: u64)
    requires
        t.elapsed_ms + dt_ms <= u64::MAX,
    ensures
        !t.fired ==> (telegraph_step(t, dt_ms).1 <==> t.elapsed_ms + dt_ms >= 400),
        t.fired ==> !telegraph_step(t, dt_ms).1,
{
}

/// Sound state of the pre-swoop phase.
#[derive(Clone, Copy, Debug, PartialEq, Eq)]
pub struct OctopusPreSwoop {
    pub elapsed_ms: u64,
    pub sounds_played: u8,
}

impl OctopusPreSwoop {
    /// A pre-swoop phase that has just started.
    pub fn new() -> (p: Self)
        ensures
            p.elapsed_ms == 0,
            p.sounds_played == 0,
    {
        OctopusPreSwoop { elapsed_ms: 0, sounds_played: 0 }
    }

    /// Adds a frame of `dt_ms` and returns how many rush sounds to play now.
    pub fn tick(&mut self, dt_ms: u64) -> (sounds: u8)
        requires
            old(self).elapsed_ms + dt_ms <= u64::MAX,
        ensures
            final(self).elapsed_ms == old(self).elapsed_ms + dt_ms,
            final(self).sounds_played == sounds_after(
                old(self).sounds_played as int,
                final(self).elapsed_ms as int,
                PRE_SWOOP_INTERVAL_MS as int,
                PRE_SWOOP_SOUNDS as int,
            ),
            sounds == final(self).sounds_played - old(self).sounds_played,
    {
        self.elapsed_ms = self.elapsed_ms + dt_ms;
        let start = self.sounds_played;
        self.sounds_played = catch_up(start, self.elapsed_ms, PRE_SWOOP_INTERVAL_MS, PRE_SWOOP_SOUNDS);
        self.sounds_played - start
    }
}

} // verus!

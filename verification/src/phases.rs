//! Phase machines of the level and of its big enemies: the level's own
//! phases (intro, running, outro), the boss's health tiers, the
//! mothership's phases, and the choice of a transition in the data-driven
//! enemy framework.
use vstd::prelude::*;
use crate::rng::random_usize_in;

verus! {

// ─── Boss health tiers ───────────────────────────────────────────────

/// Health tier of the boss. Starts at 1; 2 once health fell to 2/3 of
/// the maximum, 3 once it fell to 1/3.
#[derive(Clone, Copy, Debug, PartialEq, Eq)]
pub struct BossPhaseTracker {
    pub phase: u8,
}

/// Health `hp` out of `max_hp` is at most `num/den` of the maximum.
pub open spec fn health_at_most(hp: int, max_hp: int, num: int, den: int) -> bool {
    den * hp <= num * max_hp
}

/// Does a check in tier `phase` with this health cross the next threshold?
pub open spec fn tier_crossed(phase: int, invulnerable: bool, hp: i32, max_hp: i32) -> bool {
    &&& !invulnerable
    &&& max_hp > 0
    &&& (phase == 1 && health_at_most(hp as int, max_hp as int, 2, 3)) || (phase == 2 && health_at_most(
        hp as int,
        max_hp as int,
        1,
        3,
    ))
}

/// Tier and number of "hp_threshold" messages after the checks `checks`
/// (each: invulnerable, health, maximum health), starting in tier `phase`
/// with no message.
pub open spec fn tier_run(phase: int, checks: Seq<(bool, i32, i32)>) -> (int, int)
    decreases checks.len(),
{
    if checks.len() == 0 {
        (phase, 0)
    } else {
        let (p, n) = tier_run(phase, checks.drop_last());
        let c = checks.last();
        if tier_crossed(p, c.0, c.1, c.2) {
            (p + 1, n + 1)
        } else {
            (p, n)
        }
    }
}

/// Over any sequence of checks from a new tracker, the tier stays within
/// 1..=3 and exactly one "hp_threshold" message has been pushed per tier
/// gained: the number of messages is the tier minus one, so at most two.
pub proof fn lemma_tier_messages(checks: Seq<(bool, i32, i32)>)
    ensures
        1 <= tier_run(1, checks).0 <= 3,
        tier_run(1, checks).1 == tier_run(1, checks).0 - 1,
        checks.len() > 0 ==> tier_run(1, checks.drop_last()).0 <= tier_run(1, checks).0 <= tier_run(
            1,
            checks.drop_last(),
        ).0 + 1,
    decreases checks.len(),
{
    if checks.len() > 0 {
        lemma_tier_messages(checks.drop_last());
    }
}

impl BossPhaseTracker {
    /// First tier.
    pub fn new() -> (t: Self)
        ensures
            t.phase == 1,
    {
        BossPhaseTracker { phase: 1 }
    }

    /// Checks the boss's health (`hp` out of `max_hp`) against the next tier
    /// threshold. Skipped while the boss is invulnerable (a tier transition
    /// is playing). When the threshold is crossed the tier goes up by one
    /// and `true` is returned: an "hp_threshold" message is to be pushed.
    /// At most one tier per check, so two thresholds crossed by one big hit
    /// play their transitions one after the other. A boss without a positive
    /// maximum health has no health fraction and crosses nothing.
    pub fn hp_threshold_check(&mut self, invulnerable: bool, hp: i32, max_hp: i32) -> (crossed: bool)
        ensures
            crossed == tier_crossed(old(self).phase as int, invulnerable, hp, max_hp),
            // Tier 1 ends at two thirds of the maximum health, tier 2 at one
            // third; tier 3 is the last.
            crossed == (!invulnerable && max_hp > 0 && ((old(self).phase == 1 && 3 * (hp as int) <= 2 * (
            max_hp as int)) || (old(self).phase == 2 && 3 * (hp as int) <= max_hp as int))),
            final(self).phase == if crossed { old(self).phase + 1 } else { old(self).phase as int },
            // The tier never goes down and stays within 1..=3.
            final(self).phase >= old(self).phase,
            1 <= old(self).phase <= 3 ==> 1 <= final(self).phase <= 3,
    {
        if invulnerable || max_hp <= 0 {
            return false;
        }
        let h = hp as i64;
        let m = max_hp as i64;
        if self.phase == 1 && 3 * h <= 2 * m {
            self.phase = 2;
            true
        } else if self.phase == 2 && 3 * h <= m {
            self.phase = 3;
            true
        } else {
            false
        }
    }
}

// ─── Level phases ────────────────────────────────────────────────────

/// Sub-phase of a level being played.
#[derive(Clone, Copy, Debug, PartialEq, Eq)]
pub enum LevelPhase {
    /// The ship's entry animation.
    Intro,
    /// The level's steps run.
    Running,
    /// Delay between the level's completion and the outro.
    OutroCountdown,
    /// Victory sequence.
    Outro,
}

/// What the game reports to the level phase machine on a frame.
#[derive(Clone, Copy, Debug, PartialEq, Eq)]
pub struct LevelPhaseInput {
    /// The intro animation has ended and its sound has finished.
    pub intro_done: bool,
    /// The player skipped the intro.
    pub intro_skipped: bool,
    /// The level is marked complete.
    pub level_complete: bool,
    /// The outro countdown has run out.
    pub countdown_done: bool,
}

/// Next level phase for one frame's input.
pub open spec fn next_level_phase(p: LevelPhase, i: LevelPhaseInput) -> LevelPhase {
    match p {
        LevelPhase::Intro => if i.intro_done || i.intro_skipped { LevelPhase::Running } else { p },
        LevelPhase::Running => if i.level_complete { LevelPhase::OutroCountdown } else { p },
        LevelPhase::OutroCountdown => if i.countdown_done { LevelPhase::Outro } else { p },
        LevelPhase::Outro => p,
    }
}

impl LevelPhase {
    /// Intro → Running once the intro is over or skipped; Running →
    /// OutroCountdown once the level is complete; OutroCountdown → Outro
    /// when the countdown runs out.
    pub fn next(self, input: LevelPhaseInput) -> (p: LevelPhase)
        ensures
            p == next_level_phase(self, input),
    {
        match self {
            LevelPhase::Intro => if input.intro_done || input.intro_skipped {
                LevelPhase::Running
            } else {
                self
            },
            LevelPhase::Running => if input.level_complete {
                LevelPhase::OutroCountdown
            } else {
                self
            },
            LevelPhase::OutroCountdown => if input.countdown_done {
                LevelPhase::Outro
            } else {
                self
            },
            LevelPhase::Outro => self,
        }
    }
}

/// The level phases only move forward.
pub open spec fn level_phase_rank(p: LevelPhase) -> int {
    match p {
        LevelPhase::Intro => 0,
        LevelPhase::Running => 1,
        LevelPhase::OutroCountdown => 2,
        LevelPhase::Outro => 3,
    }
}

/// A level never goes back to an earlier phase, and moves at most one
/// phase per frame.
pub proof fn lemma_level_phase_forward(p: LevelPhase, i: LevelPhaseInput)
    ensures
        level_phase_rank(p) <= level_phase_rank(next_level_phase(p, i)) <= level_phase_rank(p) + 1,
{
}

/// What moves a level from one phase to the next: the intro ends when it
/// is over or skipped, the running level ends when it is complete, and the
/// outro starts only once the countdown has run out; the outro is final.
/// Any other input leaves the phase as it is.
pub proof fn lemma_level_phase_moves(p: LevelPhase, i: LevelPhaseInput)
    ensures
        p == LevelPhase::Intro ==> next_level_phase(p, i) == if i.intro_done || i.intro_skipped {
            LevelPhase::Running
        } else {
            LevelPhase::Intro
        },
        p == LevelPhase::Running ==> next_level_phase(p, i) == if i.level_complete {
            LevelPhase::OutroCountdown
        } else {
            LevelPhase::Running
        },
        p == LevelPhase::OutroCountdown ==> next_level_phase(p, i) == if i.countdown_done {
            LevelPhase::Outro
        } else {
            LevelPhase::OutroCountdown
        },
        p == LevelPhase::Outro ==> next_level_phase(p, i) == LevelPhase::Outro,
        next_level_phase(p, i) == LevelPhase::Outro && p != LevelPhase::Outro ==> i.countdown_done,
{
}

/// Watches the boss of a level: the level is complete once a boss that has
/// been seen alive is gone.
#[derive(Clone, Copy, Debug, PartialEq, Eq)]
pub struct BossWatch {
    /// A boss has been observed alive (its entity really exists).
    pub boss_seen_alive: bool,
}

impl BossWatch {
    /// No boss seen yet.
    pub fn new() -> (w: Self)
        ensures
            !w.boss_seen_alive,
    {
        BossWatch { boss_seen_alive: false }
    }

    /// One frame: `boss_present` tells whether a boss entity exists,
    /// `level_complete` whether the level is already complete. Returns
    /// whether to mark the level complete now.
    pub fn observe(&mut self, boss_present: bool, level_complete: bool) -> (mark_complete: bool)
        ensures
            final(self).boss_seen_alive == (old(self).boss_seen_alive || boss_present),
            mark_complete == (old(self).boss_seen_alive && !boss_present && !level_complete),
    {
        if !self.boss_seen_alive && boss_present {
            self.boss_seen_alive = true;
        }
        self.boss_seen_alive && !boss_present && !level_complete
    }
}

// ─── Mothership ──────────────────────────────────────────────────────

/// Phases of the mothership.
#[derive(Clone, Copy, Debug, PartialEq, Eq)]
pub enum MothershipPhase {
    /// Arriving on screen.
    Entering,
    /// Gatlings alive: normal drift.
    Phase1,
    /// Slow descent towards the phase 2 anchor.
    TransitionToPhase2,
    /// Gatlings dead, hearts left.
    Phase2,
    /// Backing off the screen.
    Dying,
}

/// What the game reports about a mothership on a frame.
#[derive(Clone, Copy, Debug, PartialEq, Eq)]
pub struct MothershipInput {
    /// The entry animation is over.
    pub entering_done: bool,
    /// The phase 2 transition is over.
    pub transition_done: bool,
    /// Every gatling of the mothership is dying, dead or gone.
    pub gatlings_dead: bool,
    /// Every heart of the mothership is dying, dead or gone.
    pub hearts_dead: bool,
}

/// Next mothership phase for one frame's input.
pub open spec fn next_mothership_phase(p: MothershipPhase, i: MothershipInput) -> MothershipPhase {
    match p {
        MothershipPhase::Entering => if i.entering_done { MothershipPhase::Phase1 } else { p },
        MothershipPhase::Phase1 => if i.gatlings_dead { MothershipPhase::TransitionToPhase2 } else { p },
        MothershipPhase::TransitionToPhase2 => if i.hearts_dead {
            MothershipPhase::Dying
        } else if i.transition_done {
            MothershipPhase::Phase2
        } else {
            p
        },
        MothershipPhase::Phase2 => if i.hearts_dead { MothershipPhase::Dying } else { p },
        MothershipPhase::Dying => p,
    }
}

/// Stage of the mothership: entry, first phase, move to the second, second
/// phase, dying.
pub open spec fn mothership_stage(p: MothershipPhase) -> int {
    match p {
        MothershipPhase::Entering => 0,
        MothershipPhase::Phase1 => 1,
        MothershipPhase::TransitionToPhase2 => 2,
        MothershipPhase::Phase2 => 3,
        MothershipPhase::Dying => 4,
    }
}

/// What moves a mothership on: its entry ends when reported over; its
/// first phase ends exactly when every gatling is dead; the move to the
/// second phase ends in dying if every heart is dead, else in the second
/// phase once reported over; the second phase ends in dying exactly when
/// every heart is dead; dying is final. A mothership only starts dying
/// once all its hearts are dead, and never goes back to an earlier stage.
pub proof fn lemma_mothership_moves(p: MothershipPhase, i: MothershipInput)
    ensures
        p == MothershipPhase::Entering ==> next_mothership_phase(p, i) == if i.entering_done {
            MothershipPhase::Phase1
        } else {
            MothershipPhase::Entering
        },
        p == MothershipPhase::Phase1 ==> next_mothership_phase(p, i) == if i.gatlings_dead {
            MothershipPhase::TransitionToPhase2
        } else {
            MothershipPhase::Phase1
        },
        p == MothershipPhase::TransitionToPhase2 ==> next_mothership_phase(p, i) == if i.hearts_dead {
            MothershipPhase::Dying
        } else if i.transition_done {
            MothershipPhase::Phase2
        } else {
            MothershipPhase::TransitionToPhase2
        },
        p == MothershipPhase::Phase2 ==> next_mothership_phase(p, i) == if i.hearts_dead {
            MothershipPhase::Dying
        } else {
            MothershipPhase::Phase2
        },
        p == MothershipPhase::Dying ==> next_mothership_phase(p, i) == MothershipPhase::Dying,
        p != MothershipPhase::Dying && next_mothership_phase(p, i) == MothershipPhase::Dying ==> i.hearts_dead,
        mothership_stage(p) <= mothership_stage(next_mothership_phase(p, i)),
{
}

/// Are all the entities of a group dead (true for an empty group)?
pub fn all_dead(dead: &[bool]) -> (r: bool)
    ensures
        r == forall|i: int| 0 <= i < dead@.len() ==> dead@[i],
{
    let mut i: usize = 0;
    while i < dead.len()
        invariant
            i <= dead@.len(),
            forall|j: int| 0 <= j < i ==> dead@[j],
        decreases dead.len() - i,
    {
        if !dead[i] {
            return false;
        }
        i = i + 1;
    }
    true
}

impl MothershipPhase {
    /// Entering → Phase1 after the entry; Phase1 → TransitionToPhase2 once
    /// every gatling is dead; TransitionToPhase2/Phase2 → Dying once every
    /// heart is dead (the transition otherwise ends in Phase2).
    pub fn next(self, input: MothershipInput) -> (p: MothershipPhase)
        ensures
            p == next_mothership_phase(self, input),
    {
        match self {
            MothershipPhase::Entering => if input.entering_done {
                MothershipPhase::Phase1
            } else {
                self
            },
            MothershipPhase::Phase1 => if input.gatlings_dead {
                MothershipPhase::TransitionToPhase2
            } else {
                self
            },
            MothershipPhase::TransitionToPhase2 => if input.hearts_dead {
                MothershipPhase::Dying
            } else if input.transition_done {
                MothershipPhase::Phase2
            } else {
                self
            },
            MothershipPhase::Phase2 => if input.hearts_dead {
                MothershipPhase::Dying
            } else {
                self
            },
            MothershipPhase::Dying => self,
        }
    }
}

/// What happens when a dying mothership has left the screen.
#[derive(Clone, Copy, Debug, PartialEq, Eq)]
pub enum MothershipEnd {
    /// Another mothership follows: spawn it.
    SpawnNext,
    /// The level is complete.
    LevelComplete,
}

/// End of a dying mothership: the next one if one is configured, else the
/// level is complete.
pub fn mothership_end(has_next: bool) -> (r: MothershipEnd)
    ensures
        r == if has_next { MothershipEnd::SpawnNext } else { MothershipEnd::LevelComplete },
{
    if has_next {
        MothershipEnd::SpawnNext
    } else {
        MothershipEnd::LevelComplete
    }
}

// ─── Enemy phase transitions ─────────────────────────────────────────

/// `i` is the transition to take: it fired, no fired transition has a
/// higher priority, and no earlier fired transition has the same one
/// (transitions are tried by decreasing priority, in list order among
/// equals).
pub open spec fn is_chosen_transition(priorities: Seq<i32>, fired: Seq<bool>, i: int) -> bool {
    &&& 0 <= i < priorities.len()
    &&& fired[i]
    &&& forall|j: int| 0 <= j < priorities.len() && fired[j] ==> priorities[j] <= priorities[i]
    &&& forall|j: int| 0 <= j < i && fired[j] ==> priorities[j] < priorities[i]
}

/// Picks the transition an enemy takes this frame, given each transition's
/// priority and whether its trigger fired: the highest priority among the
/// fired ones, the first in list order among equals. `None` if none fired.
pub fn select_transition(priorities: &[i32], fired: &[bool]) -> (r: Option<usize>)
    requires
        priorities@.len() == fired@.len(),
    ensures
        r is None <==> forall|j: int| 0 <= j < fired@.len() ==> !fired@[j],
        r matches Some(i) ==> is_chosen_transition(priorities@, fired@, i as int),
{
    let mut best: Option<usize> = None;
    let mut i: usize = 0;
    while i < priorities.len()
        invariant
            i <= priorities@.len(),
            priorities@.len() == fired@.len(),
            best is None <==> forall|j: int| 0 <= j < i ==> !fired@[j],
            best matches Some(b) ==> {
                &&& b < i
                &&& fired@[b as int]
                &&& forall|j: int| 0 <= j < i && fired@[j] ==> priorities@[j] <= priorities@[b as int]
                &&& forall|j: int| 0 <= j < b && fired@[j] ==> priorities@[j] < priorities@[b as int]
            },
        decreases priorities.len() - i,
    {
        if fired[i] {
            match best {
                None => {
                    best = Some(i);
                },
                Some(b) => {
                    if priorities[i] > priorities[b] {
                        best = Some(i);
                    }
                },
            }
        }
        i = i + 1;
    }
    best
}

/// A random choice among `len` behaviours: the index of the one to run,
/// drawn uniformly; `None` when there is none to choose from.
pub fn random_choice(len: usize) -> (r: Option<usize>)
    ensures
        r is None <==> len == 0,
        r matches Some(i) ==> i < len,
{
    if len == 0 {
        None
    } else {
        Some(random_usize_in(0, len - 1))
    }
}

} // verus!

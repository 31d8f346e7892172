//! The behaviour machines of the boss, the green UFO and the octopus.
//!
//! Each enemy runs a machine of states. A state ends when its time is up
//! (`elapsed_ms` is the time spent in it, this frame included; the caller
//! starts it again at 0 on each change) or on a message: the messages of a
//! frame are tried in the order the transitions were declared, and the
//! first that applies wins. Death (`die`) is handled by the outer machine
//! and wins over the inner messages.
use vstd::prelude::*;

verus! {

/// The boss's entry (spiral then flexing), in ms.
pub const BOSS_ENTERING_MS: u64 = 5500;
/// A tier transition of the boss, in ms.
pub const BOSS_TRANSITIONING_MS: u64 = 2500;
/// The boss's death shake before it is removed, in ms.
pub const BOSS_DYING_MS: u64 = 4000;

/// States of the boss.
#[derive(Clone, Copy, Debug, PartialEq, Eq)]
pub enum BossState {
    Entering,
    PatrolLeft,
    PatrolRight,
    Charge,
    Transitioning,
    Dying,
    Despawned,
}

/// Messages received by the boss on a frame.
#[derive(Clone, Copy, Debug, PartialEq, Eq)]
pub struct BossEvents {
    pub die: bool,
    pub hp_threshold: bool,
    pub player_charge: bool,
    pub wall_left: bool,
    pub wall_right: bool,
    pub transition_done: bool,
}

/// The boss is alive (patrolling, charging or between tiers).
pub open spec fn boss_alive(s: BossState) -> bool {
    s is PatrolLeft || s is PatrolRight || s is Charge || s is Transitioning
}

/// Next state of the boss. While alive, `hp_threshold` comes first, then
/// `player_charge`, then the wall events (a wall sends the boss the other
/// way).
pub open spec fn boss_next(s: BossState, e: BossEvents, elapsed_ms: u64) -> BossState {
    match s {
        BossState::Entering => if elapsed_ms >= BOSS_ENTERING_MS {
            BossState::PatrolLeft
        } else {
            s
        },
        BossState::Dying => if elapsed_ms >= BOSS_DYING_MS {
            BossState::Despawned
        } else {
            s
        },
        BossState::Despawned => s,
        _ => if e.die {
            BossState::Dying
        } else {
            match s {
                BossState::PatrolLeft => if e.hp_threshold {
                    BossState::Transitioning
                } else if e.player_charge {
                    BossState::Charge
                } else if e.wall_left {
                    BossState::PatrolRight
                } else {
                    s
                },
                BossState::PatrolRight => if e.hp_threshold {
                    BossState::Transitioning
                } else if e.player_charge {
                    BossState::Charge
                } else if e.wall_right {
                    BossState::PatrolLeft
                } else {
                    s
                },
                BossState::Charge => if e.hp_threshold {
                    BossState::Transitioning
                } else if e.wall_left {
                    BossState::PatrolRight
                } else if e.wall_right {
                    BossState::PatrolLeft
                } else {
                    s
                },
                _ => if e.transition_done || elapsed_ms >= BOSS_TRANSITIONING_MS {
                    BossState::PatrolLeft
                } else {
                    s
                },
            }
        },
    }
}

/// One frame of the boss's behaviour.
pub fn boss_step(s: BossState, e: BossEvents, elapsed_ms: u64) -> (n: BossState)
    ensures
        n == boss_next(s, e, elapsed_ms),
{
    match s {
        BossState::Entering => if elapsed_ms >= BOSS_ENTERING_MS {
            BossState::PatrolLeft
        } else {
            s
        },
        BossState::Dying => if elapsed_ms >= BOSS_DYING_MS {
            BossState::Despawned
        } else {
            s
        },
        BossState::Despawned => s,
        _ => if e.die {
            BossState::Dying
        } else {
            match s {
                BossState::PatrolLeft => if e.hp_threshold {
                    BossState::Transitioning
                } else if e.player_charge {
                    BossState::Charge
                } else if e.wall_left {
                    BossState::PatrolRight
                } else {
                    s
                },
                BossState::PatrolRight => if e.hp_threshold {
                    BossState::Transitioning
                } else if e.player_charge {
                    BossState::Charge
                } else if e.wall_right {
                    BossState::PatrolLeft
                } else {
                    s
                },
                BossState::Charge => if e.hp_threshold {
                    BossState::Transitioning
                } else if e.wall_left {
                    BossState::PatrolRight
                } else if e.wall_right {
                    BossState::PatrolLeft
                } else {
                    s
                },
                _ => if e.transition_done || elapsed_ms >= BOSS_TRANSITIONING_MS {
                    BossState::PatrolLeft
                } else {
                    s
                },
            }
        },
    }
}

/// Stage of the boss's flow: entry, alive, dying, removed.
pub open spec fn boss_stage(s: BossState) -> int {
    match s {
        BossState::Entering => 0,
        BossState::Dying => 2,
        BossState::Despawned => 3,
        _ => 1,
    }
}

/// The boss goes through entry, alive, dying and removal in that order and
/// never back: a dying or removed boss never comes back to life, and a
/// living boss never goes back to its entry; a living boss that gets `die`
/// is dying.
pub proof fn lemma_boss_flow(s: BossState, e: BossEvents, elapsed_ms: u64)
    ensures
        boss_stage(s) <= boss_stage(boss_next(s, e, elapsed_ms)),
        (s is Dying || s is Despawned) ==> (boss_next(s, e, elapsed_ms) is Dying || boss_next(s, e, elapsed_ms) is Despawned),
        boss_alive(s) ==> !(boss_next(s, e, elapsed_ms) is Entering),
        boss_alive(s) && e.die ==> boss_next(s, e, elapsed_ms) is Dying,
        boss_alive(s) && !e.die && e.hp_threshold && !(s is Transitioning) ==> boss_next(s, e, elapsed_ms) is Transitioning,
{
}

/// The boss's patrol and charge react to the frame's messages, a living
/// boss being neither killed nor crossing a health tier:
/// - a patrol that is told to charge charges;
/// - otherwise a wall hit turns the boss away from that wall: hitting the
///   left wall (and not the right one) leaves it patrolling right, hitting
///   the right wall (and not the left one) leaves it patrolling left; a
///   charge that hits both walls patrols right;
/// - with no wall hit, a patrol keeps its direction and a charge goes on.
pub proof fn lemma_boss_walls(s: BossState, e: BossEvents, elapsed_ms: u64)
    requires
        s is PatrolLeft || s is PatrolRight || s is Charge,
        !e.die,
        !e.hp_threshold,
    ensures
        (s is PatrolLeft || s is PatrolRight) && e.player_charge ==> boss_next(s, e, elapsed_ms) == BossState::Charge,
        !(e.player_charge && !(s is Charge)) && e.wall_left && !e.wall_right ==> boss_next(s, e, elapsed_ms)
            == BossState::PatrolRight,
        !(e.player_charge && !(s is Charge)) && e.wall_right && !e.wall_left ==> boss_next(s, e, elapsed_ms)
            == BossState::PatrolLeft,
        s is Charge && e.wall_left && e.wall_right ==> boss_next(s, e, elapsed_ms) == BossState::PatrolRight,
        !(e.player_charge && !(s is Charge)) && !e.wall_left && !e.wall_right ==> boss_next(s, e, elapsed_ms) == s,
{
}

/// The boss's timed phases: its entry lasts 5.5 s whatever it is told, a
/// tier transition ends after 2.5 s or when its animation reports the end
/// (it then patrols left), and its death shake lasts 4 s before it is
/// removed; a removed boss stays removed. Nothing else (charge, walls,
/// tiers) interrupts a transition, only death.
pub proof fn lemma_boss_timing(s: BossState, e: BossEvents, elapsed_ms: u64)
    ensures
        s is Entering ==> boss_next(s, e, elapsed_ms) == if elapsed_ms >= 5500 {
            BossState::PatrolLeft
        } else {
            BossState::Entering
        },
        s is Transitioning && !e.die ==> boss_next(s, e, elapsed_ms) == if e.transition_done || elapsed_ms >= 2500 {
            BossState::PatrolLeft
        } else {
            BossState::Transitioning
        },
        s is Dying ==> boss_next(s, e, elapsed_ms) == if elapsed_ms >= 4000 {
            BossState::Despawned
        } else {
            BossState::Dying
        },
        s is Despawned ==> boss_next(s, e, elapsed_ms) == BossState::Despawned,
        boss_alive(s) && !e.die && e.hp_threshold && !(s is Transitioning) ==> boss_next(s, e, elapsed_ms)
            == BossState::Transitioning,
{
}

/// The green UFO's entry, in ms.
pub const GREEN_UFO_ENTERING_MS: u64 = 1000;
/// Its pause between rushes, in ms.
pub const GREEN_UFO_IDLE_MS: u64 = 2000;
/// Its longest rush, in ms.
pub const GREEN_UFO_RUSH_MS: u64 = 1000;
/// Its death animation, in ms.
pub const GREEN_UFO_DYING_MS: u64 = 450;

/// States of the green UFO.
#[derive(Clone, Copy, Debug, PartialEq, Eq)]
pub enum GreenUfoState {
    Entering,
    Idle,
    Rush,
    Dying,
    Despawned,
}

/// Messages received by the green UFO on a frame.
#[derive(Clone, Copy, Debug, PartialEq, Eq)]
pub struct GreenUfoEvents {
    pub die: bool,
    pub entering_done: bool,
    pub rush_ready: bool,
    pub idle_ready: bool,
    /// Any of `wall_left`, `wall_right`, `wall_top`, `wall_bottom`.
    pub wall: bool,
}

/// Next state of the green UFO: idle 2 s, then a rush that ends on its
/// timer or on a wall, back to idle; `die` while alive leads to dying.
pub open spec fn green_ufo_next(s: GreenUfoState, e: GreenUfoEvents, elapsed_ms: u64) -> GreenUfoState {
    match s {
        GreenUfoState::Entering => if e.entering_done || elapsed_ms >= GREEN_UFO_ENTERING_MS {
            GreenUfoState::Idle
        } else {
            s
        },
        GreenUfoState::Idle => if e.die {
            GreenUfoState::Dying
        } else if e.rush_ready || elapsed_ms >= GREEN_UFO_IDLE_MS {
            GreenUfoState::Rush
        } else {
            s
        },
        GreenUfoState::Rush => if e.die {
            GreenUfoState::Dying
        } else if e.idle_ready || e.wall || elapsed_ms >= GREEN_UFO_RUSH_MS {
            GreenUfoState::Idle
        } else {
            s
        },
        GreenUfoState::Dying => if elapsed_ms >= GREEN_UFO_DYING_MS {
            GreenUfoState::Despawned
        } else {
            s
        },
        GreenUfoState::Despawned => s,
    }
}

/// One frame of the green UFO's behaviour.
pub fn green_ufo_step(s: GreenUfoState, e: GreenUfoEvents, elapsed_ms: u64) -> (n: GreenUfoState)
    ensures
        n == green_ufo_next(s, e, elapsed_ms),
{
    match s {
        GreenUfoState::Entering => if e.entering_done || elapsed_ms >= GREEN_UFO_ENTERING_MS {
            GreenUfoState::Idle
        } else {
            s
        },
        GreenUfoState::Idle => if e.die {
            GreenUfoState::Dying
        } else if e.rush_ready || elapsed_ms >= GREEN_UFO_IDLE_MS {
            GreenUfoState::Rush
        } else {
            s
        },
        GreenUfoState::Rush => if e.die {
            GreenUfoState::Dying
        } else if e.idle_ready || e.wall || elapsed_ms >= GREEN_UFO_RUSH_MS {
            GreenUfoState::Idle
        } else {
            s
        },
        GreenUfoState::Dying => if elapsed_ms >= GREEN_UFO_DYING_MS {
            GreenUfoState::Despawned
        } else {
            s
        },
        GreenUfoState::Despawned => s,
    }
}

/// The octopus's entry, in ms.
pub const OCTOPUS_ENTERING_MS: u64 = 1000;
/// The rush-sound phase before a swoop, in ms.
pub const OCTOPUS_PRE_SWOOP_MS: u64 = 600;
/// A swoop, in ms.
pub const OCTOPUS_SWOOP_MS: u64 = 1800;
/// The wind-up of a volley, in ms.
pub const OCTOPUS_WINDUP_MS: u64 = 600;
/// The release of a volley, in ms.
pub const OCTOPUS_FIRE_MS: u64 = 150;
/// The death animation, in ms.
pub const OCTOPUS_DYING_MS: u64 = 800;

/// States of the octopus.
#[derive(Clone, Copy, Debug, PartialEq, Eq)]
pub enum OctopusState {
    Entering,
    Telegraph,
    PreSwoop,
    Swoop,
    ShootWindup,
    ShootFire,
    Dying,
    Despawned,
}

/// Messages received by the octopus on a frame.
#[derive(Clone, Copy, Debug, PartialEq, Eq)]
pub struct OctopusEvents {
    pub die: bool,
    pub entering_done: bool,
    pub do_swoop: bool,
    pub do_shoot: bool,
    pub back_to_telegraph: bool,
}

/// Next state of the octopus: after its entry it telegraphs, then swoops
/// (0.6 s of rush sounds then 1.8 s of swoop) or shoots (0.6 s wind-up then
/// 0.15 s of fire), and comes back to the telegraph; `die` while alive
/// leads to 0.8 s of dying. It cannot die while entering.
pub open spec fn octopus_next(s: OctopusState, e: OctopusEvents, elapsed_ms: u64) -> OctopusState {
    match s {
        OctopusState::Entering => if e.entering_done || elapsed_ms >= OCTOPUS_ENTERING_MS {
            OctopusState::Telegraph
        } else {
            s
        },
        OctopusState::Dying => if elapsed_ms >= OCTOPUS_DYING_MS {
            OctopusState::Despawned
        } else {
            s
        },
        OctopusState::Despawned => s,
        _ => if e.die {
            OctopusState::Dying
        } else {
            match s {
                OctopusState::Telegraph => if e.do_swoop {
                    OctopusState::PreSwoop
                } else if e.do_shoot {
                    OctopusState::ShootWindup
                } else {
                    s
                },
                OctopusState::PreSwoop => if e.back_to_telegraph {
                    OctopusState::Telegraph
                } else if elapsed_ms >= OCTOPUS_PRE_SWOOP_MS {
                    OctopusState::Swoop
                } else {
                    s
                },
                OctopusState::Swoop => if e.back_to_telegraph || elapsed_ms >= OCTOPUS_SWOOP_MS {
                    OctopusState::Telegraph
                } else {
                    s
                },
                OctopusState::ShootWindup => if e.back_to_telegraph {
                    OctopusState::Telegraph
                } else if elapsed_ms >= OCTOPUS_WINDUP_MS {
                    OctopusState::ShootFire
                } else {
                    s
                },
                _ => if e.back_to_telegraph || elapsed_ms >= OCTOPUS_FIRE_MS {
                    OctopusState::Telegraph
                } else {
                    s
                },
            }
        },
    }
}

/// One frame of the octopus's behaviour.
pub fn octopus_step(s: OctopusState, e: OctopusEvents, elapsed_ms: u64) -> (n: OctopusState)
    ensures
        n == octopus_next(s, e, elapsed_ms),
{
    match s {
        OctopusState::Entering => if e.entering_done || elapsed_ms >= OCTOPUS_ENTERING_MS {
            OctopusState::Telegraph
        } else {
            s
        },
        OctopusState::Dying => if elapsed_ms >= OCTOPUS_DYING_MS {
            OctopusState::Despawned
        } else {
            s
        },
        OctopusState::Despawned => s,
        _ => if e.die {
            OctopusState::Dying
        } else {
            match s {
                OctopusState::Telegraph => if e.do_swoop {
                    OctopusState::PreSwoop
                } else if e.do_shoot {
                    OctopusState::ShootWindup
                } else {
                    s
                },
                OctopusState::PreSwoop => if e.back_to_telegraph {
                    OctopusState::Telegraph
                } else if elapsed_ms >= OCTOPUS_PRE_SWOOP_MS {
                    OctopusState::Swoop
                } else {
                    s
                },
                OctopusState::Swoop => if e.back_to_telegraph || elapsed_ms >= OCTOPUS_SWOOP_MS {
                    OctopusState::Telegraph
                } else {
                    s
                },
                OctopusState::ShootWindup => if e.back_to_telegraph {
                    OctopusState::Telegraph
                } else if elapsed_ms >= OCTOPUS_WINDUP_MS {
                    OctopusState::ShootFire
                } else {
                    s
                },
                _ => if e.back_to_telegraph || elapsed_ms >= OCTOPUS_FIRE_MS {
                    OctopusState::Telegraph
                } else {
                    s
                },
            }
        },
    }
}

/// The green UFO and the octopus never come back from dying, and neither
/// dies while entering.
pub proof fn lemma_death_is_final(
    g: GreenUfoState,
    ge: GreenUfoEvents,
    o: OctopusState,
    oe: OctopusEvents,
    elapsed_ms: u64,
)
    ensures
        (g is Dying || g is Despawned) ==> (green_ufo_next(g, ge, elapsed_ms) is Dying || green_ufo_next(g, ge, elapsed_ms) is Despawned),
        g is Entering ==> !(green_ufo_next(g, ge, elapsed_ms) is Dying),
        (o is Dying || o is Despawned) ==> (octopus_next(o, oe, elapsed_ms) is Dying || octopus_next(o, oe, elapsed_ms) is Despawned),
        o is Entering ==> !(octopus_next(o, oe, elapsed_ms) is Dying),
{
}

/// The green UFO's cycle: its entry lasts 1 s (or until it reports its
/// end) and cannot be interrupted by death; alive, `die` always leads to
/// dying; otherwise the idle lasts 2 s (or until `rush_ready`) before a
/// rush, and a rush lasts at most 1 s, ending early on `idle_ready` or on
/// any wall; the death animation lasts 0.45 s before removal.
pub proof fn lemma_green_ufo_cycle(s: GreenUfoState, e: GreenUfoEvents, elapsed_ms: u64)
    ensures
        s is Entering ==> green_ufo_next(s, e, elapsed_ms) == if e.entering_done || elapsed_ms >= 1000 {
            GreenUfoState::Idle
        } else {
            GreenUfoState::Entering
        },
        (s is Idle || s is Rush) && e.die ==> green_ufo_next(s, e, elapsed_ms) == GreenUfoState::Dying,
        s is Idle && !e.die ==> green_ufo_next(s, e, elapsed_ms) == if e.rush_ready || elapsed_ms >= 2000 {
            GreenUfoState::Rush
        } else {
            GreenUfoState::Idle
        },
        s is Rush && !e.die ==> green_ufo_next(s, e, elapsed_ms) == if e.idle_ready || e.wall || elapsed_ms >= 1000 {
            GreenUfoState::Idle
        } else {
            GreenUfoState::Rush
        },
        s is Dying ==> green_ufo_next(s, e, elapsed_ms) == if elapsed_ms >= 450 {
            GreenUfoState::Despawned
        } else {
            GreenUfoState::Dying
        },
        s is Despawned ==> green_ufo_next(s, e, elapsed_ms) == GreenUfoState::Despawned,
{
}

/// The octopus's cycle: its entry lasts 1 s (or until it reports its end)
/// and cannot be interrupted by death; alive, `die` always leads to dying.
/// Otherwise the telegraph waits for its choice (a swoop if `do_swoop`,
/// else a volley if `do_shoot`), whatever the time; a swoop is 0.6 s of
/// rush sounds then a swoop of at most 1.8 s; a volley is a 0.6 s wind-up
/// then at most 0.15 s of fire; `back_to_telegraph` ends any attack at
/// once. The death animation lasts 0.8 s before removal.
pub proof fn lemma_octopus_cycle(s: OctopusState, e: OctopusEvents, elapsed_ms: u64)
    ensures
        s is Entering ==> octopus_next(s, e, elapsed_ms) == if e.entering_done || elapsed_ms >= 1000 {
            OctopusState::Telegraph
        } else {
            OctopusState::Entering
        },
        !(s is Entering || s is Dying || s is Despawned) && e.die ==> octopus_next(s, e, elapsed_ms)
            == OctopusState::Dying,
        s is Telegraph && !e.die ==> octopus_next(s, e, elapsed_ms) == if e.do_swoop {
            OctopusState::PreSwoop
        } else if e.do_shoot {
            OctopusState::ShootWindup
        } else {
            OctopusState::Telegraph
        },
        (s is PreSwoop || s is Swoop || s is ShootWindup || s is ShootFire) && !e.die && e.back_to_telegraph
            ==> octopus_next(s, e, elapsed_ms) == OctopusState::Telegraph,
        s is PreSwoop && !e.die && !e.back_to_telegraph ==> octopus_next(s, e, elapsed_ms) == if elapsed_ms >= 600 {
            OctopusState::Swoop
        } else {
            OctopusState::PreSwoop
        },
        s is Swoop && !e.die && !e.back_to_telegraph ==> octopus_next(s, e, elapsed_ms) == if elapsed_ms >= 1800 {
            OctopusState::Telegraph
        } else {
            OctopusState::Swoop
        },
        s is ShootWindup && !e.die && !e.back_to_telegraph ==> octopus_next(s, e, elapsed_ms) == if elapsed_ms
            >= 600 {
            OctopusState::ShootFire
        } else {
            OctopusState::ShootWindup
        },
        s is ShootFire && !e.die && !e.back_to_telegraph ==> octopus_next(s, e, elapsed_ms) == if elapsed_ms >= 150 {
            OctopusState::Telegraph
        } else {
            OctopusState::ShootFire
        },
        s is Dying ==> octopus_next(s, e, elapsed_ms) == if elapsed_ms >= 800 {
            OctopusState::Despawned
        } else {
            OctopusState::Dying
        },
        s is Despawned ==> octopus_next(s, e, elapsed_ms) == OctopusState::Despawned,
{
}

/// Whether an enemy has already been reported dead.
#[derive(Clone, Copy, Debug, PartialEq, Eq)]
pub struct DeathMark {
    pub dying: bool,
}

/// Whether the enemy is marked dying, and how many "die" messages `check`
/// sent, after the frames `dead` (whether its health is exhausted on each
/// frame), starting from the mark `dying` and no message.
pub open spec fn death_run(dying: bool, dead: Seq<bool>) -> (bool, int)
    decreases dead.len(),
{
    if dead.len() == 0 {
        (dying, 0)
    } else {
        let (marked, sent) = death_run(dying, dead.drop_last());
        let fires = dead.last() && !marked;
        (marked || dead.last(), sent + if fires {
            1int
        } else {
            0
        })
    }
}

impl DeathMark {
    /// An enemy not yet reported dead.
    pub fn new() -> (m: Self)
        ensures
            !m.dying,
    {
        DeathMark { dying: false }
    }

    /// One frame of death detection: an enemy whose health is exhausted and
    /// that was not reported yet is marked dying, and `true` is returned: a
    /// "die" message, its drop and its death event are to be sent.
    pub fn check(&mut self, dead: bool) -> (fires: bool)
        ensures
            fires == (dead && !old(self).dying),
            final(self).dying == (old(self).dying || dead),
    {
        if dead && !self.dying {
            self.dying = true;
            true
        } else {
            false
        }
    }
}

/// Over any sequence of frames, an enemy is reported dead at most once:
/// exactly once if its health ran out on some frame (it is then marked
/// dying), never otherwise.
pub proof fn lemma_die_once(dead: Seq<bool>)
    ensures
        death_run(false, dead).0 == dead.contains(true),
        death_run(false, dead).1 == if dead.contains(true) {
            1int
        } else {
            0
        },
    decreases dead.len(),
{
    if dead.len() > 0 {
        let prev = dead.drop_last();
        lemma_die_once(prev);
        if prev.contains(true) {
            let i = choose|i: int| 0 <= i < prev.len() && prev[i] == true;
            assert(dead[i] == true);
        }
        if dead.last() {
            assert(dead[dead.len() - 1] == true);
        }
        if dead.contains(true) && !prev.contains(true) {
            let i = choose|i: int| 0 <= i < dead.len() && dead[i] == true;
            if i < dead.len() - 1 {
                assert(prev[i] == true);
            }
        }
    }
}

} // verus!

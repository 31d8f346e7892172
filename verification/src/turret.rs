//! Gatling turrets: the cycle of firing patterns and the frame-driven shot.
use vstd::prelude::*;
use crate::rng::same_name;

verus! {

/// Firing mode named by a turret pattern.
#[derive(Clone, Copy, Debug, PartialEq, Eq)]
pub enum GatlingMode {
    /// "aim_and_shoot": aim at the player and fire one shot.
    AimAndShoot,
    /// "full_auto": sweep and fire continuously.
    FullAuto,
    /// "idle": stop firing.
    Idle,
    /// Any other name: nothing changes.
    Unknown,
}

/// Mode of a pattern name.
pub fn gatling_mode(name: &str) -> (m: GatlingMode)
    ensures
        m == if name@ == "aim_and_shoot"@ {
            GatlingMode::AimAndShoot
        } else if name@ == "full_auto"@ {
            GatlingMode::FullAuto
        } else if name@ == "idle"@ {
            GatlingMode::Idle
        } else {
            GatlingMode::Unknown
        },
{
    if same_name(name, "aim_and_shoot") {
        GatlingMode::AimAndShoot
    } else if same_name(name, "full_auto") {
        GatlingMode::FullAuto
    } else if same_name(name, "idle") {
        GatlingMode::Idle
    } else {
        GatlingMode::Unknown
    }
}

/// Position of a turret in its cycle of patterns (counts every pattern
/// started so far; the pattern used is this count modulo the number of
/// patterns).
#[derive(Clone, Copy, Debug, PartialEq, Eq)]
pub struct PatternCursor {
    pub started: usize,
}

impl PatternCursor {
    /// The pattern timer ran out on a cycle of `pattern_count` patterns:
    /// starts the pattern at the cursor and returns `(index of the pattern
    /// started, index of the one after it)`; the second gives the duration
    /// of the new pattern timer. The cursor moves by one.
    pub fn start_next(&mut self, pattern_count: usize) -> (r: (usize, usize))
        requires
            pattern_count > 0,
            old(self).started < usize::MAX,
        ensures
            final(self).started == old(self).started + 1,
            r.0 == (old(self).started as int) % (pattern_count as int),
            r.1 == (old(self).started + 1) % (pattern_count as int),
            r.0 < pattern_count && r.1 < pattern_count,
    {
        let current = self.started % pattern_count;
        self.started = self.started + 1;
        let next = self.started % pattern_count;
        (current, next)
    }
}

/// State of an enemy in the phase framework: arriving, active in phase `k`,
/// dying, or dead.
#[derive(Clone, Copy, Debug, PartialEq, Eq)]
pub enum EnemyState {
    Entering,
    Active(usize),
    Dying,
    Dead,
}

/// A firing pattern and how long it lasts (ms).
#[derive(Clone, Copy, Debug, PartialEq, Eq)]
pub struct PatternDef {
    pub name: &'static str,
    pub duration_ms: u64,
}

/// Only an active gatling runs its pattern cycle (its pattern timer runs
/// only then).
pub open spec fn cycles_patterns_spec(state: EnemyState) -> bool {
    state is Active
}

/// Does a gatling in `state` run its pattern cycle?
pub fn cycles_patterns(state: EnemyState) -> (r: bool)
    ensures
        r == cycles_patterns_spec(state),
        r == (state is Active),
{
    match state {
        EnemyState::Active(_) => true,
        _ => false,
    }
}

/// The pattern list a gatling cycles through: none unless it is active;
/// its override list if it has one; otherwise the patterns of its current
/// phase.
pub open spec fn active_patterns(
    state: EnemyState,
    override_patterns: Option<Seq<PatternDef>>,
    phases: Seq<Seq<PatternDef>>,
) -> Option<Seq<PatternDef>> {
    match state {
        EnemyState::Active(k) => match override_patterns {
            Some(ps) => Some(ps),
            None => Some(phases[k as int]),
        },
        _ => None,
    }
}

/// Mode of a pattern name, as `gatling_mode` computes it.
pub open spec fn mode_of(name: Seq<char>) -> GatlingMode {
    if name == "aim_and_shoot"@ {
        GatlingMode::AimAndShoot
    } else if name == "full_auto"@ {
        GatlingMode::FullAuto
    } else if name == "idle"@ {
        GatlingMode::Idle
    } else {
        GatlingMode::Unknown
    }
}

/// A pattern started by the cycle.
#[derive(Clone, Copy, Debug, PartialEq, Eq)]
pub struct PatternStart {
    /// Position of the pattern in its list.
    pub index: usize,
    /// The pattern started.
    pub pattern: PatternDef,
    /// Its firing mode.
    pub mode: GatlingMode,
    /// Length of the next pattern timer: that of the pattern after it.
    pub next_duration_ms: u64,
}

/// What the pattern cycle of a gatling does on a frame where its pattern
/// timer finished (`timer_finished`).
pub open spec fn pattern_start_spec(
    started: int,
    timer_finished: bool,
    ps: Option<Seq<PatternDef>>,
) -> Option<PatternStart> {
    match ps {
        Some(ps) => if timer_finished && ps.len() > 0 {
            let i = started % (ps.len() as int);
            Some(PatternStart {
                index: i as usize,
                pattern: ps[i],
                mode: mode_of(ps[i].name@),
                next_duration_ms: ps[(started + 1) % (ps.len() as int)].duration_ms,
            })
        } else {
            None
        },
        None => None,
    }
}

/// One frame of the pattern cycle of a gatling in `state`: nothing unless
/// it is active and its timer just finished; then the next pattern of its
/// list (the override list if it has one, else its current phase's) starts,
/// in cycle order, and the cursor moves by one. An empty list does nothing.
pub fn gatling_pattern_step(
    state: EnemyState,
    timer_finished: bool,
    override_patterns: &Option<Vec<PatternDef>>,
    phases: &Vec<Vec<PatternDef>>,
    cursor: &mut PatternCursor,
) -> (r: Option<PatternStart>)
    requires
        old(cursor).started < usize::MAX,
        state matches EnemyState::Active(k) ==> (override_patterns is None ==> k < phases@.len()),
    ensures
        r == pattern_start_spec(
            old(cursor).started as int,
            timer_finished,
            active_patterns(
                state,
                match override_patterns {
                    Some(v) => Some(v@),
                    None => None,
                },
                phases@.map_values(|v: Vec<PatternDef>| v@),
            ),
        ),
        final(cursor).started == if r is Some { old(cursor).started + 1 } else { old(cursor).started as int },
        // Only an active gatling whose timer just finished starts a pattern.
        !(state is Active) || !timer_finished ==> r is None,
        // With no list of its own, an active gatling in phase `k` cycles
        // through the patterns of phase `k`.
        state matches EnemyState::Active(k) ==> (override_patterns is None && timer_finished
            && phases@[k as int]@.len() > 0 ==> ({
            let ps = phases@[k as int]@;
            let i = (old(cursor).started as int) % (ps.len() as int);
            &&& r is Some
            &&& r->0.index == i
            &&& r->0.pattern == ps[i]
            &&& r->0.next_duration_ms == ps[(old(cursor).started + 1) % (ps.len() as int)].duration_ms
        })),
        // A gatling with its own list cycles through that list, whatever
        // its phase.
        state is Active && timer_finished ==> match override_patterns {
            Some(v) => v@.len() > 0 ==> ({
                let i = (old(cursor).started as int) % (v@.len() as int);
                &&& r is Some
                &&& r->0.index == i
                &&& r->0.pattern == v@[i]
                &&& r->0.next_duration_ms == v@[(old(cursor).started + 1) % (v@.len() as int)].duration_ms
            }),
            None => true,
        },
        // An empty list starts nothing.
        state matches EnemyState::Active(k) ==> (match override_patterns {
            Some(v) => v@.len() == 0,
            None => phases@[k as int]@.len() == 0,
        } ==> r is None),
{
    let k = match state {
        EnemyState::Active(k) => k,
        _ => return None,
    };
    if !timer_finished {
        return None;
    }
    let ps: &Vec<PatternDef> = match override_patterns {
        Some(v) => v,
        None => &phases[k],
    };
    proof {
        if override_patterns is None {
            assert(phases@.map_values(|v: Vec<PatternDef>| v@)[k as int] == phases@[k as int]@);
        }
    }
    let n = ps.len();
    if n == 0 {
        return None;
    }
    let (i, next) = cursor.start_next(n);
    let p = ps[i];
    Some(PatternStart { index: i, pattern: p, mode: gatling_mode(p.name), next_duration_ms: ps[next].duration_ms })
}

/// The pattern cycle of a gatling, for a cursor that has started
/// `started` patterns: nothing starts unless the gatling is active and its
/// timer just finished; an active gatling uses its own list when it has
/// one, else the list of its current phase `k`; it starts the pattern at
/// position `started mod n` of that list (`n` its length), and the next
/// timer lasts as long as the pattern after it; an empty list starts
/// nothing.
pub proof fn lemma_gatling_cycle(
    state: EnemyState,
    timer_finished: bool,
    own: Option<Seq<PatternDef>>,
    phases: Seq<Seq<PatternDef>>,
    started: nat,
)
    ensures
        !(state is Active) || !timer_finished ==> pattern_start_spec(
            started as int,
            timer_finished,
            active_patterns(state, own, phases),
        ) is None,
        state matches EnemyState::Active(k) ==> ({
            let ps = match own {
                Some(v) => v,
                None => phases[k as int],
            };
            let r = pattern_start_spec(started as int, timer_finished, active_patterns(state, own, phases));
            let n = ps.len() as int;
            let i = (started as int) % n;
            &&& timer_finished && n > 0 ==> r == Some(
                PatternStart {
                    index: i as usize,
                    pattern: ps[i],
                    mode: mode_of(ps[i].name@),
                    next_duration_ms: ps[(started as int + 1) % n].duration_ms,
                },
            )
            &&& ps.len() == 0 ==> r is None
        }),
{
}

/// A static-sprite gatling (no shot animation) fires once per "aim and
/// shoot" pattern: when 70 % of the pattern has elapsed, and only while the
/// player is locked in its cone. `fired` records that the shot left.
pub fn static_shot_tick(fired: &mut bool, elapsed_ms: u64, duration_ms: u64, player_locked: bool) -> (fire: bool)
    ensures
        fire == (!*old(fired) && 10 * (elapsed_ms as int) >= 7 * (duration_ms as int) && player_locked),
        *final(fired) == (*old(fired) || fire),
{
    let due = (elapsed_ms as u128) * 10 >= (duration_ms as u128) * 7;
    if !*fired && due && player_locked {
        *fired = true;
        true
    } else {
        false
    }
}

/// What one tick of the shot animation does.
#[derive(Clone, Copy, Debug, PartialEq, Eq)]
pub struct ShotTick {
    /// Frame to display, if any.
    pub show_frame: Option<usize>,
    /// Fire the projectile now.
    pub fire: bool,
    /// Back to the resting frame (the animation is over).
    pub rest: bool,
}

/// Shot animation of an animated turret: the projectile leaves at the
/// middle frame, once per pattern.
#[derive(Clone, Copy, Debug, PartialEq, Eq)]
pub struct ShotAnim {
    pub current_frame: usize,
    pub fired: bool,
}

/// One frame of the shot animation: the next state and what the frame does.
pub open spec fn shot_step(a: ShotAnim, frame_elapsed: bool, frame_count: usize) -> (ShotAnim, ShotTick) {
    let frame = if frame_elapsed {
        (a.current_frame + 1) as usize
    } else {
        a.current_frame
    };
    let fire = !a.fired && frame >= frame_count / 2;
    (
        ShotAnim { current_frame: frame, fired: a.fired || fire },
        ShotTick {
            show_frame: if frame_elapsed && frame < frame_count {
                Some(frame)
            } else {
                None
            },
            fire,
            rest: frame >= frame_count,
        },
    )
}

/// Projectiles fired over the frames `elapsed` (each telling whether the
/// frame timer fired), starting from `a`.
pub open spec fn shots_in_run(a: ShotAnim, elapsed: Seq<bool>, frame_count: usize) -> int
    decreases elapsed.len(),
{
    if elapsed.len() == 0 {
        0
    } else {
        let (b, t) = shot_step(a, elapsed[0], frame_count);
        (if t.fire {
            1int
        } else {
            0int
        }) + shots_in_run(b, elapsed.drop_first(), frame_count)
    }
}

/// A shot animation fires at most one projectile, however many frames it
/// runs, and none once it has fired.
pub proof fn lemma_one_shot_per_pattern(a: ShotAnim, elapsed: Seq<bool>, frame_count: usize)
    ensures
        0 <= shots_in_run(a, elapsed, frame_count) <= 1,
        a.fired ==> shots_in_run(a, elapsed, frame_count) == 0,
    decreases elapsed.len(),
{
    if elapsed.len() > 0 {
        let (b, t) = shot_step(a, elapsed[0], frame_count);
        lemma_one_shot_per_pattern(b, elapsed.drop_first(), frame_count);
    }
}

/// The patterns repeat in a cycle: after `pattern_count` more patterns the
/// turret is back on the same one.
pub proof fn lemma_patterns_cycle(started: int, pattern_count: int)
    requires
        started >= 0,
        pattern_count > 0,
    ensures
        (started + pattern_count) % pattern_count == started % pattern_count,
{
    vstd::arithmetic::div_mod::lemma_mod_add_multiples_vanish(started, pattern_count);
}

impl ShotAnim {
    /// Animation not started, nothing fired.
    pub fn new() -> (a: Self)
        ensures
            a.current_frame == 0,
            !a.fired,
    {
        ShotAnim { current_frame: 0, fired: false }
    }

    /// One frame of the running shot animation of `frame_count` frames;
    /// `frame_elapsed` tells whether the frame timer fired. The frame
    /// advances on the timer and is shown while it exists; the shot leaves
    /// the first time the frame reaches the middle one; past the last
    /// frame the turret goes back to its resting frame.
    pub fn tick(&mut self, frame_elapsed: bool, frame_count: usize) -> (t: ShotTick)
        requires
            old(self).current_frame < usize::MAX,
        ensures
            final(self).current_frame == if frame_elapsed {
                old(self).current_frame + 1
            } else {
                old(self).current_frame as int
            },
            t.show_frame == if frame_elapsed && final(self).current_frame < frame_count {
                Some(final(self).current_frame)
            } else {
                None::<usize>
            },
            t.fire == (!old(self).fired && final(self).current_frame >= frame_count / 2),
            final(self).fired == (old(self).fired || t.fire),
            t.rest == (final(self).current_frame >= frame_count),
            (*final(self), t) == shot_step(*old(self), frame_elapsed, frame_count),
    {
        let mut show_frame: Option<usize> = None;
        if frame_elapsed {
            self.current_frame = self.current_frame + 1;
            if self.current_frame < frame_count {
                show_frame = Some(self.current_frame);
            }
        }
        let fire_frame = frame_count / 2;
        let mut fire = false;
        if !self.fired && self.current_frame >= fire_frame {
            self.fired = true;
            fire = true;
        }
        ShotTick { show_frame, fire, rest: self.current_frame >= frame_count }
    }
}

} // verus!

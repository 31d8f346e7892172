//! Data-driven enemies: a graph of phases joined by prioritised
//! transitions, and the boss defined in it.
//!
//! Each frame, the transitions of the current phase are tried by
//! decreasing priority (list order among equals) and the first whose
//! trigger holds is taken. Timers count the time spent in the phase (ms),
//! health thresholds are in per-mille of the maximum health.
use vstd::prelude::*;
use crate::phases::{is_chosen_transition, select_transition};
use crate::rng::same_name;

verus! {

/// What makes a transition fire.
#[derive(Clone, Copy, Debug, PartialEq, Eq)]
pub enum TriggerKind {
    /// The phase has lasted this long (ms).
    Timer(u64),
    /// Health fraction strictly below this many per-mille.
    HealthBelow(u32),
    /// Health fraction strictly above this many per-mille.
    HealthAbove(u32),
    /// This message was received this frame.
    Event(&'static str),
}

/// A transition towards phase `target` (its index in the graph).
#[derive(Clone, Copy, Debug, PartialEq, Eq)]
pub struct TransitionDef {
    pub trigger: TriggerKind,
    pub target: usize,
    pub priority: i32,
}

/// A phase and the ways out of it.
#[derive(Debug)]
pub struct PhaseDef {
    pub id: &'static str,
    pub transitions: Vec<TransitionDef>,
}

/// An enemy's name, its phases and the one it starts in.
#[derive(Debug)]
pub struct PhaseGraph {
    pub name: &'static str,
    pub initial: usize,
    pub phases: Vec<PhaseDef>,
}

/// A phase as a plain value: its id and its transitions.
pub open spec fn phase_view(p: PhaseDef) -> (&'static str, Seq<TransitionDef>) {
    (p.id, p.transitions@)
}

/// The graph's phases as plain values.
pub open spec fn graph_view(g: PhaseGraph) -> Seq<(&'static str, Seq<TransitionDef>)> {
    g.phases@.map_values(|p: PhaseDef| phase_view(p))
}

/// Does `trigger` hold after `elapsed_ms` in the phase, with health
/// `health` (current, maximum) if the enemy has health, and the messages
/// `events` of the frame? A health threshold needs a positive maximum.
pub open spec fn trigger_fires(
    trigger: TriggerKind,
    elapsed_ms: u64,
    health: Option<(i32, i32)>,
    events: Seq<Seq<char>>,
) -> bool {
    match trigger {
        TriggerKind::Timer(d) => elapsed_ms >= d,
        TriggerKind::HealthBelow(p) => match health {
            Some((hp, max)) => max > 0 && (hp as int) * 1000 < (p as int) * (max as int),
            None => false,
        },
        TriggerKind::HealthAbove(p) => match health {
            Some((hp, max)) => max > 0 && (hp as int) * 1000 > (p as int) * (max as int),
            None => false,
        },
        TriggerKind::Event(name) => events.contains(name@),
    }
}

/// What each trigger means: a timer fires once the phase has lasted its
/// time; a health threshold of `p` per-mille fires while the health is
/// strictly below (or above) `p / 1000` of a positive maximum, and keeps
/// firing as health falls further (or rises further); without a health or
/// a positive maximum no health threshold fires; an event fires when the
/// frame's messages hold its name.
pub proof fn lemma_trigger_meaning(
    trigger: TriggerKind,
    elapsed_ms: u64,
    hp: i32,
    lower_hp: i32,
    max: i32,
    events: Seq<Seq<char>>,
)
    requires
        lower_hp <= hp,
    ensures
        trigger matches TriggerKind::Timer(d) ==> (trigger_fires(trigger, elapsed_ms, None, events)
            <==> elapsed_ms >= d),
        !(trigger is Timer) && !(trigger is Event) ==> !trigger_fires(trigger, elapsed_ms, None, events),
        !(trigger is Timer) && !(trigger is Event) && max <= 0 ==> !trigger_fires(
            trigger,
            elapsed_ms,
            Some((hp, max)),
            events,
        ),
        trigger matches TriggerKind::HealthBelow(p) ==> (max > 0 ==> (trigger_fires(
            trigger,
            elapsed_ms,
            Some((hp, max)),
            events,
        ) <==> (hp as int) * 1000 < (p as int) * (max as int))),
        trigger matches TriggerKind::HealthBelow(p) ==> (trigger_fires(trigger, elapsed_ms, Some((hp, max)), events)
            ==> trigger_fires(trigger, elapsed_ms, Some((lower_hp, max)), events)),
        trigger matches TriggerKind::HealthAbove(p) ==> (max > 0 ==> (trigger_fires(
            trigger,
            elapsed_ms,
            Some((hp, max)),
            events,
        ) <==> (hp as int) * 1000 > (p as int) * (max as int))),
        trigger matches TriggerKind::HealthAbove(p) ==> (trigger_fires(
            trigger,
            elapsed_ms,
            Some((lower_hp, max)),
            events,
        ) ==> trigger_fires(trigger, elapsed_ms, Some((hp, max)), events)),
        trigger matches TriggerKind::Event(name) ==> (trigger_fires(trigger, elapsed_ms, None, events) <==> exists|
            i: int,
        | 0 <= i < events.len() && events[i] == name@),
{
    assert((lower_hp as int) * 1000 <= (hp as int) * 1000);
}

/// Which transitions of `ts` fire.
pub open spec fn fired_of(
    ts: Seq<TransitionDef>,
    elapsed_ms: u64,
    health: Option<(i32, i32)>,
    events: Seq<Seq<char>>,
) -> Seq<bool> {
    Seq::new(ts.len(), |i: int| trigger_fires(ts[i].trigger, elapsed_ms, health, events))
}

/// The priorities of `ts`.
pub open spec fn priorities_of(ts: Seq<TransitionDef>) -> Seq<i32> {
    Seq::new(ts.len(), |i: int| ts[i].priority)
}

fn scaled(p: u32, max: i32) -> (r: i128)
    ensures
        r == (p as int) * (max as int),
{
    let a: i128 = p as i128;
    let b: i128 = max as i128;
    assert(-0x1_0000_0000_0000_0000 < a * b < 0x1_0000_0000_0000_0000) by (nonlinear_arith)
        requires
            0 <= a < 0x1_0000_0000,
            -0x1_0000_0000 < b < 0x1_0000_0000,
    ;
    a * b
}

fn trigger_holds(trigger: TriggerKind, elapsed_ms: u64, health: Option<(i32, i32)>, events: &[&str]) -> (r: bool)
    ensures
        r == trigger_fires(trigger, elapsed_ms, health, events@.map_values(|s: &str| s@)),
{
    match trigger {
        TriggerKind::Timer(d) => elapsed_ms >= d,
        TriggerKind::HealthBelow(p) => match health {
            Some((hp, max)) => max > 0 && (hp as i128) * 1000 < scaled(p, max),
            None => false,
        },
        TriggerKind::HealthAbove(p) => match health {
            Some((hp, max)) => max > 0 && (hp as i128) * 1000 > scaled(p, max),
            None => false,
        },
        TriggerKind::Event(name) => {
            let ghost evs = events@.map_values(|s: &str| s@);
            let mut i: usize = 0;
            while i < events.len()
                invariant
                    i <= events@.len(),
                    evs == events@.map_values(|s: &str| s@),
                    trigger == TriggerKind::Event(name),
                    forall|j: int| 0 <= j < i ==> evs[j] != name@,
                decreases events.len() - i,
            {
                if same_name(events[i], name) {
                    assert(evs[i as int] == name@);
                    assert(evs.contains(name@));
                    return true;
                }
                i = i + 1;
            }
            assert(!evs.contains(name@));
            false
        },
    }
}

/// One frame of a data-driven enemy in phase `current`: the target of the
/// transition taken (the highest priority among those whose trigger holds,
/// the first in list order among equals), or `None` when none holds. A
/// phase that is not in the graph has no way out.
pub fn phase_step(
    g: &PhaseGraph,
    current: usize,
    elapsed_ms: u64,
    health: Option<(i32, i32)>,
    events: &[&str],
) -> (r: Option<usize>)
    ensures
        current >= g.phases@.len() ==> r is None,
        current < g.phases@.len() ==> ({
            let ts = g.phases@[current as int].transitions@;
            let fired = fired_of(ts, elapsed_ms, health, events@.map_values(|s: &str| s@));
            &&& r is None <==> forall|j: int| 0 <= j < ts.len() ==> !fired[j]
            &&& r matches Some(t) ==> exists|i: int|
                is_chosen_transition(priorities_of(ts), fired, i) && ts[i].target == t
        }),
{
    if current >= g.phases.len() {
        return None;
    }
    let ts = &g.phases[current].transitions;
    let ghost evs = events@.map_values(|s: &str| s@);
    let mut prios: Vec<i32> = Vec::new();
    let mut fired: Vec<bool> = Vec::new();
    let mut i: usize = 0;
    while i < ts.len()
        invariant
            i <= ts@.len(),
            ts@ == g.phases@[current as int].transitions@,
            evs == events@.map_values(|s: &str| s@),
            prios@ == priorities_of(ts@).take(i as int),
            fired@ == fired_of(ts@, elapsed_ms, health, evs).take(i as int),
        decreases ts.len() - i,
    {
        let t = ts[i];
        prios.push(t.priority);
        let f = trigger_holds(t.trigger, elapsed_ms, health, events);
        fired.push(f);
        assert(prios@ =~= priorities_of(ts@).take(i + 1));
        assert(fired@ =~= fired_of(ts@, elapsed_ms, health, evs).take(i + 1));
        i = i + 1;
    }
    assert(prios@ =~= priorities_of(ts@));
    assert(fired@ =~= fired_of(ts@, elapsed_ms, health, evs));
    match select_transition(prios.as_slice(), fired.as_slice()) {
        Some(k) => Some(ts[k].target),
        None => None,
    }
}

/// Builds a transition.
pub open spec fn tr(trigger: TriggerKind, target: usize, priority: i32) -> TransitionDef {
    TransitionDef { trigger, target, priority }
}

/// The boss: a 7 s entry, three active phases separated by 2 s tier
/// transitions (entered below 66 % then 33 % of its health), death below
/// 0 %, 4 s of dying, then dead.
pub open spec fn boss_graph_spec() -> Seq<(&'static str, Seq<TransitionDef>)> {
    seq![
        ("entering", seq![tr(TriggerKind::Timer(7000), 1, 0)]),
        ("active_1", seq![tr(TriggerKind::HealthBelow(660), 2, 10)]),
        ("transitioning_1", seq![tr(TriggerKind::Timer(2000), 3, 0)]),
        ("active_2", seq![tr(TriggerKind::HealthBelow(330), 4, 10)]),
        ("transitioning_2", seq![tr(TriggerKind::Timer(2000), 5, 0)]),
        ("active_3", seq![tr(TriggerKind::HealthBelow(0), 6, 10)]),
        ("dying", seq![tr(TriggerKind::Timer(4000), 7, 0)]),
        ("dead", Seq::<TransitionDef>::empty()),
    ]
}

fn phase(id: &'static str, ts: Vec<TransitionDef>) -> (p: PhaseDef)
    ensures
        phase_view(p) == (id, ts@),
{
    PhaseDef { id, transitions: ts }
}

/// The boss's phase graph, named "Boss", starting in `entering`.
pub fn boss_definition() -> (d: PhaseGraph)
    ensures
        d.name == "Boss",
        d.initial == 0,
        graph_view(d) == boss_graph_spec(),
{
    let mut phases: Vec<PhaseDef> = Vec::new();
    phases.push(phase("entering", vec![TransitionDef { trigger: TriggerKind::Timer(7000), target: 1, priority: 0 }]));
    phases.push(phase("active_1", vec![TransitionDef { trigger: TriggerKind::HealthBelow(660), target: 2, priority: 10 }]));
    phases.push(phase("transitioning_1", vec![TransitionDef { trigger: TriggerKind::Timer(2000), target: 3, priority: 0 }]));
    phases.push(phase("active_2", vec![TransitionDef { trigger: TriggerKind::HealthBelow(330), target: 4, priority: 10 }]));
    phases.push(phase("transitioning_2", vec![TransitionDef { trigger: TriggerKind::Timer(2000), target: 5, priority: 0 }]));
    phases.push(phase("active_3", vec![TransitionDef { trigger: TriggerKind::HealthBelow(0), target: 6, priority: 10 }]));
    phases.push(phase("dying", vec![TransitionDef { trigger: TriggerKind::Timer(4000), target: 7, priority: 0 }]));
    phases.push(phase("dead", Vec::new()));
    let d = PhaseGraph { name: "Boss", initial: 0, phases };
    assert(graph_view(d).len() == 8);
    assert forall|i: int| 0 <= i < 8 implies #[trigger] graph_view(d)[i] == boss_graph_spec()[i] by {
        assert(graph_view(d)[i] == phase_view(d.phases@[i]));
    }
    assert(graph_view(d) =~= boss_graph_spec());
    d
}

/// A graph from phases built one by one.
fn graph_of(name: &'static str, initial: usize, phases: Vec<PhaseDef>) -> (d: PhaseGraph)
    ensures
        d.name == name,
        d.initial == initial,
        d.phases@ == phases@,
{
    PhaseGraph { name, initial, phases }
}

/// The green UFO: a 1.5 s rush, then 1 s idle, and again.
pub open spec fn green_ufo_graph_spec() -> Seq<(&'static str, Seq<TransitionDef>)> {
    seq![
        ("rush", seq![tr(TriggerKind::Timer(1500), 1, 0)]),
        ("idle", seq![tr(TriggerKind::Timer(1000), 0, 0)]),
    ]
}

/// The green UFO's phase graph, named "GreenUFO", starting with a rush.
pub fn green_ufo_definition() -> (d: PhaseGraph)
    ensures
        d.name == "GreenUFO",
        d.initial == 0,
        graph_view(d) == green_ufo_graph_spec(),
{
    let mut phases: Vec<PhaseDef> = Vec::new();
    phases.push(phase("rush", vec![TransitionDef { trigger: TriggerKind::Timer(1500), target: 1, priority: 0 }]));
    phases.push(phase("idle", vec![TransitionDef { trigger: TriggerKind::Timer(1000), target: 0, priority: 0 }]));
    let d = graph_of("GreenUFO", 0, phases);
    assert forall|i: int| 0 <= i < 2 implies #[trigger] graph_view(d)[i] == green_ufo_graph_spec()[i] by {
        assert(graph_view(d)[i] == phase_view(d.phases@[i]));
    }
    assert(graph_view(d) =~= green_ufo_graph_spec());
    d
}

/// The mothership: a 3.5 s entry, its first phase until every gatling is
/// dead, its second until every heart is dead, 4 s of dying, then dead.
pub open spec fn mothership_graph_spec() -> Seq<(&'static str, Seq<TransitionDef>)> {
    seq![
        ("entering", seq![tr(TriggerKind::Timer(3500), 1, 0)]),
        ("phase_1", seq![tr(TriggerKind::Event("all_gatlings_dead"), 2, 10)]),
        ("phase_2", seq![tr(TriggerKind::Event("all_hearts_dead"), 3, 10)]),
        ("dying", seq![tr(TriggerKind::Timer(4000), 4, 0)]),
        ("dead", Seq::<TransitionDef>::empty()),
    ]
}

/// The mothership's phase graph, named "Mothership", starting in
/// `entering`.
pub fn mothership_definition() -> (d: PhaseGraph)
    ensures
        d.name == "Mothership",
        d.initial == 0,
        graph_view(d) == mothership_graph_spec(),
{
    let mut phases: Vec<PhaseDef> = Vec::new();
    phases.push(phase("entering", vec![TransitionDef { trigger: TriggerKind::Timer(3500), target: 1, priority: 0 }]));
    phases.push(
        phase(
            "phase_1",
            vec![TransitionDef { trigger: TriggerKind::Event("all_gatlings_dead"), target: 2, priority: 10 }],
        ),
    );
    phases.push(
        phase("phase_2", vec![TransitionDef { trigger: TriggerKind::Event("all_hearts_dead"), target: 3, priority: 10 }]),
    );
    phases.push(phase("dying", vec![TransitionDef { trigger: TriggerKind::Timer(4000), target: 4, priority: 0 }]));
    phases.push(phase("dead", Vec::new()));
    let d = graph_of("Mothership", 0, phases);
    assert forall|i: int| 0 <= i < 5 implies #[trigger] graph_view(d)[i] == mothership_graph_spec()[i] by {
        assert(graph_view(d)[i] == phase_view(d.phases@[i]));
    }
    assert(graph_view(d) =~= mothership_graph_spec());
    d
}

/// A single phase `id` with no way out.
pub open spec fn single_phase_spec(id: &'static str) -> Seq<(&'static str, Seq<TransitionDef>)> {
    seq![(id, Seq::<TransitionDef>::empty())]
}

fn single_phase(name: &'static str, id: &'static str) -> (d: PhaseGraph)
    ensures
        d.name == name,
        d.initial == 0,
        graph_view(d) == single_phase_spec(id),
{
    let mut phases: Vec<PhaseDef> = Vec::new();
    phases.push(phase(id, Vec::new()));
    let d = graph_of(name, 0, phases);
    assert(graph_view(d)[0] == phase_view(d.phases@[0]));
    assert(graph_view(d) =~= single_phase_spec(id));
    d
}

/// A mothership heart, named "MothershipHeart": idle until it is
/// destroyed.
pub fn mothership_heart_definition() -> (d: PhaseGraph)
    ensures
        d.name == "MothershipHeart",
        d.initial == 0,
        graph_view(d) == single_phase_spec("idle"),
{
    single_phase("MothershipHeart", "idle")
}

/// An asteroid, named "Asteroid": falling until it leaves the screen or
/// is destroyed.
pub fn asteroid_definition() -> (d: PhaseGraph)
    ensures
        d.name == "Asteroid",
        d.initial == 0,
        graph_view(d) == single_phase_spec("falling"),
{
    single_phase("Asteroid", "falling")
}

/// A 3.5 s entry, then phase `active` for good.
pub open spec fn gatling_graph_spec(active: &'static str) -> Seq<(&'static str, Seq<TransitionDef>)> {
    seq![("entering", seq![tr(TriggerKind::Timer(3500), 1, 0)]), (active, Seq::<TransitionDef>::empty())]
}

fn gatling_graph(name: &'static str, active: &'static str) -> (d: PhaseGraph)
    ensures
        d.name == name,
        d.initial == 0,
        graph_view(d) == gatling_graph_spec(active),
{
    let mut phases: Vec<PhaseDef> = Vec::new();
    phases.push(phase("entering", vec![TransitionDef { trigger: TriggerKind::Timer(3500), target: 1, priority: 0 }]));
    phases.push(phase(active, Vec::new()));
    let d = graph_of(name, 0, phases);
    assert forall|i: int| 0 <= i < 2 implies #[trigger] graph_view(d)[i] == gatling_graph_spec(active)[i] by {
        assert(graph_view(d)[i] == phase_view(d.phases@[i]));
    }
    assert(graph_view(d) =~= gatling_graph_spec(active));
    d
}

/// A gatling on its own, named "GatlingStandalone": a 3.5 s entry, then
/// active.
pub fn gatling_standalone_definition() -> (d: PhaseGraph)
    ensures
        d.name == "GatlingStandalone",
        d.initial == 0,
        graph_view(d) == gatling_graph_spec("active"),
{
    gatling_graph("GatlingStandalone", "active")
}

/// A mothership gatling that aims and shoots, named "GatlingTurretAim": a
/// 3.5 s entry, then aiming.
pub fn gatling_turret_aim_definition() -> (d: PhaseGraph)
    ensures
        d.name == "GatlingTurretAim",
        d.initial == 0,
        graph_view(d) == gatling_graph_spec("aim_shoot"),
{
    gatling_graph("GatlingTurretAim", "aim_shoot")
}

/// A mothership gatling in full auto, named "GatlingTurretFullAuto": a
/// 3.5 s entry, then sweeping fire.
pub fn gatling_turret_fullauto_definition() -> (d: PhaseGraph)
    ensures
        d.name == "GatlingTurretFullAuto",
        d.initial == 0,
        graph_view(d) == gatling_graph_spec("sweep_shoot"),
{
    gatling_graph("GatlingTurretFullAuto", "sweep_shoot")
}

/// Every transition of `g` leads to a phase of `g`.
pub open spec fn targets_exist(g: Seq<(&'static str, Seq<TransitionDef>)>) -> bool {
    forall|i: int, j: int| 0 <= i < g.len() && 0 <= j < g[i].1.len() ==> #[trigger] g[i].1[j].target < g.len()
}

/// Every transition of every enemy definition leads to a phase of the same
/// definition.
pub proof fn lemma_definitions_targets_exist()
    ensures
        targets_exist(boss_graph_spec()),
        targets_exist(green_ufo_graph_spec()),
        targets_exist(mothership_graph_spec()),
        targets_exist(single_phase_spec("idle")),
        targets_exist(single_phase_spec("falling")),
        targets_exist(gatling_graph_spec("active")),
        targets_exist(gatling_graph_spec("aim_shoot")),
        targets_exist(gatling_graph_spec("sweep_shoot")),
{
    lemma_boss_graph_sound();
    let g = green_ufo_graph_spec();
    assert forall|i: int, j: int| 0 <= i < g.len() && 0 <= j < g[i].1.len() implies #[trigger] g[i].1[j].target
        < g.len() by {
        assert(j == 0);
    }
    let m = mothership_graph_spec();
    assert forall|i: int, j: int| 0 <= i < m.len() && 0 <= j < m[i].1.len() implies #[trigger] m[i].1[j].target
        < m.len() by {
        assert(j == 0);
    }
    let a = gatling_graph_spec("active");
    assert forall|i: int, j: int| 0 <= i < a.len() && 0 <= j < a[i].1.len() implies #[trigger] a[i].1[j].target
        < a.len() by {
        assert(j == 0);
    }
    let b = gatling_graph_spec("aim_shoot");
    assert forall|i: int, j: int| 0 <= i < b.len() && 0 <= j < b[i].1.len() implies #[trigger] b[i].1[j].target
        < b.len() by {
        assert(j == 0);
    }
    let c = gatling_graph_spec("sweep_shoot");
    assert forall|i: int, j: int| 0 <= i < c.len() && 0 <= j < c[i].1.len() implies #[trigger] c[i].1[j].target
        < c.len() by {
        assert(j == 0);
    }
}

/// Phase `a` has a transition to phase `b`.
pub open spec fn leads_to(g: Seq<(&'static str, Seq<TransitionDef>)>, a: int, b: int) -> bool {
    exists|j: int| 0 <= j < g[a].1.len() && #[trigger] g[a].1[j].target == b
}

/// Phase `b` can be reached from phase `a` in at most `n` transitions.
pub open spec fn reaches_within(g: Seq<(&'static str, Seq<TransitionDef>)>, a: int, b: int, n: nat) -> bool
    decreases n,
{
    if n == 0 {
        a == b
    } else {
        reaches_within(g, a, b, (n - 1) as nat) || exists|m: int|
            0 <= m < g.len() && reaches_within(g, a, m, (n - 1) as nat) && #[trigger] leads_to(g, m, b)
    }
}

/// The boss's graph is sound: every transition leads to a phase of the
/// graph, every phase can be reached from the first, and `dead` is the only
/// phase with no way out.
pub proof fn lemma_boss_graph_sound()
    ensures
        forall|i: int, j: int|
            0 <= i < boss_graph_spec().len() && 0 <= j < boss_graph_spec()[i].1.len()
                ==> #[trigger] boss_graph_spec()[i].1[j].target < boss_graph_spec().len(),
        forall|i: int| 0 <= i < boss_graph_spec().len() ==> #[trigger] reaches_within(boss_graph_spec(), 0, i, i as nat),
        forall|i: int|
            0 <= i < boss_graph_spec().len() ==> (#[trigger] boss_graph_spec()[i].1.len() == 0 <==> i == 7),
        boss_graph_spec()[7].0 == "dead",
{
    let g = boss_graph_spec();
    assert(g.len() == 8);
    assert forall|i: int, j: int| 0 <= i < g.len() && 0 <= j < g[i].1.len() implies #[trigger] g[i].1[j].target
        < g.len() by {
        assert(j == 0);
    }
    assert forall|i: int| 0 <= i < g.len() implies #[trigger] reaches_within(g, 0, i, i as nat) by {
        lemma_boss_chain(i);
    }
}

proof fn lemma_boss_chain(i: int)
    requires
        0 <= i < 8,
    ensures
        reaches_within(boss_graph_spec(), 0, i, i as nat),
    decreases i,
{
    let g = boss_graph_spec();
    if i > 0 {
        lemma_boss_chain(i - 1);
        assert(g[i - 1].1[0].target == i);
        assert(leads_to(g, i - 1, i));
    }
}

} // verus!

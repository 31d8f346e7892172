use carre::behaviors::{
    boss_step, green_ufo_step, octopus_step, BossEvents, BossState, DeathMark, GreenUfoEvents, GreenUfoState,
    OctopusEvents, OctopusState,
};
use carre::mothership::{
    next_mothership_plan, EntryEdge, MothershipSpec, SpawnSide, TurretLook, TurretSpec,
};
use carre::phase_graph::{
    asteroid_definition, boss_definition, gatling_standalone_definition, gatling_turret_aim_definition,
    gatling_turret_fullauto_definition, green_ufo_definition, mothership_definition, mothership_heart_definition,
    phase_step, TriggerKind,
};
use carre::turret::{
    cycles_patterns, gatling_pattern_step, static_shot_tick, EnemyState, GatlingMode, PatternCursor, PatternDef,
};

fn boss_quiet() -> BossEvents {
    BossEvents {
        die: false,
        hp_threshold: false,
        player_charge: false,
        wall_left: false,
        wall_right: false,
        transition_done: false,
    }
}

fn ufo_quiet() -> GreenUfoEvents {
    GreenUfoEvents { die: false, entering_done: false, rush_ready: false, idle_ready: false, wall: false }
}

fn octo_quiet() -> OctopusEvents {
    OctopusEvents { die: false, entering_done: false, do_swoop: false, do_shoot: false, back_to_telegraph: false }
}

#[test]
fn boss_entry_lasts_five_and_a_half_seconds() {
    assert_eq!(boss_step(BossState::Entering, boss_quiet(), 5499), BossState::Entering);
    assert_eq!(boss_step(BossState::Entering, boss_quiet(), 5500), BossState::PatrolLeft);
    // Dying is not possible while entering.
    let die = BossEvents { die: true, ..boss_quiet() };
    assert_eq!(boss_step(BossState::Entering, die, 10), BossState::Entering);
}

#[test]
fn boss_events_by_priority() {
    let all = BossEvents {
        die: false,
        hp_threshold: true,
        player_charge: true,
        wall_left: true,
        wall_right: true,
        transition_done: false,
    };
    assert_eq!(boss_step(BossState::PatrolLeft, all, 0), BossState::Transitioning);
    let charge_and_wall = BossEvents { hp_threshold: false, ..all };
    assert_eq!(boss_step(BossState::PatrolLeft, charge_and_wall, 0), BossState::Charge);
    let wall = BossEvents { wall_left: true, ..boss_quiet() };
    assert_eq!(boss_step(BossState::PatrolLeft, wall, 0), BossState::PatrolRight);
    let wall = BossEvents { wall_right: true, ..boss_quiet() };
    assert_eq!(boss_step(BossState::PatrolRight, wall, 0), BossState::PatrolLeft);
    assert_eq!(boss_step(BossState::Charge, wall, 0), BossState::PatrolLeft);
    // Die wins over everything while alive.
    let die = BossEvents { die: true, ..all };
    assert_eq!(boss_step(BossState::Charge, die, 0), BossState::Dying);
}

#[test]
fn boss_transition_and_death_timing() {
    assert_eq!(boss_step(BossState::Transitioning, boss_quiet(), 2499), BossState::Transitioning);
    assert_eq!(boss_step(BossState::Transitioning, boss_quiet(), 2500), BossState::PatrolLeft);
    let done = BossEvents { transition_done: true, ..boss_quiet() };
    assert_eq!(boss_step(BossState::Transitioning, done, 0), BossState::PatrolLeft);
    assert_eq!(boss_step(BossState::Dying, boss_quiet(), 3999), BossState::Dying);
    assert_eq!(boss_step(BossState::Dying, boss_quiet(), 4000), BossState::Despawned);
    assert_eq!(boss_step(BossState::Despawned, boss_quiet(), 99999), BossState::Despawned);
}

#[test]
fn green_ufo_cycle() {
    assert_eq!(green_ufo_step(GreenUfoState::Entering, ufo_quiet(), 1000), GreenUfoState::Idle);
    assert_eq!(green_ufo_step(GreenUfoState::Idle, ufo_quiet(), 1999), GreenUfoState::Idle);
    assert_eq!(green_ufo_step(GreenUfoState::Idle, ufo_quiet(), 2000), GreenUfoState::Rush);
    let ready = GreenUfoEvents { rush_ready: true, ..ufo_quiet() };
    assert_eq!(green_ufo_step(GreenUfoState::Idle, ready, 0), GreenUfoState::Rush);
    let wall = GreenUfoEvents { wall: true, ..ufo_quiet() };
    assert_eq!(green_ufo_step(GreenUfoState::Rush, wall, 0), GreenUfoState::Idle);
    let idle = GreenUfoEvents { idle_ready: true, ..ufo_quiet() };
    assert_eq!(green_ufo_step(GreenUfoState::Rush, idle, 0), GreenUfoState::Idle);
    let die = GreenUfoEvents { die: true, ..ufo_quiet() };
    assert_eq!(green_ufo_step(GreenUfoState::Rush, die, 0), GreenUfoState::Dying);
    assert_eq!(green_ufo_step(GreenUfoState::Dying, ufo_quiet(), 450), GreenUfoState::Despawned);
}

#[test]
fn octopus_attacks() {
    let done = OctopusEvents { entering_done: true, ..octo_quiet() };
    assert_eq!(octopus_step(OctopusState::Entering, done, 0), OctopusState::Telegraph);
    let swoop = OctopusEvents { do_swoop: true, ..octo_quiet() };
    assert_eq!(octopus_step(OctopusState::Telegraph, swoop, 0), OctopusState::PreSwoop);
    assert_eq!(octopus_step(OctopusState::PreSwoop, octo_quiet(), 600), OctopusState::Swoop);
    let back = OctopusEvents { back_to_telegraph: true, ..octo_quiet() };
    assert_eq!(octopus_step(OctopusState::Swoop, back, 0), OctopusState::Telegraph);
    let shoot = OctopusEvents { do_shoot: true, ..octo_quiet() };
    assert_eq!(octopus_step(OctopusState::Telegraph, shoot, 0), OctopusState::ShootWindup);
    assert_eq!(octopus_step(OctopusState::ShootWindup, octo_quiet(), 599), OctopusState::ShootWindup);
    assert_eq!(octopus_step(OctopusState::ShootWindup, octo_quiet(), 600), OctopusState::ShootFire);
    assert_eq!(octopus_step(OctopusState::ShootFire, octo_quiet(), 150), OctopusState::Telegraph);
    let die = OctopusEvents { die: true, ..octo_quiet() };
    assert_eq!(octopus_step(OctopusState::Swoop, die, 0), OctopusState::Dying);
    assert_eq!(octopus_step(OctopusState::Dying, octo_quiet(), 799), OctopusState::Dying);
    assert_eq!(octopus_step(OctopusState::Dying, octo_quiet(), 800), OctopusState::Despawned);
}

#[test]
fn death_is_reported_once() {
    let mut m = DeathMark::new();
    assert!(!m.check(false));
    assert!(m.check(true));
    assert!(!m.check(true));
    assert!(!m.check(false));
    assert!(m.dying);
}

#[test]
fn boss_graph_shape() {
    let g = boss_definition();
    assert_eq!(g.name, "Boss");
    assert_eq!(g.initial, 0);
    let ids: Vec<&str> = g.phases.iter().map(|p| p.id).collect();
    assert_eq!(
        ids,
        vec!["entering", "active_1", "transitioning_1", "active_2", "transitioning_2", "active_3", "dying", "dead"]
    );
    assert_eq!(g.phases[0].transitions[0].trigger, TriggerKind::Timer(7000));
    assert_eq!(g.phases[1].transitions[0].trigger, TriggerKind::HealthBelow(660));
    assert_eq!(g.phases[3].transitions[0].trigger, TriggerKind::HealthBelow(330));
    assert_eq!(g.phases[5].transitions[0].trigger, TriggerKind::HealthBelow(0));
    assert_eq!(g.phases[6].transitions[0].trigger, TriggerKind::Timer(4000));
    for (i, p) in g.phases.iter().enumerate().take(7) {
        assert_eq!(p.transitions.len(), 1);
        assert_eq!(p.transitions[0].target, i + 1);
    }
    assert!(g.phases[7].transitions.is_empty());
}

#[test]
fn boss_graph_steps() {
    let g = boss_definition();
    assert_eq!(phase_step(&g, 0, 6999, Some((100, 100)), &[]), None);
    assert_eq!(phase_step(&g, 0, 7000, Some((100, 100)), &[]), Some(1));
    // Strictly below 66 %.
    assert_eq!(phase_step(&g, 1, 0, Some((66, 100)), &[]), None);
    assert_eq!(phase_step(&g, 1, 0, Some((65, 100)), &[]), Some(2));
    assert_eq!(phase_step(&g, 3, 0, Some((32, 100)), &[]), Some(4));
    // Below 0 %: health went negative.
    assert_eq!(phase_step(&g, 5, 0, Some((0, 100)), &[]), None);
    assert_eq!(phase_step(&g, 5, 0, Some((-1, 100)), &[]), Some(6));
    // No health, or no positive maximum: health triggers do not fire.
    assert_eq!(phase_step(&g, 1, 0, None, &[]), None);
    assert_eq!(phase_step(&g, 1, 0, Some((-5, 0)), &[]), None);
    assert_eq!(phase_step(&g, 7, 100000, Some((0, 100)), &["die"]), None);
    // A phase outside the graph has no way out.
    assert_eq!(phase_step(&g, 8, 100000, Some((0, 100)), &["die"]), None);
}

fn pd(name: &'static str, ms: u64) -> PatternDef {
    PatternDef { name, duration_ms: ms }
}

#[test]
fn gatling_cycles_only_when_active() {
    assert!(!cycles_patterns(EnemyState::Entering));
    assert!(cycles_patterns(EnemyState::Active(0)));
    let phases = vec![vec![pd("idle", 1000), pd("aim_and_shoot", 2000)]];
    let mut c = PatternCursor { started: 0 };
    assert_eq!(gatling_pattern_step(EnemyState::Entering, true, &None, &phases, &mut c), None);
    assert_eq!(gatling_pattern_step(EnemyState::Dying, true, &None, &phases, &mut c), None);
    assert_eq!(gatling_pattern_step(EnemyState::Active(0), false, &None, &phases, &mut c), None);
    assert_eq!(c.started, 0);
}

#[test]
fn gatling_cycles_phase_patterns_in_order() {
    let phases = vec![vec![pd("idle", 1000), pd("aim_and_shoot", 2000)]];
    let mut c = PatternCursor { started: 0 };
    let a = gatling_pattern_step(EnemyState::Active(0), true, &None, &phases, &mut c).unwrap();
    assert_eq!((a.index, a.pattern.name, a.mode, a.next_duration_ms), (0, "idle", GatlingMode::Idle, 2000));
    let b = gatling_pattern_step(EnemyState::Active(0), true, &None, &phases, &mut c).unwrap();
    assert_eq!((b.index, b.mode, b.next_duration_ms), (1, GatlingMode::AimAndShoot, 1000));
    let a2 = gatling_pattern_step(EnemyState::Active(0), true, &None, &phases, &mut c).unwrap();
    assert_eq!(a2.index, 0);
    assert_eq!(c.started, 3);
}

#[test]
fn gatling_override_takes_precedence() {
    let phases = vec![vec![pd("idle", 1000)]];
    let own = Some(vec![pd("full_auto", 15000)]);
    let mut c = PatternCursor { started: 0 };
    let s = gatling_pattern_step(EnemyState::Active(0), true, &own, &phases, &mut c).unwrap();
    assert_eq!((s.pattern.name, s.mode, s.next_duration_ms), ("full_auto", GatlingMode::FullAuto, 15000));
    // An empty list does nothing.
    let empty = Some(Vec::new());
    let mut d = PatternCursor { started: 4 };
    assert_eq!(gatling_pattern_step(EnemyState::Active(0), true, &empty, &phases, &mut d), None);
    assert_eq!(d.started, 4);
}

#[test]
fn static_gatling_fires_once_at_seventy_percent() {
    let mut fired = false;
    assert!(!static_shot_tick(&mut fired, 1399, 2000, true));
    assert!(!static_shot_tick(&mut fired, 1400, 2000, false));
    assert!(static_shot_tick(&mut fired, 1400, 2000, true));
    assert!(fired);
    assert!(!static_shot_tick(&mut fired, 1900, 2000, true));
}

fn turret(name: &'static str, x: i32, style: Option<TurretLook>) -> TurretSpec<i32> {
    TurretSpec { patterns: vec![pd(name, 2000)], pos: x, style }
}

#[test]
fn mothership_plan_from_queue() {
    let mut empty: Vec<MothershipSpec<i32>> = Vec::new();
    assert!(next_mothership_plan(&mut empty).is_none());
    assert!(empty.is_empty());

    let second = MothershipSpec { edge: SpawnSide::Bottom, turrets: Vec::new(), hearts: vec![7], on_death: None };
    let first = MothershipSpec {
        edge: SpawnSide::At,
        turrets: vec![
            turret("aim_and_shoot", -47, Some(TurretLook { laser: true, custom_sprite: true })),
            turret("full_auto", 0, None),
        ],
        hearts: vec![1, 2, 3, 4],
        on_death: Some(Box::new(second)),
    };
    let other = MothershipSpec { edge: SpawnSide::Left, turrets: Vec::new(), hearts: Vec::new(), on_death: None };
    let mut queue = vec![first, other];
    let plan = next_mothership_plan(&mut queue).unwrap();
    assert_eq!(queue.len(), 1);
    assert_eq!(queue[0].edge, SpawnSide::Left);
    assert_eq!(plan.edge, EntryEdge::Top);
    assert_eq!(plan.turrets.len(), 2);
    assert_eq!(plan.turrets[0].patterns, vec![pd("aim_and_shoot", 2000)]);
    assert_eq!(plan.turrets[0].pos, -47);
    assert!(plan.turrets[0].laser && plan.turrets[0].static_sprite);
    assert!(!plan.turrets[1].laser && !plan.turrets[1].static_sprite);
    assert_eq!(plan.hearts, vec![1, 2, 3, 4]);
    let next = plan.follow_up.unwrap();
    assert_eq!(next.edge, SpawnSide::Bottom);
    assert_eq!(next.hearts, vec![7]);
}

#[test]
fn green_ufo_graph_alternates() {
    let g = green_ufo_definition();
    assert_eq!(g.name, "GreenUFO");
    assert_eq!(g.phases[g.initial].id, "rush");
    assert_eq!(phase_step(&g, 0, 1499, None, &[]), None);
    assert_eq!(phase_step(&g, 0, 1500, None, &[]), Some(1));
    assert_eq!(phase_step(&g, 1, 1000, None, &[]), Some(0));
}

#[test]
fn mothership_graph_follows_its_parts() {
    let g = mothership_definition();
    assert_eq!(g.name, "Mothership");
    let ids: Vec<&str> = g.phases.iter().map(|p| p.id).collect();
    assert_eq!(ids, vec!["entering", "phase_1", "phase_2", "dying", "dead"]);
    assert_eq!(phase_step(&g, 0, 3500, Some((10, 10)), &[]), Some(1));
    assert_eq!(phase_step(&g, 1, 99999, Some((10, 10)), &["all_hearts_dead"]), None);
    assert_eq!(phase_step(&g, 1, 0, None, &["other", "all_gatlings_dead"]), Some(2));
    assert_eq!(phase_step(&g, 2, 0, None, &["all_hearts_dead"]), Some(3));
    assert_eq!(phase_step(&g, 3, 4000, None, &[]), Some(4));
    assert_eq!(phase_step(&g, 4, 99999, None, &["all_hearts_dead"]), None);
}

#[test]
fn single_phase_and_gatling_graphs() {
    for (g, name, id) in [
        (mothership_heart_definition(), "MothershipHeart", "idle"),
        (asteroid_definition(), "Asteroid", "falling"),
    ] {
        assert_eq!(g.name, name);
        assert_eq!(g.phases.len(), 1);
        assert_eq!(g.phases[0].id, id);
        assert_eq!(phase_step(&g, 0, 99999, Some((0, 10)), &["die"]), None);
    }
    for (g, name, id) in [
        (gatling_standalone_definition(), "GatlingStandalone", "active"),
        (gatling_turret_aim_definition(), "GatlingTurretAim", "aim_shoot"),
        (gatling_turret_fullauto_definition(), "GatlingTurretFullAuto", "sweep_shoot"),
    ] {
        assert_eq!(g.name, name);
        assert_eq!(g.phases[1].id, id);
        assert_eq!(phase_step(&g, 0, 3499, None, &[]), None);
        assert_eq!(phase_step(&g, 0, 3500, None, &[]), Some(1));
    }
}

use carre::anim::FramePlayback;
use carre::campaign::{CampaignProgress, LevelSelectState, NavDirection};
use carre::chaos::{ChaosConfig, ChaosState};
use carre::enemy_pool::default_tunings;
use carre::experience::Experience;
use carre::items::{ItemType, PlayerBombs};
use carre::phases::BossPhaseTracker;
use carre::turret::{PatternCursor, ShotAnim};
use carre::waves::{WaveTemplate, WavesConfig, WavesState};

#[test]
fn bomb_picked_then_fired_gives_stock_back() {
    let mut b = PlayerBombs::new();
    b.pick_up(ItemType::Bomb);
    b.pick_up(ItemType::Bomb);
    let before = b.count;
    b.pick_up(ItemType::Bomb);
    assert!(b.fire());
    assert_eq!(b.count, before);
}

#[test]
fn bomb_stock_never_negative() {
    let mut b = PlayerBombs::new();
    for _ in 0..3 {
        assert!(!b.fire());
        assert_eq!(b.count, 0);
    }
}

#[test]
fn exclude_then_restore_appends_default() {
    let c = ChaosConfig::new().exclude("green_ufo");
    assert!(c.enemies.iter().all(|e| e.name != "green_ufo"));
    let without: Vec<&str> = c.enemies.iter().map(|e| e.name).collect();
    let c = c.restore("green_ufo");
    let names: Vec<&str> = c.enemies.iter().map(|e| e.name).collect();
    assert_eq!(&names[..without.len()], &without[..]);
    assert_eq!(names.len(), without.len() + 1);
    assert_eq!(names[without.len()], "green_ufo");
    let default = default_tunings().into_iter().find(|e| e.name == "green_ufo").unwrap();
    let back = c.enemies[without.len()];
    assert_eq!((back.name, back.cost, back.weight), (default.name, default.cost, default.weight));
}

#[test]
fn restore_present_or_unknown_changes_nothing() {
    let c = ChaosConfig::new();
    let n = c.enemies.len();
    let c = c.restore("asteroid");
    assert_eq!(c.enemies.len(), n);
    let c = c.restore("dragon");
    assert_eq!(c.enemies.len(), n);
}

#[test]
fn chaos_budget_never_overspent() {
    let mut c = ChaosConfig::new();
    c.tick(false, false, true);
    for _ in 0..200 {
        c.tick(false, true, false);
        match c.state {
            ChaosState::Active { budget } => assert!(budget >= 0),
            ChaosState::Cooldown => break,
        }
    }
}

#[test]
fn wave_releases_exactly_its_members() {
    let mut w = WavesConfig::new();
    let members = vec![("asteroid", 3), ("green_ufo", 2)];
    w.start_wave(WaveTemplate { name: "test", members });
    let mut released = 0;
    for _ in 0..20 {
        if w.tick(false, true, 5).is_some() {
            released += 1;
        }
    }
    assert_eq!(released, 5);
    assert!(matches!(w.state, WavesState::Waiting));
}

#[test]
fn looping_animation_cycles() {
    let mut p = FramePlayback::new();
    for k in 1..=10 {
        p.advance(4);
        assert_eq!(p.current_frame, k % 4);
        assert!(!p.completed);
    }
}

#[test]
fn stopped_animation_stays() {
    let mut p = FramePlayback::new().one_shot();
    p.advance(2);
    p.advance(2);
    let stopped = p;
    for _ in 0..5 {
        assert_eq!(p.advance(2), None);
        assert_eq!(p, stopped);
    }
}

#[test]
fn one_shot_per_pattern() {
    let mut a = ShotAnim::new();
    let mut shots = 0;
    for k in 0..12 {
        if a.tick(k % 2 == 0, 5).fire {
            shots += 1;
        }
    }
    assert_eq!(shots, 1);
}

#[test]
fn patterns_cycle() {
    let mut c = PatternCursor { started: 0 };
    let first: Vec<usize> = (0..3).map(|_| c.start_next(3).0).collect();
    let second: Vec<usize> = (0..3).map(|_| c.start_next(3).0).collect();
    assert_eq!(first, vec![0, 1, 2]);
    assert_eq!(first, second);
}

#[test]
fn boss_tier_only_goes_up() {
    let mut t = BossPhaseTracker::new();
    assert!(!t.hp_threshold_check(false, 90, 90));
    assert!(t.hp_threshold_check(false, 60, 90));
    assert_eq!(t.phase, 2);
    // Healing does not bring the tier back.
    assert!(!t.hp_threshold_check(false, 90, 90));
    assert_eq!(t.phase, 2);
    assert!(t.hp_threshold_check(false, 30, 90));
    assert!(!t.hp_threshold_check(false, 0, 90));
    assert_eq!(t.phase, 3);
}

#[test]
fn level_never_ahead_of_experience() {
    let mut e = Experience::new();
    e.add(160);
    assert!(e.check_level_up());
    assert!(e.check_level_up());
    assert!(!e.check_level_up());
    assert_eq!(e.level, 2);
    assert!(e.total >= e.current_threshold());
}

#[test]
fn selection_rests_on_open_slots() {
    let mut done = CampaignProgress::new();
    done.insert(2);
    done.insert(3);
    let mut s = LevelSelectState::new(4, &done);
    assert_eq!(s.selected, 0);
    // Slot 1 (level 2) and slot 2 (level 3) are done: moves are refused.
    s.navigate(NavDirection::Right, &done);
    assert_eq!(s.selected, 0);
    s.navigate(NavDirection::Down, &done);
    assert_eq!(s.selected, 0);
    let mut done_more = CampaignProgress::new();
    done_more.insert(1);
    let mut s = LevelSelectState::new(4, &done_more);
    assert_eq!(s.selected, 1);
    s.navigate(NavDirection::Down, &done_more);
    assert_eq!(s.selected, 3);
    assert_eq!(s.launch(&done_more), Some(4));
}

#[test]
fn recorded_level_is_completed() {
    let mut c = CampaignProgress::new();
    c.insert(2);
    assert!(c.contains(2));
    assert!(!c.contains(1));
    c.insert(2);
    assert_eq!(c.len(), 1);
}

#[test]
fn first_tier_never_buys_above_its_range() {
    for _ in 0..20 {
        let mut c = ChaosConfig::new();
        c.tick(false, false, true);
        assert_eq!(c.tier, 1);
        for _ in 0..100 {
            if let Some(order) = c.tick(false, true, false) {
                if let carre::enemy_pool::SpawnOrder::Request { name, .. } = order {
                    assert_ne!(name, "boss");
                }
            }
            match c.state {
                ChaosState::Active { budget } => assert!(budget <= 35),
                ChaosState::Cooldown => break,
            }
        }
    }
}

#[test]
fn tier_messages_match_tier_over_a_run() {
    let mut t = BossPhaseTracker::new();
    let mut messages = 0;
    let checks = [
        (false, 150, 150),
        (false, 100, 150),
        (true, 10, 150),
        (false, 60, 150),
        (false, 50, 150),
        (false, 0, 150),
        (false, 0, 0),
    ];
    for (inv, hp, max) in checks {
        let before = t.phase;
        if t.hp_threshold_check(inv, hp, max) {
            messages += 1;
        }
        assert!(t.phase >= before && t.phase <= before + 1);
        assert!((1..=3).contains(&t.phase));
        assert_eq!(messages, t.phase - 1);
    }
    assert_eq!(t.phase, 3);
}

#[test]
fn no_health_maximum_crosses_nothing() {
    let mut t = BossPhaseTracker::new();
    assert!(!t.hp_threshold_check(false, 0, 0));
    assert!(!t.hp_threshold_check(false, -3, -1));
    assert_eq!(t.phase, 1);
}

#[test]
fn chaos_run_keeps_pool_and_counts_tiers() {
    let mut c = ChaosConfig::new();
    let pool: Vec<(&str, u32, u32)> = c.enemies.iter().map(|e| (e.name, e.cost, e.weight)).collect();
    let mut tier_changes = 0;
    for step in 0..200u32 {
        let before_tier = c.tier;
        let was_cooldown = c.state == ChaosState::Cooldown;
        c.tick(step % 37 == 36, true, step % 5 == 0);
        let now: Vec<(&str, u32, u32)> = c.enemies.iter().map(|e| (e.name, e.cost, e.weight)).collect();
        assert_eq!(now, pool);
        if let ChaosState::Active { budget } = c.state {
            assert!(budget >= 0);
        }
        if c.tier != before_tier {
            tier_changes += 1;
            assert_eq!(c.tier, before_tier + 1);
            assert!(was_cooldown && matches!(c.state, ChaosState::Active { .. }));
        }
    }
    assert_eq!(c.tier, tier_changes);
    assert!(tier_changes > 0);
}

#[test]
fn waves_counter_counts_started_waves() {
    let mut w = WavesConfig::new();
    let mut started = 0;
    let mut alive = 0usize;
    for step in 0..300u32 {
        let was_idle = matches!(w.state, WavesState::Idle);
        let before = w.wave_number;
        let order = w.tick(step % 3 == 0, step % 2 == 0, alive);
        if order.is_some() {
            alive += 1;
        }
        if step % 7 == 0 && alive > 0 {
            alive -= 1;
        }
        if was_idle && matches!(w.state, WavesState::Spawning { .. }) {
            started += 1;
            assert_eq!(w.wave_number, before + 1);
        } else {
            assert_eq!(w.wave_number, before);
        }
    }
    assert_eq!(w.wave_number, started);
    assert!(started > 0);
}

#[test]
fn one_shot_animation_stops_on_last_frame() {
    let mut p = FramePlayback::new().one_shot();
    let mut shown = Vec::new();
    for _ in 0..6 {
        if let Some(f) = p.advance(4) {
            shown.push(f);
        }
        assert!(p.current_frame < 4);
    }
    assert_eq!(shown, vec![1, 2, 3]);
    assert!(p.completed);
    assert_eq!(p.current_frame, 3);
}

#[test]
fn default_pool_template_weights_fit() {
    let pool = default_tunings();
    for t in carre::waves::wave_templates() {
        assert!(carre::waves::template_weight(&t, &pool) <= 540);
    }
}

#[test]
fn runner_elapsed_is_its_field() {
    let mut r = carre::timeline::LevelRunner::<u8>::new(vec![carre::timeline::LevelStep::at(10, "a")]);
    r.advance(7);
    assert_eq!(r.elapsed, 7);
}

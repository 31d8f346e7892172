use carre::chaos::{chaos_playlist, tier_budget, ChaosConfig, ChaosMusicState, ChaosState};
use carre::enemy_pool::SpawnOrder;

#[test]
fn tier_budgets() {
    assert_eq!(tier_budget(0), (15, 35));
    assert_eq!(tier_budget(1), (15, 35));
    assert_eq!(tier_budget(2), (30, 70));
    assert_eq!(tier_budget(3), (50, 120));
    assert_eq!(tier_budget(4), (80, 180));
    assert_eq!(tier_budget(5), (120, 250));
    assert_eq!(tier_budget(6), (180, 350));
    assert_eq!(tier_budget(7), (280, 420));
    assert_eq!(tier_budget(10), (400, 600));
}

#[test]
fn first_tick_starts_tier_one() {
    let mut c = ChaosConfig::new();
    assert_eq!(c.tier, 0);
    assert_eq!(c.state, ChaosState::Cooldown);
    assert_eq!(c.tick(false, false, false), None);
    assert_eq!(c.state, ChaosState::Cooldown);
    assert_eq!(c.tick(false, false, true), None);
    assert_eq!(c.tier, 1);
    match c.state {
        ChaosState::Active { budget } => assert!((15..=35).contains(&budget)),
        _ => panic!(),
    }
}

#[test]
fn spending_the_budget() {
    let mut c = ChaosConfig::new();
    c.state = ChaosState::Active { budget: 20 };
    c.tier = 1;
    let mut last = 20;
    for _ in 0..100 {
        match c.state {
            ChaosState::Active { budget } if budget > 0 => {
                let before = budget;
                let o = c.tick(false, true, false);
                let after = match c.state {
                    ChaosState::Active { budget } => budget,
                    _ => panic!(),
                };
                assert!(o.is_some());
                assert!(after >= 0 && after < before);
                last = after;
            },
            _ => break,
        }
    }
    assert_eq!(last, 0);
    // Budget spent: the tier ends.
    assert_eq!(c.tick(false, true, false), None);
    assert_eq!(c.state, ChaosState::Cooldown);
    assert_eq!(c.tier, 1);
}

#[test]
fn tier_time_over_ends_tier() {
    let mut c = ChaosConfig::new();
    c.state = ChaosState::Active { budget: 50 };
    assert_eq!(c.tick(true, true, false), None);
    assert_eq!(c.state, ChaosState::Cooldown);
}

#[test]
fn no_spawn_without_timer() {
    let mut c = ChaosConfig::new();
    c.state = ChaosState::Active { budget: 50 };
    assert_eq!(c.tick(false, false, false), None);
    assert_eq!(c.state, ChaosState::Active { budget: 50 });
}

#[test]
fn exclude_and_restore() {
    let c = ChaosConfig::new().exclude("boss").exclude("asteroid");
    assert_eq!(c.enemies.len(), 8);
    assert!(c.enemies.iter().all(|e| e.name != "boss" && e.name != "asteroid"));
    let c = c.restore("boss");
    assert_eq!(c.enemies.len(), 9);
    assert_eq!(c.enemies[8].name, "boss");
    assert_eq!(c.enemies[8].cost, 60);
    let c = c.restore("boss").restore("dragon");
    assert_eq!(c.enemies.len(), 9);
}

#[test]
fn only_asteroids_spawn_on_low_budget() {
    let mut c = ChaosConfig::new();
    c.state = ChaosState::Active { budget: 1 };
    assert_eq!(c.tick(false, true, false), Some(SpawnOrder::Request { name: "asteroid", count: 1 }));
    assert_eq!(c.state, ChaosState::Active { budget: 0 });
}

#[test]
fn playlist_loops() {
    let p = chaos_playlist();
    assert_eq!(p, vec!["audio/music/gradius.ogg", "audio/music/boss.ogg"]);
    let mut m = ChaosMusicState::new();
    assert_eq!(m.next_track(), "audio/music/gradius.ogg");
    assert_eq!(m.next_index, 1);
    assert_eq!(m.next_track(), "audio/music/boss.ogg");
    assert_eq!(m.next_index, 0);
    assert_eq!(m.next_track(), "audio/music/gradius.ogg");
}

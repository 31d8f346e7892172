use carre::enemy_pool::{
    default_tunings, find_tuning, pick_enemy, pick_enemy_with_roll, spawn_order, EnemyTuning,
    SpawnKind, SpawnOrder,
};

#[test]
fn default_pool_values() {
    let t = default_tunings();
    assert_eq!(t.len(), 10);
    assert_eq!(t[0].name, "asteroid");
    assert_eq!((t[0].cost, t[0].weight), (1, 50));
    assert_eq!(t[5].name, "simple_ufo_wave");
    assert_eq!(t[5].kind, SpawnKind::SimpleUfoWave { count: 5, interval_ms: 200 });
    assert_eq!(t[9].name, "boss");
    assert_eq!((t[9].cost, t[9].weight), (60, 1));
}

#[test]
fn find_tuning_by_name() {
    let t = default_tunings();
    assert_eq!(find_tuning(&t, "mine"), Some(3));
    assert_eq!(find_tuning(&t, "boss"), Some(9));
    assert_eq!(find_tuning(&t, "dragon"), None);
}

#[test]
fn weighted_pick_segments() {
    let t = default_tunings();
    // budget 4: asteroid (50), green_ufo (12), mine (12) are affordable.
    assert_eq!(pick_enemy_with_roll(&t, 4, 0), Some(0));
    assert_eq!(pick_enemy_with_roll(&t, 4, 49), Some(0));
    assert_eq!(pick_enemy_with_roll(&t, 4, 50), Some(2));
    assert_eq!(pick_enemy_with_roll(&t, 4, 61), Some(2));
    assert_eq!(pick_enemy_with_roll(&t, 4, 62), Some(3));
    assert_eq!(pick_enemy_with_roll(&t, 4, 73), Some(3));
    assert_eq!(pick_enemy_with_roll(&t, 4, 74), None);
}

#[test]
fn weighted_pick_nothing_affordable() {
    let t = default_tunings();
    assert_eq!(pick_enemy_with_roll(&t, 0, 0), None);
    assert!(pick_enemy(&t, 0).is_none());
    assert!(pick_enemy(&t, -5).is_none());
}

#[test]
fn random_pick_is_affordable() {
    let t = default_tunings();
    for _ in 0..200 {
        let e = pick_enemy(&t, 5).expect("something is affordable");
        assert!(e.cost <= 5);
        assert!(e.weight > 0);
    }
}

#[test]
fn zero_weights_pick_nothing() {
    let t = vec![EnemyTuning { name: "x", cost: 1, weight: 0, kind: SpawnKind::Single }];
    assert!(pick_enemy(&t, 10).is_none());
}

#[test]
fn spawn_orders() {
    let t = default_tunings();
    assert_eq!(spawn_order(&t[1]), SpawnOrder::Request { name: "kamikaze", count: 1 });
    assert_eq!(spawn_order(&t[5]), SpawnOrder::UfoWave { count: 5, interval_ms: 200 });
}

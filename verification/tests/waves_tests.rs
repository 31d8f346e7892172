use carre::enemy_pool::{default_tunings, SpawnOrder};
use carre::waves::{
    template_for_wave, template_for_wave_with_roll, template_weight, wave_templates,
    wave_weight_target, WavesConfig, WavesState, WEIGHT_WINDOW,
};

fn weights() -> Vec<u32> {
    let t = default_tunings();
    wave_templates().iter().map(|w| template_weight(w, &t)).collect()
}

#[test]
fn catalogue_has_36_templates() {
    let v = wave_templates();
    assert_eq!(v.len(), 36);
    assert_eq!(v[0].name, "Astéroïde solo");
    assert_eq!(v[0].members, vec![("asteroid", 1)]);
    assert_eq!(v[35].name, "Triple octopus");
}

#[test]
fn weight_target_formula() {
    assert_eq!(wave_weight_target(0), 4);
    assert_eq!(wave_weight_target(1), 7);
    assert_eq!(wave_weight_target(5), 19);
    assert_eq!(wave_weight_target(10), 34);
    assert_eq!(wave_weight_target(20), 64);
}

#[test]
fn template_weights_against_default_pool() {
    let w = weights();
    assert_eq!(w[0], 1); // asteroid x1
    assert_eq!(w[3], 4); // mine + asteroid
    assert_eq!(w[9], 10); // mine + kamikaze + 2 asteroids
    assert_eq!(w[34], 57); // Apocalypse
    assert_eq!(w[35], 48); // Triple octopus
}

#[test]
fn unknown_member_weighs_nothing() {
    let t = default_tunings();
    let tmpl = carre::waves::WaveTemplate { name: "x", members: vec![("dragon", 3), ("mine", 2)] };
    assert_eq!(template_weight(&tmpl, &t), 6);
}

#[test]
fn window_selection_follows_catalogue_order() {
    let t = default_tunings();
    let v = wave_templates();
    let w = weights();
    let n = 5u32;
    let target = 4 + 3 * n;
    let lo = target - WEIGHT_WINDOW / 2;
    let hi = target + WEIGHT_WINDOW / 2;
    let candidates: Vec<usize> = (0..w.len()).filter(|&i| w[i] >= lo && w[i] <= hi).collect();
    assert!(!candidates.is_empty());
    for (roll, &expected) in candidates.iter().enumerate() {
        assert_eq!(template_for_wave_with_roll(n, &t, &v, roll), expected);
    }
}

#[test]
fn fallback_on_heaviest_templates() {
    let t = default_tunings();
    let v = wave_templates();
    let w = weights();
    // Wave 30 aims at 94, heavier than any template.
    let mut sorted: Vec<usize> = (0..w.len()).collect();
    sorted.sort_by_key(|&i| w[i]);
    let cutoff = (w.len() * 7) / 10;
    for roll in 0..(w.len() - cutoff) {
        assert_eq!(template_for_wave_with_roll(30, &t, &v, roll), sorted[cutoff + roll]);
    }
    assert_eq!(template_for_wave_with_roll(30, &t, &v, w.len() - cutoff - 1), 34);
}

#[test]
fn random_template_is_eligible() {
    let t = default_tunings();
    let w = weights();
    let v = wave_templates();
    for _ in 0..50 {
        let tmpl = template_for_wave(2, &t);
        let i = v.iter().position(|x| x.name == tmpl.name).unwrap();
        assert!(w[i] <= 4 + 3 * 2 + 7);
    }
}

#[test]
fn wave_cycle() {
    let mut c = WavesConfig::new();
    assert_eq!(c.wave_number, 0);
    assert!(matches!(c.state, WavesState::Idle));
    assert_eq!(c.tick(false, false, 0), None);
    assert_eq!(c.wave_number, 0);
    assert_eq!(c.tick(true, false, 0), None);
    assert_eq!(c.wave_number, 1);
    let total: u32 = match &c.state {
        WavesState::Spawning { queue, .. } => queue.iter().map(|(_, n)| *n).sum(),
        _ => panic!("a wave should be spawning"),
    };
    let mut spawned = 0;
    for _ in 0..100 {
        if matches!(c.state, WavesState::Waiting) {
            break;
        }
        // A tick without the spawn timer releases nothing.
        assert_eq!(c.tick(false, false, 3), None);
        match c.tick(false, true, 3) {
            Some(SpawnOrder::Request { count, .. }) => {
                assert_eq!(count, 1);
                spawned += 1
            },
            Some(SpawnOrder::UfoWave { count, interval_ms }) => {
                assert_eq!((count, interval_ms), (5, 200));
                spawned += 1
            },
            None => panic!("every member of the catalogue is in the pool"),
        }
    }
    assert_eq!(spawned, total);
    assert!(matches!(c.state, WavesState::Waiting));
    assert_eq!(c.tick(true, true, 2), None);
    assert!(matches!(c.state, WavesState::Waiting));
    assert_eq!(c.tick(false, false, 0), None);
    assert!(matches!(c.state, WavesState::Idle));
    assert_eq!(c.wave_number, 1);
}

#[test]
fn start_wave_queues_members() {
    let mut c = WavesConfig::new();
    let tmpl = carre::waves::WaveTemplate { name: "duo", members: vec![("mine", 2)] };
    c.start_wave(tmpl);
    assert_eq!(c.wave_number, 1);
    match &c.state {
        WavesState::Spawning { template_name, queue } => {
            assert_eq!(*template_name, "duo");
            assert_eq!(queue, &vec![("mine", 2)]);
        },
        _ => panic!(),
    }
    assert_eq!(c.tick(false, true, 0), Some(SpawnOrder::Request { name: "mine", count: 1 }));
    match &c.state {
        WavesState::Spawning { queue, .. } => assert_eq!(queue, &vec![("mine", 1)]),
        _ => panic!(),
    }
    assert_eq!(c.tick(false, true, 0), Some(SpawnOrder::Request { name: "mine", count: 1 }));
    assert!(matches!(c.state, WavesState::Waiting));
}

#[test]
fn member_missing_from_pool_spawns_nothing() {
    let mut c = WavesConfig::new();
    c.start_wave(carre::waves::WaveTemplate { name: "?", members: vec![("dragon", 1)] });
    assert_eq!(c.tick(false, true, 0), None);
    assert!(matches!(c.state, WavesState::Waiting));
}

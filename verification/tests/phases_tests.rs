use carre::phases::{
    all_dead, mothership_end, select_transition, BossPhaseTracker, BossWatch, LevelPhase,
    LevelPhaseInput, MothershipEnd, MothershipInput, MothershipPhase,
};

#[test]
fn boss_tiers() {
    let mut t = BossPhaseTracker::new();
    assert_eq!(t.phase, 1);
    assert!(!t.hp_threshold_check(false, 101, 150));
    assert!(t.hp_threshold_check(false, 100, 150));
    assert_eq!(t.phase, 2);
    // Invulnerable during the transition: no check.
    assert!(!t.hp_threshold_check(true, 10, 150));
    assert_eq!(t.phase, 2);
    // Both thresholds crossed at once: one tier per check.
    let mut u = BossPhaseTracker::new();
    assert!(u.hp_threshold_check(false, 0, 150));
    assert_eq!(u.phase, 2);
    assert!(u.hp_threshold_check(false, 0, 150));
    assert_eq!(u.phase, 3);
    assert!(!u.hp_threshold_check(false, 0, 150));
    assert_eq!(u.phase, 3);
    assert!(!t.hp_threshold_check(false, 51, 150));
    assert!(t.hp_threshold_check(false, 50, 150));
    assert_eq!(t.phase, 3);
}

fn input(intro_done: bool, intro_skipped: bool, level_complete: bool, countdown_done: bool) -> LevelPhaseInput {
    LevelPhaseInput { intro_done, intro_skipped, level_complete, countdown_done }
}

#[test]
fn level_phases() {
    let p = LevelPhase::Intro;
    assert_eq!(p.next(input(false, false, true, true)), LevelPhase::Intro);
    assert_eq!(p.next(input(true, false, false, false)), LevelPhase::Running);
    assert_eq!(p.next(input(false, true, false, false)), LevelPhase::Running);
    assert_eq!(LevelPhase::Running.next(input(false, false, true, false)), LevelPhase::OutroCountdown);
    assert_eq!(LevelPhase::Running.next(input(true, true, false, true)), LevelPhase::Running);
    assert_eq!(LevelPhase::OutroCountdown.next(input(false, false, true, true)), LevelPhase::Outro);
    assert_eq!(LevelPhase::Outro.next(input(true, true, true, true)), LevelPhase::Outro);
}

#[test]
fn boss_watch() {
    let mut w = BossWatch::new();
    assert!(!w.observe(false, false));
    assert!(!w.observe(true, false));
    assert!(w.boss_seen_alive);
    assert!(w.observe(false, false));
    assert!(!w.observe(false, true));
}

fn ms(entering_done: bool, transition_done: bool, gatlings_dead: bool, hearts_dead: bool) -> MothershipInput {
    MothershipInput { entering_done, transition_done, gatlings_dead, hearts_dead }
}

#[test]
fn mothership_phases() {
    let mut p = MothershipPhase::Entering;
    p = p.next(ms(false, false, true, true));
    assert_eq!(p, MothershipPhase::Entering);
    p = p.next(ms(true, false, false, false));
    assert_eq!(p, MothershipPhase::Phase1);
    p = p.next(ms(false, false, false, true));
    assert_eq!(p, MothershipPhase::Phase1);
    p = p.next(ms(false, false, true, false));
    assert_eq!(p, MothershipPhase::TransitionToPhase2);
    p = p.next(ms(false, true, true, false));
    assert_eq!(p, MothershipPhase::Phase2);
    p = p.next(ms(false, false, true, true));
    assert_eq!(p, MothershipPhase::Dying);
    assert_eq!(MothershipPhase::TransitionToPhase2.next(ms(false, false, true, true)), MothershipPhase::Dying);
    assert_eq!(mothership_end(true), MothershipEnd::SpawnNext);
    assert_eq!(mothership_end(false), MothershipEnd::LevelComplete);
}

#[test]
fn all_dead_groups() {
    assert!(all_dead(&[]));
    assert!(all_dead(&[true, true]));
    assert!(!all_dead(&[true, false]));
}

#[test]
fn transition_choice() {
    assert_eq!(select_transition(&[], &[]), None);
    assert_eq!(select_transition(&[5, 1], &[false, false]), None);
    assert_eq!(select_transition(&[0, 3, 3, 1], &[true, true, true, true]), Some(1));
    assert_eq!(select_transition(&[0, 3, 3, 1], &[true, false, true, true]), Some(2));
    assert_eq!(select_transition(&[-1, -1], &[true, true]), Some(0));
    assert_eq!(select_transition(&[2, 9], &[true, false]), Some(0));
}

#[test]
fn random_choice_in_range() {
    assert_eq!(carre::phases::random_choice(0), None);
    assert_eq!(carre::phases::random_choice(1), Some(0));
    for _ in 0..50 {
        let i = carre::phases::random_choice(4).unwrap();
        assert!(i < 4);
    }
}

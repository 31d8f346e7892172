use carre::experience::{xp_for_kill, Experience};

#[test]
fn thresholds() {
    assert_eq!(Experience::threshold_for(0), 0);
    assert_eq!(Experience::threshold_for(1), 50);
    assert_eq!(Experience::threshold_for(2), 150);
    assert_eq!(Experience::threshold_for(3), 300);
    assert_eq!(Experience::threshold_for(4), 500);
    assert_eq!(Experience::threshold_for(5), 750);
    assert_eq!(Experience::threshold_for(6), 1050);
}

#[test]
fn level_up_once_per_check() {
    let mut e = Experience::new();
    assert_eq!(e.current_threshold(), 0);
    assert_eq!(e.next_threshold(), 50);
    e.add(49);
    assert!(!e.check_level_up());
    e.add(1);
    assert!(e.check_level_up());
    assert_eq!(e.level, 1);
    assert_eq!(e.next_threshold(), 150);
    e.add(500);
    assert!(e.check_level_up());
    assert!(e.check_level_up());
    assert!(e.check_level_up());
    assert_eq!(e.level, 4);
    assert!(!e.check_level_up());
    assert_eq!(e.total, 550);
}

#[test]
fn kill_xp() {
    assert_eq!(xp_for_kill(5, 2), 10);
    assert_eq!(xp_for_kill(0, 3), 3);
    assert_eq!(xp_for_kill(-4, 3), 3);
    assert_eq!(xp_for_kill(150, 1), 150);
}

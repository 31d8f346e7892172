use carre::arena::{arena_pattern_names, choose_arena_with_roll, ArenaState};

#[test]
fn names() {
    let n = arena_pattern_names();
    assert_eq!(n.len(), 8);
    assert_eq!(n[0], "Vide");
    assert_eq!(n[7], "Forteresse haute");
}

#[test]
fn change_schedule() {
    let mut a = ArenaState::new();
    assert!(!a.should_change(0));
    assert_eq!(a.update(0), None);
    assert!(a.should_change(1));
    let first = a.update(1).expect("first arena at wave 1");
    assert_eq!(a.last_changed_wave, 1);
    assert_eq!(a.current_pattern, Some(arena_pattern_names()[first]));
    assert!(!a.should_change(2));
    assert!(!a.should_change(3));
    assert_eq!(a.update(3), None);
    assert!(a.should_change(4));
    let second = a.update(4).expect("change after three waves");
    assert_ne!(first, second);
    assert_eq!(a.last_changed_wave, 4);
    a.reset();
    assert_eq!(a.last_changed_wave, 0);
    assert_eq!(a.current_pattern, None);
}

#[test]
fn rotation_avoids_current() {
    let names = arena_pattern_names();
    assert_eq!(choose_arena_with_roll(&names, 3, None), 3);
    assert_eq!(choose_arena_with_roll(&names, 3, Some("Vide")), 3);
    assert_eq!(choose_arena_with_roll(&names, 3, Some("Trois piliers")), 4);
    assert_eq!(choose_arena_with_roll(&names, 7, Some("Forteresse haute")), 0);
    let one = vec!["Seul"];
    assert_eq!(choose_arena_with_roll(&one, 0, Some("Seul")), 0);
}

#[test]
fn always_different_from_current() {
    let mut a = ArenaState::new();
    let mut wave = 1;
    let mut prev = a.update(wave).unwrap();
    for _ in 0..50 {
        wave += 3;
        let next = a.update(wave).unwrap();
        assert_ne!(prev, next);
        prev = next;
    }
}

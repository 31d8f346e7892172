use carre::timeline::{LevelRunner, LevelStep, Trigger};

fn steps() -> Vec<LevelStep<&'static str>> {
    vec![
        LevelStep::at(0, "game_start").with("music").with("log"),
        LevelStep::at(7000, "countdown").with("countdown"),
        LevelStep::after(500, "right_after"),
        LevelStep::after_step("game_start", 10_000, "ten_after_start").with("boom"),
        LevelStep::at(35_800, "boss_spawn"),
    ]
}

#[test]
fn builders() {
    let s = LevelStep::<u8>::at(1500, "a").with(1).with(2);
    assert_eq!(s.label, "a");
    assert_eq!(s.trigger, Trigger::AtTime(1500));
    assert_eq!(s.actions, vec![1, 2]);
    assert_eq!(LevelStep::<u8>::after(3, "b").trigger, Trigger::AfterPrevious(3));
    assert_eq!(LevelStep::<u8>::after_step("a", 5, "c").trigger, Trigger::After("a", 5));
}

#[test]
fn runs_steps_in_order() {
    let mut r = LevelRunner::new(steps());
    assert_eq!(r.current_index(), 0);
    assert_eq!(r.last_label(), "(aucune)");
    assert!(!r.is_finished());
    assert_eq!(r.advance(16), vec![0]);
    assert_eq!(r.elapsed, 16);
    assert_eq!(r.last_label(), "game_start");
    assert_eq!(r.trigger_time("game_start"), Some(16));
    assert_eq!(r.advance(5000), Vec::<usize>::new());
    assert_eq!(r.current_step().unwrap().label, "countdown");
    assert_eq!(r.advance(2000), vec![1]);
    assert_eq!(r.elapsed, 7016);
    // Due at 7016 + 500.
    assert_eq!(r.advance(499), Vec::<usize>::new());
    assert_eq!(r.advance(1), vec![2]);
    // Due 10 s after game_start fired (16 ms).
    assert_eq!(r.advance(2_499), Vec::<usize>::new());
    assert_eq!(r.advance(1), vec![3]);
    assert_eq!(r.trigger_time("ten_after_start"), Some(10_016));
    assert_eq!(r.advance(100_000), vec![4]);
    assert!(r.is_finished());
    assert!(r.current_step().is_none());
    assert_eq!(r.advance(1), Vec::<usize>::new());
}

#[test]
fn several_steps_in_one_frame() {
    let mut r = LevelRunner::new(steps());
    assert_eq!(r.advance(40_000), vec![0, 1]);
    // The next step waits 500 ms after the previous one fired.
    assert_eq!(r.advance(499), Vec::<usize>::new());
    assert_eq!(r.advance(1), vec![2]);
    assert_eq!(r.trigger_time("right_after"), Some(40_500));
    // game_start fired at 40 000: the next step is due at 50 000.
    assert_eq!(r.advance(9_499), Vec::<usize>::new());
    assert_eq!(r.advance(1), vec![3, 4]);
}

#[test]
fn waits_for_unfired_reference() {
    let v: Vec<LevelStep<u8>> = vec![LevelStep::after_step("later", 0, "first"), LevelStep::at(0, "later")];
    let mut r = LevelRunner::new(v);
    assert_eq!(r.advance(1_000_000), Vec::<usize>::new());
    assert_eq!(r.trigger_time("later"), None);
}

#[test]
fn skip_to_label() {
    let mut r = LevelRunner::new(steps());
    assert_eq!(r.skip_to("ten_after_start", 12_000), vec![0, 1, 2, 3]);
    assert_eq!(r.elapsed, 12_000);
    assert_eq!(r.current_index(), 4);
    assert_eq!(r.trigger_time("countdown"), Some(12_000));
    // Skipping again to a label already run only moves the clock forward.
    assert_eq!(r.skip_to("countdown", 11_000), Vec::<usize>::new());
    assert_eq!(r.elapsed, 12_000);
    assert_eq!(r.skip_to("countdown", 13_000), Vec::<usize>::new());
    assert_eq!(r.elapsed, 13_000);
    assert_eq!(r.current_index(), 4);
}

#[test]
fn skip_to_unknown_label_runs_everything() {
    let mut r = LevelRunner::new(steps());
    r.advance(10);
    assert_eq!(r.skip_to("nowhere", 5), vec![1, 2, 3, 4]);
    assert!(r.is_finished());
    assert_eq!(r.elapsed, 5);
    assert_eq!(r.trigger_time("game_start"), Some(10));
}

#[test]
fn steps_accessor() {
    let r = LevelRunner::new(steps());
    assert_eq!(r.steps().len(), 5);
    assert_eq!(r.steps()[3].actions, vec!["boom"]);
}

#[test]
fn repeated_label_uses_latest_run() {
    let v: Vec<LevelStep<u8>> = vec![
        LevelStep::at(0, "tick"),
        LevelStep::at(100, "tick"),
        LevelStep::after_step("tick", 50, "after_tick"),
    ];
    let mut r = LevelRunner::new(v);
    assert_eq!(r.advance(0), vec![0]);
    assert_eq!(r.advance(100), vec![1]);
    assert_eq!(r.trigger_time("tick"), Some(100));
    assert_eq!(r.advance(49), Vec::<usize>::new());
    assert_eq!(r.advance(1), vec![2]);
}

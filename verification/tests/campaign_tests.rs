use carre::campaign::{
    escape_outcome, first_available, game_over_next_state, outro_decision, CampaignProgress,
    ConfirmKey, ConfirmOutcome, ConfirmPopup, EscapeOutcome, GameOverKey, GameProgress, GameState,
    LevelSelectState, NavDirection, PlayMode,
};

#[test]
fn game_progress_default() {
    let p = GameProgress::new();
    assert_eq!(p.current_level, 1);
    assert_eq!(p.total_levels, 2);
}

#[test]
fn campaign_set() {
    let mut c = CampaignProgress::new();
    assert!(c.is_empty());
    c.insert(2);
    c.insert(2);
    c.insert(1);
    assert_eq!(c.len(), 2);
    assert!(c.contains(1) && c.contains(2) && !c.contains(3));
}

#[test]
fn first_available_slot() {
    let mut c = CampaignProgress::new();
    assert_eq!(first_available(2, &c), 0);
    c.insert(1);
    assert_eq!(first_available(2, &c), 1);
    c.insert(2);
    assert_eq!(first_available(2, &c), 0);
    assert_eq!(first_available(9, &c), 2);
}

#[test]
fn grid_navigation() {
    let none = CampaignProgress::new();
    let mut s = LevelSelectState::new(2, &none);
    assert_eq!((s.selected, s.total), (0, 4));
    s.navigate(NavDirection::Right, &none);
    assert_eq!(s.selected, 1);
    s.navigate(NavDirection::Right, &none);
    assert_eq!(s.selected, 1);
    s.navigate(NavDirection::Down, &none);
    assert_eq!(s.selected, 3);
    s.navigate(NavDirection::Down, &none);
    assert_eq!(s.selected, 3);
    s.navigate(NavDirection::Left, &none);
    assert_eq!(s.selected, 2);
    s.navigate(NavDirection::Up, &none);
    assert_eq!(s.selected, 0);
    s.navigate(NavDirection::Left, &none);
    assert_eq!(s.selected, 0);
}

#[test]
fn completed_slots_are_skipped() {
    let mut done = CampaignProgress::new();
    done.insert(2);
    let mut s = LevelSelectState::new(2, &done);
    assert_eq!(s.selected, 0);
    s.navigate(NavDirection::Right, &done);
    assert_eq!(s.selected, 0);
    assert_eq!(s.launch(&done), Some(1));
    s.navigate(NavDirection::Down, &done);
    assert_eq!(s.selected, 2);
    assert_eq!(s.launch(&done), Some(3));
    done.insert(3);
    assert_eq!(s.launch(&done), None);
}

#[test]
fn escape() {
    let mut c = CampaignProgress::new();
    assert_eq!(escape_outcome(PlayMode::Primes, &c), EscapeOutcome::BackToMenu);
    assert_eq!(escape_outcome(PlayMode::Campaign, &c), EscapeOutcome::BackToMenu);
    c.insert(1);
    assert_eq!(escape_outcome(PlayMode::Campaign, &c), EscapeOutcome::AskConfirmation);
    assert_eq!(escape_outcome(PlayMode::Primes, &c), EscapeOutcome::BackToMenu);
}

#[test]
fn confirm_popup() {
    let mut p = ConfirmPopup::new();
    assert_eq!(p.selected, 0);
    assert_eq!(p.press(ConfirmKey::Accept), ConfirmOutcome::Close);
    assert_eq!(p.press(ConfirmKey::Right), ConfirmOutcome::Stay);
    assert_eq!(p.selected, 1);
    assert_eq!(p.press(ConfirmKey::Cancel), ConfirmOutcome::Close);
    assert_eq!(p.press(ConfirmKey::Accept), ConfirmOutcome::QuitToMenu);
    assert_eq!(p.press(ConfirmKey::Left), ConfirmOutcome::Stay);
    assert_eq!(p.selected, 0);
}

#[test]
fn outro_in_campaign() {
    let d = outro_decision(Some(PlayMode::Campaign), Some(CampaignProgress::new()), 1, 2);
    assert_eq!(d.next_state, Some(GameState::LevelSelect));
    assert!(!d.clear_mode);
    let camp = d.campaign.expect("campaign goes on");
    assert!(camp.contains(1));
    let d = outro_decision(Some(PlayMode::Campaign), Some(camp), 2, 2);
    assert_eq!(d.next_state, Some(GameState::Credits));
    assert!(d.clear_mode);
    assert!(d.campaign.is_none());
}

#[test]
fn outro_replay_does_not_finish_campaign() {
    let mut c = CampaignProgress::new();
    c.insert(1);
    let d = outro_decision(Some(PlayMode::Campaign), Some(c), 1, 2);
    assert_eq!(d.next_state, Some(GameState::LevelSelect));
    assert_eq!(d.campaign.unwrap().len(), 1);
}

#[test]
fn outro_other_modes() {
    let d = outro_decision(Some(PlayMode::Primes), None, 1, 2);
    assert_eq!(d.next_state, Some(GameState::LevelSelect));
    let d = outro_decision(None, None, 1, 2);
    assert_eq!(d.next_state, Some(GameState::MainMenu));
    let d = outro_decision(Some(PlayMode::Campaign), None, 1, 2);
    assert_eq!(d.next_state, None);
    assert!(!d.clear_mode);
}

#[test]
fn game_over_keys() {
    assert_eq!(game_over_next_state(None, GameOverKey::Restart), Some(GameState::Playing));
    assert_eq!(game_over_next_state(Some(PlayMode::Primes), GameOverKey::Quit), Some(GameState::MainMenu));
    assert_eq!(game_over_next_state(Some(PlayMode::Campaign), GameOverKey::Restart), None);
    assert_eq!(game_over_next_state(Some(PlayMode::Campaign), GameOverKey::Quit), None);
}

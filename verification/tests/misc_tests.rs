use carre::anim::{cycle_next, FramePlayback};
use carre::combat::{resolve_projectile_hits, ProjectileOverlap};
use carre::frames::{frame_order, parse_frame_index};
use carre::items::{bomb_damage, BombTarget, ItemType, PlayerBombs, BONUS_SCORE_VALUE};
use carre::turret::{gatling_mode, GatlingMode, PatternCursor, ShotAnim};

#[test]
fn frame_cycle() {
    assert_eq!(cycle_next(0, 3), 1);
    assert_eq!(cycle_next(2, 3), 0);
    assert_eq!(cycle_next(0, 1), 0);
}

#[test]
fn looping_playback() {
    let mut p = FramePlayback::new();
    assert_eq!(p.advance(3), Some(1));
    assert_eq!(p.advance(3), Some(2));
    assert_eq!(p.advance(3), Some(0));
}

#[test]
fn one_shot_playback() {
    let mut p = FramePlayback::new().one_shot();
    assert_eq!(p.advance(2), Some(1));
    assert_eq!(p.advance(2), None);
    assert!(p.completed);
    assert_eq!(p.current_frame, 1);
    assert_eq!(p.advance(2), None);
}

#[test]
fn bombs() {
    let mut b = PlayerBombs::new();
    assert!(!b.fire());
    assert_eq!(b.count, 0);
    assert!(!b.hint_shown());
    assert_eq!(b.pick_up(ItemType::Bomb), 0);
    assert_eq!(b.pick_up(ItemType::BonusScore), BONUS_SCORE_VALUE);
    assert_eq!(b.pick_up(ItemType::Bomb), 0);
    assert_eq!(b.count, 2);
    assert!(b.icon_visible(0) && b.icon_visible(1) && !b.icon_visible(2));
    assert!(b.hint_shown());
    assert!(b.fire());
    assert_eq!(b.count, 1);
}

#[test]
fn bomb_damages() {
    assert_eq!(bomb_damage(BombTarget::Asteroid), Some(999));
    assert_eq!(bomb_damage(BombTarget::OtherEnemy), Some(50));
    assert_eq!(bomb_damage(BombTarget::Kamikaze), None);
}

fn ov(projectile: u64, target: u64, target_layer: u32) -> ProjectileOverlap {
    ProjectileOverlap { projectile, target, target_layer }
}

#[test]
fn projectile_consumed_by_first_hit() {
    let events = vec![ov(1, 10, 0b100), ov(1, 11, 0b100), ov(2, 10, 0b001), ov(2, 12, 0b010), ov(3, 12, 0b110)];
    assert_eq!(resolve_projectile_hits(&events, 0b110), vec![0, 3, 4]);
    assert_eq!(resolve_projectile_hits(&events, 0), Vec::<usize>::new());
}

#[test]
fn gatling_modes() {
    assert_eq!(gatling_mode("aim_and_shoot"), GatlingMode::AimAndShoot);
    assert_eq!(gatling_mode("full_auto"), GatlingMode::FullAuto);
    assert_eq!(gatling_mode("idle"), GatlingMode::Idle);
    assert_eq!(gatling_mode("dance"), GatlingMode::Unknown);
}

#[test]
fn pattern_cycle() {
    let mut c = PatternCursor { started: 0 };
    assert_eq!(c.start_next(2), (0, 1));
    assert_eq!(c.start_next(2), (1, 0));
    assert_eq!(c.start_next(2), (0, 1));
    assert_eq!(c.started, 3);
    let mut one = PatternCursor { started: 7 };
    assert_eq!(one.start_next(1), (0, 0));
}

#[test]
fn shot_animation() {
    let mut a = ShotAnim::new();
    let t = a.tick(false, 4);
    assert_eq!((t.show_frame, t.fire, t.rest), (None, false, false));
    let t = a.tick(true, 4);
    assert_eq!((t.show_frame, t.fire, t.rest), (Some(1), false, false));
    let t = a.tick(true, 4);
    assert_eq!((t.show_frame, t.fire, t.rest), (Some(2), true, false));
    let t = a.tick(true, 4);
    assert_eq!((t.show_frame, t.fire, t.rest), (Some(3), false, false));
    let t = a.tick(true, 4);
    assert_eq!((t.show_frame, t.fire, t.rest), (None, false, true));
}

#[test]
fn frame_file_names() {
    assert_eq!(parse_frame_index(b"frame000.png"), Some(0));
    assert_eq!(parse_frame_index(b"frame12.png"), Some(12));
    assert_eq!(parse_frame_index(b"frame+7.png"), Some(7));
    assert_eq!(parse_frame_index(b"frame.png"), None);
    assert_eq!(parse_frame_index(b"frame+.png"), None);
    assert_eq!(parse_frame_index(b"frame1a.png"), None);
    assert_eq!(parse_frame_index(b"frame-1.png"), None);
    assert_eq!(parse_frame_index(b"Frame1.png"), None);
    assert_eq!(parse_frame_index(b"frame1.jpg"), None);
    assert_eq!(parse_frame_index(b"frame99999999999999999999999.png"), None);
    assert_eq!(parse_frame_index(b"frame18446744073709551615.png"), Some(usize::MAX));
    for name in ["frame001.png", "frame42.png", "frame+3.png", "frame0x1.png", "frame 1.png"] {
        let rest = name.strip_prefix("frame").and_then(|r| r.strip_suffix(".png"));
        let expected = rest.and_then(|r| r.parse::<usize>().ok());
        assert_eq!(parse_frame_index(name.as_bytes()), expected);
    }
}

#[test]
fn frame_sorting_is_stable() {
    let idx = vec![3, 1, 2, 1, 0];
    assert_eq!(frame_order(&idx), vec![4, 1, 3, 2, 0]);
    assert_eq!(frame_order(&vec![]), Vec::<usize>::new());
}

use carre::levels::{all_levels, level_def, level_name, ScrollDirection};

#[test]
fn scroll_direction_horizontal() {
    assert!(!ScrollDirection::Down.is_horizontal());
    assert!(!ScrollDirection::Up.is_horizontal());
    assert!(ScrollDirection::Left.is_horizontal());
    assert!(ScrollDirection::Right.is_horizontal());
}

#[test]
fn registry_lists_both_levels_in_order() {
    let levels = all_levels();
    assert_eq!(levels.len(), 2);
    assert_eq!(levels[0].name, "Space Invader");
    assert_eq!(levels[1].name, "MotherShip");
}

#[test]
fn level_one_is_space_invader() {
    let d = level_def(1);
    assert_eq!(d.name, "Space Invader");
    assert_eq!(d.player_ship, "images/player_ship/ship_0.png");
    assert_eq!(d.background_tile, "images/backgrounds/space_background_tile.png");
    assert_eq!(d.scroll_direction, ScrollDirection::Down);
}

#[test]
fn level_two_is_mothership() {
    let d = level_def(2);
    assert_eq!(d.name, "MotherShip");
    assert_eq!(d.player_ship, "images/player_ship/ship_1.png");
    assert_eq!(d.background_tile, "images/backgrounds/space_background_tile_2.png");
    assert_eq!(d.scroll_direction, ScrollDirection::Left);
}

#[test]
fn unknown_level_falls_back_on_first() {
    assert_eq!(level_def(3).name, "Space Invader");
    assert_eq!(level_def(99).scroll_direction, ScrollDirection::Down);
    assert_eq!(level_name(7), "Space Invader");
}

#[test]
fn level_names() {
    assert_eq!(level_name(1), "Space Invader");
    assert_eq!(level_name(2), "MotherShip");
}

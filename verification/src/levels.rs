//! Registry of the game's levels.
//!
//! Each level is described by a `LevelDef`: displayed name, player ship
//! sprite, background tile and background scroll direction. Levels are
//! numbered from 1.
use vstd::prelude::*;

verus! {

/// Direction in which the background scrolls.
#[derive(Clone, Copy, Debug, PartialEq, Eq)]
pub enum ScrollDirection {
    /// Vertical scroll, top to bottom.
    Down,
    /// Vertical scroll, bottom to top.
    Up,
    /// Horizontal scroll, right to left.
    Left,
    /// Horizontal scroll, left to right.
    Right,
}

impl ScrollDirection {
    /// Is the scroll horizontal?
    pub fn is_horizontal(self) -> (r: bool)
        ensures
            r == (self == ScrollDirection::Left || self == ScrollDirection::Right),
    {
        match self {
            ScrollDirection::Left | ScrollDirection::Right => true,
            _ => false,
        }
    }
}

/// Definition of a level: visual configuration.
#[derive(Clone, Copy, Debug)]
pub struct LevelDef {
    /// Displayed name (menu, debug).
    pub name: &'static str,
    /// Player ship sprite (path under assets/).
    pub player_ship: &'static str,
    /// Background tile image (path under assets/).
    pub background_tile: &'static str,
    /// Background scroll direction.
    pub scroll_direction: ScrollDirection,
}

/// Number of levels in the registry.
pub open spec fn level_count() -> nat {
    2
}

/// Level 1 — Space Invader: vertical scroll (top to bottom).
pub fn level_space_invader() -> (d: LevelDef)
    ensures
        d.name@ == "Space Invader"@,
        d.player_ship@ == "images/player_ship/ship_0.png"@,
        d.background_tile@ == "images/backgrounds/space_background_tile.png"@,
        d.scroll_direction == ScrollDirection::Down,
{
    LevelDef {
        name: "Space Invader",
        player_ship: "images/player_ship/ship_0.png",
        background_tile: "images/backgrounds/space_background_tile.png",
        scroll_direction: ScrollDirection::Down,
    }
}

/// Level 2 — MotherShip: horizontal scroll (right to left).
pub fn level_mothership() -> (d: LevelDef)
    ensures
        d.name@ == "MotherShip"@,
        d.player_ship@ == "images/player_ship/ship_1.png"@,
        d.background_tile@ == "images/backgrounds/space_background_tile_2.png"@,
        d.scroll_direction == ScrollDirection::Left,
{
    LevelDef {
        name: "MotherShip",
        player_ship: "images/player_ship/ship_1.png",
        background_tile: "images/backgrounds/space_background_tile_2.png",
        scroll_direction: ScrollDirection::Left,
    }
}

/// The definition of the level at 0-based position `i` in the registry.
pub open spec fn is_level_at(d: LevelDef, i: int) -> bool {
    if i == 0 {
        &&& d.name@ == "Space Invader"@
        &&& d.player_ship@ == "images/player_ship/ship_0.png"@
        &&& d.background_tile@ == "images/backgrounds/space_background_tile.png"@
        &&& d.scroll_direction == ScrollDirection::Down
    } else {
        &&& i == 1
        &&& d.name@ == "MotherShip"@
        &&& d.player_ship@ == "images/player_ship/ship_1.png"@
        &&& d.background_tile@ == "images/backgrounds/space_background_tile_2.png"@
        &&& d.scroll_direction == ScrollDirection::Left
    }
}

/// Displayed name of the level at 0-based position `i` in the registry.
pub open spec fn level_name_at(i: int) -> Seq<char> {
    if i == 0 {
        "Space Invader"@
    } else {
        "MotherShip"@
    }
}

/// Registry position used for the 1-based level number `level`: levels
/// outside the registry fall back on the first one.
pub open spec fn level_slot(level: int) -> int {
    if 1 <= level <= level_count() {
        level - 1
    } else {
        0
    }
}

/// Ordered list of all levels (level `n` is at index `n - 1`).
pub fn all_levels() -> (v: Vec<LevelDef>)
    ensures
        v.len() == level_count(),
        forall|i: int| 0 <= i < v.len() ==> is_level_at(#[trigger] v@[i], i),
{
    let mut v: Vec<LevelDef> = Vec::new();
    v.push(level_space_invader());
    v.push(level_mothership());
    v
}

/// Definition of level `level` (1-based); an unknown level number gives
/// the first level.
pub fn level_def(level: usize) -> (d: LevelDef)
    requires
        level >= 1,
    ensures
        is_level_at(d, level_slot(level as int)),
{
    let levels = all_levels();
    let idx = level - 1;
    if idx < levels.len() {
        levels[idx]
    } else {
        levels[0]
    }
}

/// Name of level `level` (1-based); an unknown level number gives the name
/// of the first level.
pub fn level_name(level: usize) -> (name: &'static str)
    requires
        level >= 1,
    ensures
        name@ == level_name_at(level_slot(level as int)),
{
    let d = level_def(level);
    d.name
}

} // verus!

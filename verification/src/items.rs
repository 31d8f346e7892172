//! Items dropped by enemies and the player's bombs.
//!
//! A bomb item adds a bomb to the player's stock; a bonus item adds score.
//! The player fires a bomb (a last resort that clears the screen) as long
//! as the stock is not empty.
use vstd::prelude::*;

verus! {

/// Score granted by the bonus item.
pub const BONUS_SCORE_VALUE: i32 = 50;
/// Damage a bomb deals to asteroids.
pub const BOMB_DAMAGE_ASTEROID: i32 = 999;
/// Damage a bomb deals to other enemies.
pub const BOMB_DAMAGE_ENEMY: i32 = 50;
/// Number of bomb icons shown by the UI.
pub const BOMB_MAX_DISPLAY: i32 = 10;

/// Kinds of items.
#[derive(Clone, Copy, Debug, PartialEq, Eq)]
pub enum ItemType {
    Bomb,
    BonusScore,
}

/// What a target hit by a bomb suffers.
#[derive(Clone, Copy, Debug, PartialEq, Eq)]
pub enum BombTarget {
    Asteroid,
    /// Removed outright (no score, no drop).
    Kamikaze,
    OtherEnemy,
}

/// Damage a bomb deals to a target, `None` for a target that is removed
/// without taking damage.
pub fn bomb_damage(target: BombTarget) -> (d: Option<i32>)
    ensures
        d == match target {
            BombTarget::Asteroid => Some(BOMB_DAMAGE_ASTEROID),
            BombTarget::OtherEnemy => Some(BOMB_DAMAGE_ENEMY),
            BombTarget::Kamikaze => None::<i32>,
        },
{
    match target {
        BombTarget::Asteroid => Some(BOMB_DAMAGE_ASTEROID),
        BombTarget::OtherEnemy => Some(BOMB_DAMAGE_ENEMY),
        BombTarget::Kamikaze => None,
    }
}

/// The player's bomb stock.
#[derive(Clone, Copy, Debug, PartialEq, Eq)]
pub struct PlayerBombs {
    pub count: i32,
}

/// Bombs in stock after picking up `item` with `count` in stock.
pub open spec fn stock_after_pick_up(count: int, item: ItemType) -> int {
    match item {
        ItemType::Bomb => count + 1,
        ItemType::BonusScore => count,
    }
}

/// Bombs in stock after trying to fire one with `count` in stock.
pub open spec fn stock_after_fire(count: int) -> int {
    if count > 0 {
        count - 1
    } else {
        count
    }
}

/// Picking up a bomb and firing it gives the stock back as it was, and the
/// bomb does fire.
pub proof fn lemma_pick_up_then_fire(count: int)
    requires
        count >= 0,
    ensures
        stock_after_pick_up(count, ItemType::Bomb) > 0,
        stock_after_fire(stock_after_pick_up(count, ItemType::Bomb)) == count,
{
}

/// The stock never goes below zero, whatever is picked up or fired.
pub proof fn lemma_stock_never_negative(count: int, item: ItemType)
    requires
        count >= 0,
    ensures
        stock_after_pick_up(count, item) >= 0,
        stock_after_fire(count) >= 0,
{
}

impl PlayerBombs {
    /// No bomb.
    pub fn new() -> (b: Self)
        ensures
            b.count == 0,
    {
        PlayerBombs { count: 0 }
    }

    /// Picks up an item: a bomb goes to the stock; a bonus returns the
    /// score to add. Returns the score gained.
    pub fn pick_up(&mut self, item: ItemType) -> (score: i32)
        requires
            item == ItemType::Bomb ==> old(self).count < i32::MAX,
        ensures
            final(self).count == stock_after_pick_up(old(self).count as int, item),
            score == if item == ItemType::BonusScore { BONUS_SCORE_VALUE } else { 0 },
    {
        match item {
            ItemType::Bomb => {
                self.count = self.count + 1;
                0
            },
            ItemType::BonusScore => BONUS_SCORE_VALUE,
        }
    }

    /// Fires a bomb if the stock is not empty: one bomb is used and `true`
    /// is returned. An empty stock fires nothing.
    pub fn fire(&mut self) -> (fired: bool)
        ensures
            fired == (old(self).count > 0),
            final(self).count == stock_after_fire(old(self).count as int),
    {
        if self.count > 0 {
            self.count = self.count - 1;
            true
        } else {
            false
        }
    }

    /// Is bomb icon `icon` (0-based) lit?
    pub fn icon_visible(&self, icon: i32) -> (r: bool)
        ensures
            r == (icon < self.count),
    {
        icon < self.count
    }

    /// Is the "[ESPACE]" hint shown at all (it blinks only with bombs)?
    pub fn hint_shown(&self) -> (r: bool)
        ensures
            r == (self.count != 0),
    {
        self.count != 0
    }
}

} // verus!

//! Level-up through experience thresholds.
//!
//! Every kill adds `max_hp × combo multiplier` experience. When the total
//! reaches the threshold of the next level, the player levels up and picks
//! a card. Thresholds grow as `25 × n × (n + 1)`: 50, 150, 300, 500, …
use vstd::prelude::*;

verus! {

/// Experience needed to reach level `n` (from 0).
pub open spec fn threshold_spec(n: int) -> int {
    25 * n * (n + 1)
}

/// The player's progression: total experience of the run and number of
/// thresholds crossed (= cards picked).
#[derive(Clone, Copy, Debug, Default, PartialEq, Eq)]
pub struct Experience {
    pub total: i32,
    pub level: i32,
}

/// `threshold_spec(n)` and its intermediate product fit in an `i32`.
pub open spec fn threshold_fits(n: int) -> bool {
    &&& n + 1 <= i32::MAX
    &&& i32::MIN <= 25 * n <= i32::MAX
    &&& i32::MIN <= threshold_spec(n) <= i32::MAX
}

impl Experience {
    /// No experience, level 0.
    pub fn new() -> (e: Self)
        ensures
            e.total == 0,
            e.level == 0,
    {
        Experience { total: 0, level: 0 }
    }

    /// Adds experience.
    pub fn add(&mut self, amount: i32)
        requires
            i32::MIN <= old(self).total + amount <= i32::MAX,
        ensures
            final(self).total == old(self).total + amount,
            final(self).level == old(self).level,
            // Gaining experience never puts the level ahead of the total.
            amount >= 0 && old(self).total >= threshold_spec(old(self).level as int) ==> final(self).total
                >= threshold_spec(final(self).level as int),
    {
        self.total = self.total + amount;
    }

    /// Experience needed to reach level `n` (from 0): `25 × n × (n + 1)`.
    pub fn threshold_for(n: i32) -> (t: i32)
        requires
            threshold_fits(n as int),
        ensures
            t as int == threshold_spec(n as int),
    {
        assert(25 * n * (n + 1) == (25 * n) * (n + 1)) by (nonlinear_arith);
        25 * n * (n + 1)
    }

    /// Experience needed for the current level.
    pub fn current_threshold(&self) -> (t: i32)
        requires
            threshold_fits(self.level as int),
        ensures
            t as int == threshold_spec(self.level as int),
    {
        Self::threshold_for(self.level)
    }

    /// Experience needed for the next level.
    pub fn next_threshold(&self) -> (t: i32)
        requires
            threshold_fits(self.level + 1),
        ensures
            t as int == threshold_spec(self.level + 1),
    {
        Self::threshold_for(self.level + 1)
    }

    /// Levels up once if the total has reached the next threshold: the
    /// level goes up by one and `true` is returned (a card is to be
    /// offered). Otherwise nothing changes.
    pub fn check_level_up(&mut self) -> (up: bool)
        requires
            threshold_fits(old(self).level + 1),
        ensures
            up == (old(self).total >= threshold_spec(old(self).level + 1)),
            final(self).total == old(self).total,
            final(self).level == if up { old(self).level + 1 } else { old(self).level as int },
            // The level never runs ahead of the experience gathered.
            old(self).total >= threshold_spec(old(self).level as int) ==> final(self).total
                >= threshold_spec(final(self).level as int),
    {
        if self.total >= self.next_threshold() {
            self.level = self.level + 1;
            true
        } else {
            false
        }
    }
}

/// Experience earned by a kill: the enemy's max HP (at least 1) times the
/// combo multiplier.
pub fn xp_for_kill(max_hp: i32, multiplier: i32) -> (xp: i32)
    requires
        i32::MIN <= (if max_hp > 1 { max_hp as int } else { 1 }) * multiplier <= i32::MAX,
    ensures
        xp as int == (if max_hp > 1 { max_hp as int } else { 1 }) * multiplier,
{
    let hp = if max_hp > 1 { max_hp } else { 1 };
    hp * multiplier
}

/// The thresholds grow strictly from level 0 on: each level costs more
/// experience than the one before.
pub proof fn lemma_threshold_increasing(m: int, n: int)
    requires
        0 <= m < n,
    ensures
        threshold_spec(m) < threshold_spec(n),
{
    assert(25 * m * (m + 1) < 25 * n * (n + 1)) by (nonlinear_arith)
        requires 0 <= m < n;
}

/// Consecutive thresholds are `50 × (n + 1)` apart.
pub proof fn lemma_level_gap(n: int)
    requires
        n >= 0,
    ensures
        threshold_spec(n + 1) - threshold_spec(n) == 50 * (n + 1),
{
    assert(25 * (n + 1) * (n + 2) - 25 * n * (n + 1) == 50 * (n + 1)) by (nonlinear_arith);
}

} // verus!

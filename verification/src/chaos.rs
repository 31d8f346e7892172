//! "Chaos" level: tiers with a budget of points.
//!
//! Each tier draws a random budget that grows with the tier. While the
//! tier lasts, enemies are bought at regular intervals: a weighted draw
//! among the affordable enemies, whose cost is then spent. A tier ends
//! when its budget is spent or its time is over; a short cooldown follows,
//! then the next tier with a bigger budget.
use vstd::prelude::*;
use crate::enemy_pool::{
    EnemyTuning, SpawnOrder, affordable, default_tunings, default_tunings_spec, find_tuning,
    has_named, is_first_named, lemma_first_named_unique, pick_enemy, spawn_order, spawn_order_of,
    total_affordable_weight,
};
use crate::rng::{random_u32_in, same_name};

verus! {

/// Budget range `(min, max)` of tier `tier`.
pub open spec fn tier_budget_spec(tier: int) -> (int, int) {
    if tier <= 1 {
        (15, 35)
    } else if tier == 2 {
        (30, 70)
    } else if tier == 3 {
        (50, 120)
    } else if tier == 4 {
        (80, 180)
    } else if tier == 5 {
        (120, 250)
    } else if tier == 6 {
        (180, 350)
    } else {
        (tier * 40, tier * 60)
    }
}

/// Budget range `(min, max)` of a tier. Tiers 0 and 1 share the first
/// range; from tier 7 on the budget grows linearly (tier×40 .. tier×60).
pub fn tier_budget(tier: u32) -> (r: (u32, u32))
    requires
        tier * 60 <= u32::MAX,
    ensures
        r.0 as int == tier_budget_spec(tier as int).0,
        r.1 as int == tier_budget_spec(tier as int).1,
{
    match tier {
        0 | 1 => (15, 35),
        2 => (30, 70),
        3 => (50, 120),
        4 => (80, 180),
        5 => (120, 250),
        6 => (180, 350),
        _ => (tier * 40, tier * 60),
    }
}

/// A budget range is never inverted.
pub proof fn lemma_tier_budget_ordered(tier: int)
    requires
        tier >= 0,
    ensures
        0 < tier_budget_spec(tier).0 <= tier_budget_spec(tier).1,
{
}

/// Budgets grow with the tiers: from tier 1 on, neither end of the range
/// ever goes down from one tier to the next; tiers 0 and 1 draw between 15
/// and 35 points, and from tier 7 on a tier `t` draws between `40 t` and
/// `60 t` points.
pub proof fn lemma_tier_budget_grows(tier: int)
    requires
        tier >= 1,
    ensures
        tier_budget_spec(tier).0 <= tier_budget_spec(tier + 1).0,
        tier_budget_spec(tier).1 <= tier_budget_spec(tier + 1).1,
        tier_budget_spec(0) == (15int, 35int),
        tier_budget_spec(1) == (15int, 35int),
        tier >= 7 ==> tier_budget_spec(tier) == (40 * tier, 60 * tier),
{
}

/// Spending the cost of any enemy that can be drawn (affordable, with a
/// positive weight) leaves a budget that fits in an `i32` (a cost above
/// `i32::MAX` is read as a negative price).
pub open spec fn spending_fits(enemies: Seq<EnemyTuning>, budget: int) -> bool {
    forall|i: int|
        0 <= i < enemies.len() && affordable(#[trigger] enemies[i], budget) && enemies[i].weight > 0
            ==> budget - (enemies[i].cost as i32) <= i32::MAX
}

/// Every cost of the pool is read as a non-negative `i32`.
pub open spec fn costs_fit(enemies: Seq<EnemyTuning>) -> bool {
    forall|i: int| 0 <= i < enemies.len() ==> #[trigger] enemies[i].cost <= i32::MAX
}

/// Phase of the chaos spawner. The tier, spawn and cooldown timers are
/// kept by the caller, which reports their expiry to `ChaosConfig::tick`.
#[derive(Clone, Copy, Debug, PartialEq, Eq)]
pub enum ChaosState {
    /// A tier is running with `budget` points left to spend.
    Active { budget: i32 },
    /// Pause before the next tier.
    Cooldown,
}

/// State of the chaos level: enemy pool, current tier, phase.
#[derive(Debug)]
pub struct ChaosConfig {
    pub enemies: Vec<EnemyTuning>,
    pub tier: u32,
    pub state: ChaosState,
}

/// The active state for a budget drawn as `b` (the draw is converted with
/// `as i32`).
pub open spec fn drawn_budget(b: u32) -> ChaosState {
    ChaosState::Active { budget: b as i32 }
}

/// The pool without the enemies named `name`.
pub open spec fn excluded(s: Seq<EnemyTuning>, name: Seq<char>) -> Seq<EnemyTuning> {
    s.filter(|e: EnemyTuning| e.name@ != name)
}

/// Position of the first enemy named `name` in a pool that has one.
pub open spec fn first_named_index(s: Seq<EnemyTuning>, name: Seq<char>) -> int {
    choose|i: int| is_first_named(s, name, i)
}

/// The pool with the default tuning of `name` added back at its end, when
/// the pool has no enemy of that name and the default pool has one.
pub open spec fn restored(s: Seq<EnemyTuning>, name: Seq<char>) -> Seq<EnemyTuning> {
    if has_named(s, name) || !has_named(default_tunings_spec(), name) {
        s
    } else {
        s.push(default_tunings_spec()[first_named_index(default_tunings_spec(), name)])
    }
}

/// No enemy named `name` is left once the pool is without it.
pub proof fn lemma_excluded_has_none(s: Seq<EnemyTuning>, name: Seq<char>)
    ensures
        !has_named(excluded(s, name), name),
{
    broadcast use vstd::seq_lib::group_filter_ensures;

    assert forall|i: int| 0 <= i < excluded(s, name).len() implies excluded(s, name)[i].name@ != name by {
        assert((|e: EnemyTuning| e.name@ != name)(excluded(s, name)[i]));
    }
}

/// Excluding an enemy and restoring it gives the pool without it, with its
/// default tuning back at the end: one enemy of that name, as in the
/// default pool.
pub proof fn lemma_exclude_then_restore(s: Seq<EnemyTuning>, name: Seq<char>)
    requires
        has_named(default_tunings_spec(), name),
    ensures
        restored(excluded(s, name), name) == excluded(s, name).push(
            default_tunings_spec()[first_named_index(default_tunings_spec(), name)],
        ),
        is_first_named(default_tunings_spec(), name, first_named_index(default_tunings_spec(), name)),
{
    lemma_excluded_has_none(s, name);
    lemma_has_named_first(default_tunings_spec(), name);
}

/// A pool holding an enemy named `name` has a first one.
pub proof fn lemma_has_named_first(s: Seq<EnemyTuning>, name: Seq<char>)
    requires
        has_named(s, name),
    ensures
        is_first_named(s, name, first_named_index(s, name)),
    decreases s.len(),
{
    let i = choose|i: int| 0 <= i < s.len() && s[i].name@ == name;
    lemma_first_named_exists(s, name, i);
}

proof fn lemma_first_named_exists(s: Seq<EnemyTuning>, name: Seq<char>, i: int)
    requires
        0 <= i < s.len(),
        s[i].name@ == name,
    ensures
        exists|k: int| is_first_named(s, name, k),
    decreases i,
{
    if forall|j: int| 0 <= j < i ==> s[j].name@ != name {
        assert(is_first_named(s, name, i));
    } else {
        let j = choose|j: int| 0 <= j < i && s[j].name@ == name;
        lemma_first_named_exists(s, name, j);
    }
}

/// A chaos machine as a plain value: pool, tier, phase.
pub type ChaosView = (Seq<EnemyTuning>, u32, ChaosState);

/// What one tick keeps between two states `a` and `b` of the machine: the
/// pool does not change; the tier goes up by one exactly when a cooldown
/// gives way to a tier, and stays otherwise; a tier with a budget of at
/// least 0 keeps one (given a tier whose budgets fit in an `i32`).
pub open spec fn chaos_tick_rel(a: ChaosView, b: ChaosView) -> bool {
    &&& b.0 == a.0
    &&& if a.2 == ChaosState::Cooldown && b.2 is Active {
        b.1 == a.1 + 1
    } else {
        b.1 == a.1
    }
    &&& (a.2 matches ChaosState::Active { budget } ==> budget >= 0) && (a.1 + 1) * 60 <= i32::MAX ==> (
    b.2 matches ChaosState::Active { budget } ==> budget >= 0)
}

/// A run of the chaos machine from a state with no running tier (as
/// `ChaosConfig::new` makes it, pool excluded or restored or not), tick
/// after tick: the pool never changes, every running tier has a budget of
/// at least 0 (a purchase only spends what the budget holds), and the tier
/// goes up by exactly one on each cooldown that gives way to a tier and
/// changes at no other tick. The run is no longer than the number of tiers
/// whose budgets fit in an `i32`.
pub proof fn lemma_chaos_run(run: Seq<ChaosView>)
    requires
        run.len() > 0,
        run[0].1 == 0,
        run[0].2 == ChaosState::Cooldown,
        run.len() * 60 <= i32::MAX,
        forall|i: int| 0 <= i < run.len() - 1 ==> #[trigger] chaos_tick_rel(run[i], run[i + 1]),
    ensures
        forall|i: int| 0 <= i < run.len() ==> (#[trigger] run[i]).0 == run[0].0,
        forall|i: int|
            0 <= i < run.len() ==> ((#[trigger] run[i]).2 matches ChaosState::Active { budget } ==> budget
                >= 0),
        forall|i: int|
            0 <= i < run.len() - 1 ==> if (#[trigger] run[i]).2 == ChaosState::Cooldown && run[i + 1].2 is Active {
                run[i + 1].1 == run[i].1 + 1
            } else {
                run[i + 1].1 == run[i].1
            },
    decreases run.len(),
{
    if run.len() > 1 {
        let prev = run.drop_last();
        assert forall|i: int| 0 <= i < prev.len() - 1 implies #[trigger] chaos_tick_rel(prev[i], prev[i + 1]) by {
            assert(chaos_tick_rel(run[i], run[i + 1]));
        }
        lemma_chaos_run(prev);
        lemma_chaos_tier_bound(run, run.len() - 2);
        let k = run.len() - 2;
        assert(chaos_tick_rel(run[k], run[k + 1]));
        assert(prev[k] == run[k]);
        assert forall|i: int| 0 <= i < run.len() implies (#[trigger] run[i]).0 == run[0].0 by {
            if i < run.len() - 1 {
                assert(prev[i] == run[i]);
            }
        }
        assert forall|i: int|
            0 <= i < run.len() implies ((#[trigger] run[i]).2 matches ChaosState::Active { budget } ==> budget
            >= 0) by {
            if i < run.len() - 1 {
                assert(prev[i] == run[i]);
            }
        }
        assert forall|i: int| 0 <= i < run.len() - 1 implies if (#[trigger] run[i]).2 == ChaosState::Cooldown
            && run[i + 1].2 is Active {
            run[i + 1].1 == run[i].1 + 1
        } else {
            run[i + 1].1 == run[i].1
        } by {
            assert(chaos_tick_rel(run[i], run[i + 1]));
        }
    }
}

proof fn lemma_chaos_tier_bound(run: Seq<ChaosView>, k: int)
    requires
        0 <= k < run.len(),
        run[0].1 == 0,
        forall|i: int| 0 <= i < run.len() - 1 ==> #[trigger] chaos_tick_rel(run[i], run[i + 1]),
    ensures
        run[k].1 <= k,
    decreases k,
{
    if k > 0 {
        let j = k - 1;
        lemma_chaos_tier_bound(run, j);
        assert(chaos_tick_rel(run[j], run[j + 1]));
    }
}

impl ChaosConfig {
    /// Default chaos level: default pool, tier 0, an instant cooldown so
    /// that the first tick starts tier 1.
    pub fn new() -> (c: Self)
        ensures
            c.enemies@ == default_tunings_spec(),
            c.tier == 0,
            c.state == ChaosState::Cooldown,
    {
        ChaosConfig { enemies: default_tunings(), tier: 0, state: ChaosState::Cooldown }
    }

    /// Removes every enemy named `enemy` from the pool.
    pub fn exclude(self, enemy: &'static str) -> (c: Self)
        ensures
            c.enemies@ == excluded(self.enemies@, enemy@),
            !has_named(c.enemies@, enemy@),
            c.tier == self.tier,
            c.state == self.state,
    {
        let ghost pred = |e: EnemyTuning| e.name@ != enemy@;
        let mut kept: Vec<EnemyTuning> = Vec::new();
        let mut i: usize = 0;
        while i < self.enemies.len()
            invariant
                i <= self.enemies@.len(),
                kept@ == self.enemies@.take(i as int).filter(pred),
                pred == (|e: EnemyTuning| e.name@ != enemy@),
            decreases self.enemies.len() - i,
        {
            reveal_with_fuel(Seq::<_>::filter, 1);
            let e = self.enemies[i];
            if !same_name(e.name, enemy) {
                kept.push(e);
            }
            assert(self.enemies@.take(i + 1).drop_last() =~= self.enemies@.take(i as int));
            i = i + 1;
        }
        assert(self.enemies@.take(self.enemies@.len() as int) =~= self.enemies@);
        proof {
            lemma_excluded_has_none(self.enemies@, enemy@);
        }
        ChaosConfig { enemies: kept, tier: self.tier, state: self.state }
    }

    /// Adds back the default tuning of `enemy` if the pool has no enemy of
    /// that name (and the default pool has one).
    pub fn restore(self, enemy: &'static str) -> (c: Self)
        ensures
            c.enemies@ == restored(self.enemies@, enemy@),
            c.tier == self.tier,
            c.state == self.state,
    {
        let mut c = self;
        if find_tuning(&c.enemies, enemy).is_none() {
            let defaults = default_tunings();
            match find_tuning(&defaults, enemy) {
                Some(k) => {
                    proof {
                        lemma_first_named_unique(
                            default_tunings_spec(),
                            enemy@,
                            k as int,
                            first_named_index(default_tunings_spec(), enemy@),
                        );
                    }
                    c.enemies.push(defaults[k]);
                },
                None => {},
            }
        }
        c
    }

    /// One tick of the chaos machine. `tier_over`: the tier's time has run
    /// out; `spawn_due`: the spawn timer fired this tick;
    /// `cooldown_finished`: the pause between tiers is over. Returns the
    /// spawn order of the enemy bought this tick, if any.
    pub fn tick(&mut self, tier_over: bool, spawn_due: bool, cooldown_finished: bool) -> (order: Option<SpawnOrder>)
        requires
            old(self).state matches ChaosState::Active { budget } ==> (!tier_over && budget > 0 && spawn_due
                ==> total_affordable_weight(old(self).enemies@, budget as int) <= u32::MAX
                && spending_fits(old(self).enemies@, budget as int)),
            old(self).state == ChaosState::Cooldown ==> (old(self).tier + 1) * 60 <= u32::MAX,
        ensures
            final(self).enemies == old(self).enemies,
            // A tier ends when its time is over or its budget is spent.
            old(self).state matches ChaosState::Active { budget } ==> {
                &&& final(self).tier == old(self).tier
                &&& if tier_over || budget <= 0 {
                    final(self).state == ChaosState::Cooldown && order is None
                } else if !spawn_due || total_affordable_weight(old(self).enemies@, budget as int) == 0 {
                    final(self).state == old(self).state && order is None
                } else {
                    exists|i: int|
                        0 <= i < old(self).enemies@.len() && affordable(old(self).enemies@[i], budget as int)
                            && old(self).enemies@[i].weight > 0
                            && order == Some(spawn_order_of(old(self).enemies@[i]))
                            && final(self).state == (ChaosState::Active {
                                budget: (budget - (old(self).enemies@[i].cost as i32)) as i32,
                            })
                }
            },
            // A running tier never spends more than its budget.
            (old(self).state matches ChaosState::Active { budget } ==> budget >= 0) && (old(self).tier
                + 1) * 60 <= i32::MAX ==> (final(self).state matches ChaosState::Active { budget }
                ==> budget >= 0),
            // The budget of a tier never rises above the top of its range, so
            // an enemy costing more than that is never bought in that tier.
            (old(self).state matches ChaosState::Active { budget } ==> budget <= tier_budget_spec(
                old(self).tier as int,
            ).1) && costs_fit(old(self).enemies@) && (old(self).tier + 1) * 60 <= i32::MAX
                ==> (final(self).state matches ChaosState::Active { budget }
                ==> budget <= tier_budget_spec(final(self).tier as int).1),
            chaos_tick_rel(
                (old(self).enemies@, old(self).tier, old(self).state),
                (final(self).enemies@, final(self).tier, final(self).state),
            ),
            // After the cooldown, the next tier starts with a budget drawn in
            // its range.
            old(self).state == ChaosState::Cooldown ==> {
                &&& order is None
                &&& if cooldown_finished {
                    &&& final(self).tier == old(self).tier + 1
                    &&& exists|b: u32|
                        tier_budget_spec(final(self).tier as int).0 <= b <= tier_budget_spec(
                            final(self).tier as int,
                        ).1 && final(self).state == #[trigger] drawn_budget(b)
                } else {
                    final(self).tier == old(self).tier && final(self).state == ChaosState::Cooldown
                }
            },
    {
        match self.state {
            ChaosState::Active { budget } => {
                if tier_over || budget <= 0 {
                    self.state = ChaosState::Cooldown;
                    None
                } else if !spawn_due {
                    None
                } else {
                    match pick_enemy(&self.enemies, budget) {
                        Some(pick) => {
                            let o = spawn_order(pick);
                            self.state = ChaosState::Active { budget: budget - pick.cost as i32 };
                            Some(o)
                        },
                        None => None,
                    }
                }
            },
            ChaosState::Cooldown => {
                if cooldown_finished {
                    let new_tier = self.tier + 1;
                    let (min, max) = tier_budget(new_tier);
                    let budget = if max > min {
                        random_u32_in(min, max)
                    } else {
                        max
                    };
                    self.tier = new_tier;
                    self.state = ChaosState::Active { budget: budget as i32 };
                    assert(self.state == drawn_budget(budget));
                }
                None
            },
        }
    }
}

/// Music tracks of the chaos level, played in a loop one after the other.
pub fn chaos_playlist() -> (v: Vec<&'static str>)
    ensures
        v@.len() == 2,
        v@[0]@ == "audio/music/gradius.ogg"@,
        v@[1]@ == "audio/music/boss.ogg"@,
{
    vec!["audio/music/gradius.ogg", "audio/music/boss.ogg"]
}

/// The playlist loops: two tracks later the same track starts again.
pub proof fn lemma_playlist_loops(next_index: int)
    requires
        0 <= next_index < 2,
    ensures
        ((next_index + 1) % 2 + 1) % 2 == next_index,
{
}

/// Playlist position: index of the next track to start.
#[derive(Clone, Copy, Debug, PartialEq, Eq)]
pub struct ChaosMusicState {
    pub next_index: usize,
}

impl ChaosMusicState {
    /// Playlist at its first track.
    pub fn new() -> (s: Self)
        ensures
            s.next_index == 0,
    {
        ChaosMusicState { next_index: 0 }
    }

    /// Track to start now; the position moves to the following track,
    /// wrapping around at the end of the playlist.
    pub fn next_track(&mut self) -> (path: &'static str)
        requires
            old(self).next_index < 2,
        ensures
            path@ == (if old(self).next_index == 0 {
                "audio/music/gradius.ogg"@
            } else {
                "audio/music/boss.ogg"@
            }),
            final(self).next_index == (old(self).next_index + 1) % 2,
    {
        let playlist = chaos_playlist();
        let path = playlist[self.next_index];
        self.next_index = (self.next_index + 1) % playlist.len();
        path
    }
}

} // verus!

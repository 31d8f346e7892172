//! Enemy pool shared by the unscripted levels (chaos and waves).
//!
//! Each enemy is worth a `cost` (spent from a wave or tier budget) and a
//! `weight` (its chance of being drawn among the enemies one can afford),
//! and comes with a spawn kind: a plain spawn request, or a Bézier wave of
//! small UFOs.
use vstd::prelude::*;
use crate::rng::{random_u32_in, same_name};

verus! {

/// How an enemy of the pool is spawned.
#[derive(Clone, Copy, Debug, PartialEq, Eq)]
pub enum SpawnKind {
    /// A standard spawn request for one enemy of that name.
    Single,
    /// A wave of `count` small UFOs released every `interval_ms`
    /// milliseconds along a Bézier path.
    SimpleUfoWave { count: usize, interval_ms: u32 },
}

/// Value of one enemy: `cost` is spent on the budget when it spawns,
/// `weight` sets its chance of being drawn among affordable enemies.
#[derive(Clone, Copy, Debug)]
pub struct EnemyTuning {
    pub name: &'static str,
    pub cost: u32,
    pub weight: u32,
    pub kind: SpawnKind,
}

/// What the game has to do to spawn a picked enemy.
#[derive(Clone, Copy, Debug, PartialEq, Eq)]
pub enum SpawnOrder {
    /// Push a spawn request for `count` enemies named `name`.
    Request { name: &'static str, count: usize },
    /// Start a Bézier wave spawner of `count` UFOs, one every `interval_ms`.
    UfoWave { count: usize, interval_ms: u32 },
}

pub open spec fn tuning(name: &'static str, cost: u32, weight: u32, kind: SpawnKind) -> EnemyTuning {
    EnemyTuning { name, cost, weight, kind }
}

/// The default pool, the single source of truth of the game's balance.
pub open spec fn default_tunings_spec() -> Seq<EnemyTuning> {
    seq![
        tuning("asteroid", 1, 50, SpawnKind::Single),
        tuning("kamikaze", 5, 25, SpawnKind::Single),
        tuning("green_ufo", 4, 12, SpawnKind::Single),
        tuning("mine", 3, 12, SpawnKind::Single),
        tuning("simple_ufo_shooter", 6, 10, SpawnKind::Single),
        tuning("simple_ufo_wave", 8, 8, SpawnKind::SimpleUfoWave { count: 5, interval_ms: 200 }),
        tuning("octopus", 15, 5, SpawnKind::Single),
        tuning("octopus_green", 18, 4, SpawnKind::Single),
        tuning("vaisseau", 25, 3, SpawnKind::Single),
        tuning("boss", 60, 1, SpawnKind::Single),
    ]
}

/// Default cost, weight and spawn kind of every enemy of the game.
pub fn default_tunings() -> (v: Vec<EnemyTuning>)
    ensures
        v@ == default_tunings_spec(),
{
    let v = vec![
        EnemyTuning { name: "asteroid", cost: 1, weight: 50, kind: SpawnKind::Single },
        EnemyTuning { name: "kamikaze", cost: 5, weight: 25, kind: SpawnKind::Single },
        EnemyTuning { name: "green_ufo", cost: 4, weight: 12, kind: SpawnKind::Single },
        EnemyTuning { name: "mine", cost: 3, weight: 12, kind: SpawnKind::Single },
        EnemyTuning { name: "simple_ufo_shooter", cost: 6, weight: 10, kind: SpawnKind::Single },
        EnemyTuning {
            name: "simple_ufo_wave",
            cost: 8,
            weight: 8,
            kind: SpawnKind::SimpleUfoWave { count: 5, interval_ms: 200 },
        },
        EnemyTuning { name: "octopus", cost: 15, weight: 5, kind: SpawnKind::Single },
        EnemyTuning { name: "octopus_green", cost: 18, weight: 4, kind: SpawnKind::Single },
        EnemyTuning { name: "vaisseau", cost: 25, weight: 3, kind: SpawnKind::Single },
        EnemyTuning { name: "boss", cost: 60, weight: 1, kind: SpawnKind::Single },
    ];
    assert(v@ =~= default_tunings_spec());
    v
}

/// `i` is the first position of the pool holding an enemy named `name`.
pub open spec fn is_first_named(s: Seq<EnemyTuning>, name: Seq<char>, i: int) -> bool {
    &&& 0 <= i < s.len()
    &&& s[i].name@ == name
    &&& forall|j: int| 0 <= j < i ==> s[j].name@ != name
}

/// Does the pool hold an enemy named `name`?
pub open spec fn has_named(s: Seq<EnemyTuning>, name: Seq<char>) -> bool {
    exists|i: int| 0 <= i < s.len() && s[i].name@ == name
}

/// Cost of the first enemy named `name` in the pool, 0 when there is none.
pub open spec fn named_cost(s: Seq<EnemyTuning>, name: Seq<char>) -> int {
    if has_named(s, name) {
        s[choose|i: int| is_first_named(s, name, i)].cost as int
    } else {
        0
    }
}

/// There is at most one first position for a name.
pub proof fn lemma_first_named_unique(s: Seq<EnemyTuning>, name: Seq<char>, i: int, j: int)
    requires
        is_first_named(s, name, i),
        is_first_named(s, name, j),
    ensures
        i == j,
{
}

/// The cost of a name is that of its first position.
pub proof fn lemma_named_cost_at_first(s: Seq<EnemyTuning>, name: Seq<char>, i: int)
    requires
        is_first_named(s, name, i),
    ensures
        named_cost(s, name) == s[i].cost as int,
{
    let k = choose|k: int| is_first_named(s, name, k);
    assert(is_first_named(s, name, k));
    lemma_first_named_unique(s, name, i, k);
}

/// Position of the first enemy of the pool named `name`, if any.
pub fn find_tuning(tunings: &[EnemyTuning], name: &str) -> (r: Option<usize>)
    ensures
        r is None <==> !has_named(tunings@, name@),
        r matches Some(i) ==> is_first_named(tunings@, name@, i as int),
{
    let mut i: usize = 0;
    while i < tunings.len()
        invariant
            i <= tunings.len(),
            forall|j: int| 0 <= j < i ==> tunings@[j].name@ != name@,
        decreases tunings.len() - i,
    {
        if same_name(tunings[i].name, name) {
            return Some(i);
        }
        i = i + 1;
    }
    None
}

/// Can an enemy be bought with `budget` points? The cost is compared as
/// an `i32` (`as i32`, which wraps a cost above `i32::MAX`).
pub open spec fn affordable(e: EnemyTuning, budget: int) -> bool {
    (e.cost as i32) as int <= budget
}

/// Sum of the weights of the affordable enemies among the first `k`.
pub open spec fn affordable_weight(s: Seq<EnemyTuning>, budget: int, k: int) -> int
    decreases k,
{
    if k <= 0 {
        0
    } else {
        affordable_weight(s, budget, k - 1) + if affordable(s[k - 1], budget) {
            s[k - 1].weight as int
        } else {
            0
        }
    }
}

/// Sum of the weights of all affordable enemies.
pub open spec fn total_affordable_weight(s: Seq<EnemyTuning>, budget: int) -> int {
    affordable_weight(s, budget, s.len() as int)
}

/// The prefix sums of affordable weights never decrease.
pub proof fn lemma_affordable_weight_monotone(s: Seq<EnemyTuning>, budget: int, i: int, j: int)
    requires
        0 <= i <= j <= s.len(),
    ensures
        0 <= affordable_weight(s, budget, i) <= affordable_weight(s, budget, j),
    decreases j,
{
    if j > 0 {
        if i < j {
            lemma_affordable_weight_monotone(s, budget, i, j - 1);
        } else {
            lemma_affordable_weight_monotone(s, budget, j - 1, j - 1);
        }
    }
}

/// Sum of the weights of the enemies affordable with `budget`.
fn affordable_weight_sum(enemies: &[EnemyTuning], budget: i32) -> (total: u32)
    requires
        total_affordable_weight(enemies@, budget as int) <= u32::MAX,
    ensures
        total as int == total_affordable_weight(enemies@, budget as int),
{
    let mut total: u32 = 0;
    let mut i: usize = 0;
    while i < enemies.len()
        invariant
            i <= enemies.len(),
            total as int == affordable_weight(enemies@, budget as int, i as int),
            total_affordable_weight(enemies@, budget as int) <= u32::MAX,
        decreases enemies.len() - i,
    {
        proof {
            lemma_affordable_weight_monotone(enemies@, budget as int, i as int + 1, enemies@.len() as int);
        }
        let e = enemies[i];
        if (e.cost as i32) <= budget {
            total = total + e.weight;
        }
        i = i + 1;
    }
    total
}

/// Weighted draw among the affordable enemies for a given `roll`: the
/// affordable weights are laid end to end in the pool's order and the
/// enemy whose segment holds `roll` is chosen. `None` when `roll` lies
/// past the last segment.
pub fn pick_enemy_with_roll(enemies: &[EnemyTuning], budget: i32, roll: u32) -> (r: Option<usize>)
    requires
        total_affordable_weight(enemies@, budget as int) <= u32::MAX,
    ensures
        r is None <==> roll as int >= total_affordable_weight(enemies@, budget as int),
        r matches Some(i) ==> {
            &&& i < enemies@.len()
            &&& affordable(enemies@[i as int], budget as int)
            &&& affordable_weight(enemies@, budget as int, i as int) <= roll
            &&& roll < affordable_weight(enemies@, budget as int, i as int)
                + enemies@[i as int].weight
        },
{
    let mut left: u32 = roll;
    let mut i: usize = 0;
    while i < enemies.len()
        invariant
            i <= enemies.len(),
            affordable_weight(enemies@, budget as int, i as int) <= roll,
            left as int == roll - affordable_weight(enemies@, budget as int, i as int),
        decreases enemies.len() - i,
    {
        let e = enemies[i];
        if (e.cost as i32) <= budget {
            if left < e.weight {
                proof {
                    lemma_affordable_weight_monotone(enemies@, budget as int, i as int + 1, enemies@.len() as int);
                }
                return Some(i);
            }
            left = left - e.weight;
        }
        i = i + 1;
    }
    None
}

/// Weighted random draw of an enemy among those affordable with `budget`.
/// `None` when no affordable enemy has a positive weight (in particular
/// when the budget is below every cost).
pub fn pick_enemy<'a>(enemies: &'a [EnemyTuning], budget: i32) -> (r: Option<&'a EnemyTuning>)
    requires
        total_affordable_weight(enemies@, budget as int) <= u32::MAX,
    ensures
        r is None <==> total_affordable_weight(enemies@, budget as int) == 0,
        r matches Some(e) ==> exists|i: int|
            0 <= i < enemies@.len() && enemies@[i] == *e && affordable(*e, budget as int)
                && e.weight > 0,
{
    let total = affordable_weight_sum(enemies, budget);
    if total == 0 {
        return None;
    }
    let roll = random_u32_in(0, total - 1);
    match pick_enemy_with_roll(enemies, budget, roll) {
        Some(i) => Some(&enemies[i]),
        None => None,
    }
}

/// Spawn order for an enemy of the pool.
pub open spec fn spawn_order_of(pick: EnemyTuning) -> SpawnOrder {
    match pick.kind {
        SpawnKind::Single => SpawnOrder::Request { name: pick.name, count: 1 },
        SpawnKind::SimpleUfoWave { count, interval_ms } => SpawnOrder::UfoWave { count, interval_ms },
    }
}

/// What spawning the picked enemy amounts to: a single spawn request for
/// a `Single` enemy, a Bézier wave spawner for a `SimpleUfoWave`.
pub fn spawn_order(pick: &EnemyTuning) -> (o: SpawnOrder)
    ensures
        o == spawn_order_of(*pick),
{
    match pick.kind {
        SpawnKind::Single => SpawnOrder::Request { name: pick.name, count: 1 },
        SpawnKind::SimpleUfoWave { count, interval_ms } => SpawnOrder::UfoWave { count, interval_ms },
    }
}

} // verus!

//! "Waves" level: coherent groups of enemies, gated by kills.
//!
//! A wave is drawn from a catalogue of templates by a sliding weight window
//! (`wave_weight_target`), its members are released one by one, and the
//! next wave comes once every member has been destroyed.
use vstd::prelude::*;
use crate::enemy_pool::{
    EnemyTuning, SpawnOrder, default_tunings, default_tunings_spec, find_tuning, has_named,
    is_first_named, lemma_named_cost_at_first, named_cost, spawn_order, spawn_order_of,
};
use crate::rng::random_usize_in;
use crate::order::{count_before, lemma_count_before_bound, lemma_rank_onto, stable_rank};

verus! {

/// Width of the weight window around `wave_weight_target(n)`.
pub const WEIGHT_WINDOW: u32 = 14;

/// Recipe of a wave: name (UI, debug) and list of `(enemy name, count)`.
/// The names refer to `EnemyTuning::name` in the pool.
#[derive(Debug)]
pub struct WaveTemplate {
    pub name: &'static str,
    pub members: Vec<(&'static str, u32)>,
}

/// The catalogue of wave templates, as (name, members) pairs.
pub open spec fn wave_templates_spec() -> Seq<(&'static str, Seq<(&'static str, u32)>)> {
    seq![
        ("Astéroïde solo", seq![("asteroid", 1u32)]),
        ("Petite pluie", seq![("asteroid", 3u32)]),
        ("Patrouilleur seul", seq![("green_ufo", 1u32)]),
        ("Mine isolée", seq![("mine", 1u32), ("asteroid", 1u32)]),
        ("Reconnaissance", seq![("asteroid", 3u32), ("green_ufo", 1u32)]),
        ("Patrouille verte", seq![("green_ufo", 2u32)]),
        ("Horde UFO", seq![("simple_ufo_wave", 1u32)]),
        ("Mines & asteroids", seq![("mine", 2u32), ("asteroid", 3u32)]),
        ("Tireur léger", seq![("simple_ufo_shooter", 1u32), ("asteroid", 3u32)]),
        ("Mine + kamikaze", seq![("mine", 1u32), ("kamikaze", 1u32), ("asteroid", 2u32)]),
        ("Champ de mines", seq![("mine", 3u32), ("asteroid", 2u32)]),
        ("Horde + asteroids", seq![("simple_ufo_wave", 1u32), ("asteroid", 3u32)]),
        ("Charge kamikaze", seq![("kamikaze", 2u32), ("asteroid", 2u32)]),
        ("Duo verts", seq![("green_ufo", 2u32), ("simple_ufo_shooter", 1u32)]),
        ("Mix léger", seq![("asteroid", 4u32), ("kamikaze", 1u32), ("green_ufo", 1u32)]),
        ("Octopus seul", seq![("octopus", 1u32)]),
        ("Double horde", seq![("simple_ufo_wave", 2u32)]),
        ("Horde + kamikazes", seq![("simple_ufo_wave", 1u32), ("kamikaze", 2u32)]),
        ("Trio mixte", seq![("mine", 2u32), ("green_ufo", 2u32), ("kamikaze", 1u32)]),
        ("Octopus vert", seq![("octopus_green", 1u32), ("asteroid", 3u32)]),
        ("Duo de tireurs", seq![("simple_ufo_shooter", 2u32), ("green_ufo", 2u32)]),
        ("Hordes + tireur", seq![("simple_ufo_wave", 2u32), ("simple_ufo_shooter", 1u32)]),
        ("Bombardement", seq![("mine", 3u32), ("kamikaze", 3u32)]),
        ("Triple horde", seq![("simple_ufo_wave", 3u32)]),
        ("Quad shooter", seq![("simple_ufo_shooter", 4u32)]),
        ("Harcèlement", seq![("kamikaze", 3u32), ("green_ufo", 2u32), ("asteroid", 2u32)]),
        ("Mines + ufos", seq![("mine", 4u32), ("simple_ufo_wave", 1u32), ("kamikaze", 1u32)]),
        ("Mixte lourd", seq![("kamikaze", 3u32), ("green_ufo", 2u32), ("simple_ufo_shooter", 1u32)]),
        ("Octopus + escorte", seq![("octopus", 1u32), ("kamikaze", 3u32)]),
        ("Octopus + horde", seq![("octopus", 1u32), ("simple_ufo_wave", 2u32)]),
        ("Hordes massives", seq![("simple_ufo_wave", 4u32)]),
        ("Duo d'octopus", seq![("octopus", 1u32), ("octopus_green", 1u32)]),
        ("Massive mix", seq![("simple_ufo_shooter", 2u32), ("kamikaze", 3u32), ("green_ufo", 3u32)]),
        ("Salve finale", seq![("simple_ufo_shooter", 3u32), ("kamikaze", 4u32), ("green_ufo", 2u32)]),
        ("Apocalypse", seq![("octopus_green", 1u32), ("simple_ufo_wave", 3u32), ("kamikaze", 3u32)]),
        ("Triple octopus", seq![("octopus", 2u32), ("octopus_green", 1u32)]),
    ]
}

/// A template viewed as its (name, members) pair.
pub open spec fn template_view(t: WaveTemplate) -> (&'static str, Seq<(&'static str, u32)>) {
    (t.name, t.members@)
}

/// The catalogue of wave templates. Order does not matter: selection goes
/// through the sliding weight window.
pub fn wave_templates() -> (v: Vec<WaveTemplate>)
    ensures
        v@.map_values(|t: WaveTemplate| template_view(t)) == wave_templates_spec(),
{
    let mut v: Vec<WaveTemplate> = Vec::new();
    v.push(WaveTemplate { name: "Astéroïde solo", members: vec![("asteroid", 1)] });
    v.push(WaveTemplate { name: "Petite pluie", members: vec![("asteroid", 3)] });
    v.push(WaveTemplate { name: "Patrouilleur seul", members: vec![("green_ufo", 1)] });
    v.push(WaveTemplate { name: "Mine isolée", members: vec![("mine", 1), ("asteroid", 1)] });
    v.push(WaveTemplate { name: "Reconnaissance", members: vec![("asteroid", 3), ("green_ufo", 1)] });
    v.push(WaveTemplate { name: "Patrouille verte", members: vec![("green_ufo", 2)] });
    v.push(WaveTemplate { name: "Horde UFO", members: vec![("simple_ufo_wave", 1)] });
    v.push(WaveTemplate { name: "Mines & asteroids", members: vec![("mine", 2), ("asteroid", 3)] });
    v.push(WaveTemplate { name: "Tireur léger", members: vec![("simple_ufo_shooter", 1), ("asteroid", 3)] });
    v.push(WaveTemplate { name: "Mine + kamikaze", members: vec![("mine", 1), ("kamikaze", 1), ("asteroid", 2)] });
    v.push(WaveTemplate { name: "Champ de mines", members: vec![("mine", 3), ("asteroid", 2)] });
    v.push(WaveTemplate { name: "Horde + asteroids", members: vec![("simple_ufo_wave", 1), ("asteroid", 3)] });
    v.push(WaveTemplate { name: "Charge kamikaze", members: vec![("kamikaze", 2), ("asteroid", 2)] });
    v.push(WaveTemplate { name: "Duo verts", members: vec![("green_ufo", 2), ("simple_ufo_shooter", 1)] });
    v.push(WaveTemplate { name: "Mix léger", members: vec![("asteroid", 4), ("kamikaze", 1), ("green_ufo", 1)] });
    v.push(WaveTemplate { name: "Octopus seul", members: vec![("octopus", 1)] });
    v.push(WaveTemplate { name: "Double horde", members: vec![("simple_ufo_wave", 2)] });
    v.push(WaveTemplate { name: "Horde + kamikazes", members: vec![("simple_ufo_wave", 1), ("kamikaze", 2)] });
    v.push(WaveTemplate { name: "Trio mixte", members: vec![("mine", 2), ("green_ufo", 2), ("kamikaze", 1)] });
    v.push(WaveTemplate { name: "Octopus vert", members: vec![("octopus_green", 1), ("asteroid", 3)] });
    v.push(WaveTemplate { name: "Duo de tireurs", members: vec![("simple_ufo_shooter", 2), ("green_ufo", 2)] });
    v.push(WaveTemplate { name: "Hordes + tireur", members: vec![("simple_ufo_wave", 2), ("simple_ufo_shooter", 1)] });
    v.push(WaveTemplate { name: "Bombardement", members: vec![("mine", 3), ("kamikaze", 3)] });
    v.push(WaveTemplate { name: "Triple horde", members: vec![("simple_ufo_wave", 3)] });
    v.push(WaveTemplate { name: "Quad shooter", members: vec![("simple_ufo_shooter", 4)] });
    v.push(WaveTemplate { name: "Harcèlement", members: vec![("kamikaze", 3), ("green_ufo", 2), ("asteroid", 2)] });
    v.push(WaveTemplate { name: "Mines + ufos", members: vec![("mine", 4), ("simple_ufo_wave", 1), ("kamikaze", 1)] });
    v.push(WaveTemplate { name: "Mixte lourd", members: vec![("kamikaze", 3), ("green_ufo", 2), ("simple_ufo_shooter", 1)] });
    v.push(WaveTemplate { name: "Octopus + escorte", members: vec![("octopus", 1), ("kamikaze", 3)] });
    v.push(WaveTemplate { name: "Octopus + horde", members: vec![("octopus", 1), ("simple_ufo_wave", 2)] });
    v.push(WaveTemplate { name: "Hordes massives", members: vec![("simple_ufo_wave", 4)] });
    v.push(WaveTemplate { name: "Duo d'octopus", members: vec![("octopus", 1), ("octopus_green", 1)] });
    v.push(WaveTemplate { name: "Massive mix", members: vec![("simple_ufo_shooter", 2), ("kamikaze", 3), ("green_ufo", 3)] });
    v.push(WaveTemplate { name: "Salve finale", members: vec![("simple_ufo_shooter", 3), ("kamikaze", 4), ("green_ufo", 2)] });
    v.push(WaveTemplate { name: "Apocalypse", members: vec![("octopus_green", 1), ("simple_ufo_wave", 3), ("kamikaze", 3)] });
    v.push(WaveTemplate { name: "Triple octopus", members: vec![("octopus", 2), ("octopus_green", 1)] });
    assert(v@.map_values(|t: WaveTemplate| template_view(t)) =~~= wave_templates_spec());
    v
}

/// Target weight of wave `n`: a gentle linear growth.
pub open spec fn wave_weight_target_spec(n: int) -> int {
    4 + n * 3
}

/// Target weight of wave `n` (`4 + 3n`).
pub fn wave_weight_target(n: u32) -> (r: u32)
    requires
        wave_weight_target_spec(n as int) <= u32::MAX,
    ensures
        r as int == wave_weight_target_spec(n as int),
{
    4 + n * 3
}

/// Weight of the first `k` members: `count × cost` summed, the cost of an
/// enemy missing from the pool counting as 0.
pub open spec fn members_weight(
    members: Seq<(&'static str, u32)>,
    tunings: Seq<EnemyTuning>,
    k: int,
) -> int
    decreases k,
{
    if k <= 0 {
        0
    } else {
        members_weight(members, tunings, k - 1) + members[k - 1].1 as int * named_cost(
            tunings,
            members[k - 1].0@,
        )
    }
}

/// Total weight of a template against the pool.
pub open spec fn template_weight_spec(members: Seq<(&'static str, u32)>, tunings: Seq<EnemyTuning>) -> int {
    members_weight(members, tunings, members.len() as int)
}

pub proof fn lemma_members_weight_monotone(
    members: Seq<(&'static str, u32)>,
    tunings: Seq<EnemyTuning>,
    i: int,
    j: int,
)
    requires
        0 <= i <= j <= members.len(),
    ensures
        0 <= members_weight(members, tunings, i) <= members_weight(members, tunings, j),
    decreases j,
{
    if j > 0 {
        assert(named_cost(tunings, members[j - 1].0@) >= 0);
        assert(members[j - 1].1 as int * named_cost(tunings, members[j - 1].0@) >= 0) by (nonlinear_arith)
            requires
                named_cost(tunings, members[j - 1].0@) >= 0,
                members[j - 1].1 >= 0,
        ;
        if i < j {
            lemma_members_weight_monotone(members, tunings, i, j - 1);
        } else {
            lemma_members_weight_monotone(members, tunings, j - 1, j - 1);
        }
    }
}

/// Total weight of a template: sum over its members of `count × cost`,
/// where the cost is that of the first enemy of the pool with that name
/// (0 when the pool has none).
pub fn template_weight(template: &WaveTemplate, tunings: &[EnemyTuning]) -> (w: u32)
    requires
        template_weight_spec(template.members@, tunings@) <= u32::MAX,
    ensures
        w as int == template_weight_spec(template.members@, tunings@),
{
    let mut total: u32 = 0;
    let mut i: usize = 0;
    while i < template.members.len()
        invariant
            i <= template.members@.len(),
            total as int == members_weight(template.members@, tunings@, i as int),
            template_weight_spec(template.members@, tunings@) <= u32::MAX,
        decreases template.members.len() - i,
    {
        let (name, count) = template.members[i];
        let unit_cost: u32 = match find_tuning(tunings, name) {
            Some(k) => {
                proof {
                    lemma_named_cost_at_first(tunings@, name@, k as int);
                }
                tunings[k].cost
            },
            None => 0,
        };
        proof {
            lemma_members_weight_monotone(template.members@, tunings@, i as int + 1, template.members@.len() as int);
            assert(members_weight(template.members@, tunings@, i as int + 1)
                == total as int + count as int * unit_cost as int);
            assert(count as int * unit_cost as int >= 0) by (nonlinear_arith)
                requires count >= 0, unit_cost >= 0;
        }
        total = total + count * unit_cost;
        i = i + 1;
    }
    total
}


/// Weights of all templates against the pool.
pub open spec fn weights_of(templates: Seq<WaveTemplate>, tunings: Seq<EnemyTuning>) -> Seq<int> {
    Seq::new(templates.len(), |i: int| template_weight_spec(templates[i].members@, tunings))
}

/// Lower end of the weight window of wave `n` (saturating at 0).
pub open spec fn window_low(n: int) -> int {
    if wave_weight_target_spec(n) >= (WEIGHT_WINDOW / 2) as int {
        wave_weight_target_spec(n) - (WEIGHT_WINDOW / 2) as int
    } else {
        0
    }
}

/// Upper end of the weight window of wave `n`.
pub open spec fn window_high(n: int) -> int {
    wave_weight_target_spec(n) + (WEIGHT_WINDOW / 2) as int
}

/// Is weight `w` inside the window of wave `n`?
pub open spec fn in_window(w: int, n: int) -> bool {
    window_low(n) <= w <= window_high(n)
}

/// Number of weights among the first `k` that fall in the window of wave `n`.
pub open spec fn count_in_window(ws: Seq<int>, n: int, k: int) -> nat
    decreases k,
{
    if k <= 0 {
        0
    } else {
        count_in_window(ws, n, k - 1) + if in_window(ws[k - 1], n) {
            1nat
        } else {
            0nat
        }
    }
}

/// First template index of the heaviest 30% (as `(len * 7) / 10`).
pub open spec fn heavy_cutoff(len: int) -> int {
    (len * 7) / 10
}

/// Number of templates eligible for wave `n`: those in the weight window,
/// or, when none is, the heaviest 30% of the catalogue.
pub open spec fn eligible_count(ws: Seq<int>, n: int) -> int {
    let c = count_in_window(ws, n, ws.len() as int);
    if c > 0 {
        c as int
    } else {
        ws.len() - heavy_cutoff(ws.len() as int)
    }
}

/// Template `i` is the one that roll `roll` designates for wave `n`: the
/// `roll`-th template of the window in catalogue order, or, when the window
/// is empty, the `roll`-th of the heaviest 30% in stable weight order.
pub open spec fn designated(ws: Seq<int>, n: int, roll: int, i: int) -> bool {
    &&& 0 <= i < ws.len()
    &&& if count_in_window(ws, n, ws.len() as int) > 0 {
        in_window(ws[i], n) && count_in_window(ws, n, i) == roll
    } else {
        stable_rank(ws, i) == heavy_cutoff(ws.len() as int) + roll
    }
}

/// Template `i` may be drawn for wave `n`: it is in the window, or the
/// window is empty and it is among the heaviest 30%.
pub open spec fn eligible(ws: Seq<int>, n: int, i: int) -> bool {
    &&& 0 <= i < ws.len()
    &&& if count_in_window(ws, n, ws.len() as int) > 0 {
        in_window(ws[i], n)
    } else {
        stable_rank(ws, i) >= heavy_cutoff(ws.len() as int)
    }
}

proof fn lemma_count_in_window_bound(ws: Seq<int>, n: int, i: int, k: int)
    requires
        0 <= i <= k <= ws.len(),
    ensures
        count_in_window(ws, n, i) <= count_in_window(ws, n, k) <= k,
        i < k && in_window(ws[i], n) ==> count_in_window(ws, n, i) < count_in_window(ws, n, k),
    decreases k,
{
    if k > 0 {
        if i < k {
            lemma_count_in_window_bound(ws, n, i, k - 1);
        } else {
            lemma_count_in_window_bound(ws, n, k - 1, k - 1);
        }
    }
}

/// The `roll`-th template of the window, when the window is not empty.
pub proof fn lemma_window_onto(ws: Seq<int>, n: int, roll: int, k: int)
    requires
        0 <= k <= ws.len(),
        0 <= roll < count_in_window(ws, n, k),
    ensures
        exists|i: int| 0 <= i < k && in_window(ws[i], n) && count_in_window(ws, n, i) == roll,
    decreases k,
{
    if count_in_window(ws, n, k - 1) > roll {
        lemma_window_onto(ws, n, roll, k - 1);
    } else {
        assert(in_window(ws[k - 1], n) && count_in_window(ws, n, k - 1) == roll);
    }
}

/// Weights of the catalogue's templates against the pool.
pub open spec fn catalogue_weights(tunings: Seq<EnemyTuning>) -> Seq<int> {
    Seq::new(
        wave_templates_spec().len(),
        |i: int| template_weight_spec(wave_templates_spec()[i].1, tunings),
    )
}

/// Weight of every template against the pool.
fn template_weights(templates: &Vec<WaveTemplate>, tunings: &[EnemyTuning]) -> (ws: Vec<u32>)
    requires
        forall|i: int| 0 <= i < templates@.len() ==> #[trigger] weights_of(templates@, tunings@)[i] <= u32::MAX,
    ensures
        ws@.len() == templates@.len(),
        forall|i: int| 0 <= i < ws@.len() ==> ws@[i] as int == #[trigger] weights_of(templates@, tunings@)[i],
{
    let mut ws: Vec<u32> = Vec::new();
    let mut i: usize = 0;
    while i < templates.len()
        invariant
            i <= templates@.len(),
            ws@.len() == i,
            forall|j: int| 0 <= j < templates@.len() ==> #[trigger] weights_of(templates@, tunings@)[j] <= u32::MAX,
            forall|j: int| 0 <= j < i ==> ws@[j] as int == #[trigger] weights_of(templates@, tunings@)[j],
        decreases templates.len() - i,
    {
        assert(weights_of(templates@, tunings@)[i as int] <= u32::MAX);
        let w = template_weight(&templates[i], tunings);
        ws.push(w);
        i = i + 1;
    }
    ws
}

/// Index of the template that `roll` designates for wave `n` (see
/// `designated`): the `roll`-th template whose weight falls in the window
/// `[target - 7, target + 7]`, or, if none does, the `roll`-th of the
/// heaviest 30% of the catalogue in stable weight order.
pub fn template_for_wave_with_roll(
    n: u32,
    tunings: &[EnemyTuning],
    templates: &Vec<WaveTemplate>,
    roll: usize,
) -> (idx: usize)
    requires
        window_high(n as int) <= u32::MAX,
        templates@.len() * 7 <= usize::MAX,
        forall|k: int| 0 <= k < templates@.len() ==> #[trigger] weights_of(templates@, tunings@)[k] <= u32::MAX,
        roll < eligible_count(weights_of(templates@, tunings@), n as int),
    ensures
        designated(weights_of(templates@, tunings@), n as int, roll as int, idx as int),
{
    let ghost wsp = weights_of(templates@, tunings@);
    let target = wave_weight_target(n);
    let half = WEIGHT_WINDOW / 2;
    let min_weight = if target >= half { target - half } else { 0 };
    let max_weight = target + half;
    let ws = template_weights(templates, tunings);
    let len = ws.len();
    // Number of templates inside the window.
    let mut c: usize = 0;
    let mut i: usize = 0;
    while i < len
        invariant
            i <= len,
            len == ws@.len(),
            ws@.len() == wsp.len(),
            forall|j: int| 0 <= j < ws@.len() ==> ws@[j] as int == #[trigger] wsp[j],
            min_weight as int == window_low(n as int),
            max_weight as int == window_high(n as int),
            c as int == count_in_window(wsp, n as int, i as int),
            c <= i,
        decreases len - i,
    {
        let w = ws[i];
        if min_weight <= w && w <= max_weight {
            c = c + 1;
        }
        i = i + 1;
    }
    if c > 0 {
        proof {
            lemma_window_onto(wsp, n as int, roll as int, len as int);
        }
        let mut k: usize = 0;
        let mut i: usize = 0;
        while i < len
            invariant
                i <= len,
                len == ws@.len(),
                ws@.len() == wsp.len(),
                forall|j: int| 0 <= j < ws@.len() ==> ws@[j] as int == #[trigger] wsp[j],
                min_weight as int == window_low(n as int),
                max_weight as int == window_high(n as int),
                k as int == count_in_window(wsp, n as int, i as int),
                k <= roll,
                c > 0,
                c as int == count_in_window(wsp, n as int, len as int),
                exists|j: int| i <= j < len && in_window(wsp[j], n as int) && count_in_window(wsp, n as int, j) == roll,
                wsp == weights_of(templates@, tunings@),
            decreases len - i,
        {
            let w = ws[i];
            if min_weight <= w && w <= max_weight {
                if k == roll {
                    assert(wsp[i as int] == w as int);
                    assert(in_window(wsp[i as int], n as int));
                    assert(wsp.len() == len);
                    return i;
                }
                proof {
                    let j = choose|j: int| i <= j < len && in_window(wsp[j], n as int) && count_in_window(wsp, n as int, j) == roll;
                    if j > i {
                        lemma_count_in_window_bound(wsp, n as int, i as int, j);
                    }
                }
                k = k + 1;
            } else {
                proof {
                    let j = choose|j: int| i <= j < len && in_window(wsp[j], n as int) && count_in_window(wsp, n as int, j) == roll;
                    assert(j != i);
                }
            }
            i = i + 1;
        }
        proof {
            assert(false);
        }
        0
    } else {
        let cutoff = (len * 7) / 10;
        let goal = cutoff + roll;
        proof {
            lemma_rank_onto(wsp, goal as int);
        }
        let mut i: usize = 0;
        while i < len
            invariant
                i <= len,
                len == ws@.len(),
                ws@.len() == wsp.len(),
                forall|j: int| 0 <= j < ws@.len() ==> ws@[j] as int == #[trigger] wsp[j],
                goal as int == heavy_cutoff(len as int) + roll,
                count_in_window(wsp, n as int, len as int) == 0,
                exists|j: int| i <= j < len && stable_rank(wsp, j) == goal,
                wsp == weights_of(templates@, tunings@),
            decreases len - i,
        {
            // Rank of template i in the stably sorted catalogue.
            let wi = ws[i];
            let mut r: usize = 0;
            let mut j: usize = 0;
            while j < len
                invariant
                    j <= len,
                    i < len,
                    len == ws@.len(),
                    ws@.len() == wsp.len(),
                    forall|q: int| 0 <= q < ws@.len() ==> ws@[q] as int == #[trigger] wsp[q],
                    wi == ws@[i as int],
                    r as int == count_before(wsp, i as int, j as int),
                    r <= j,
                decreases len - j,
            {
                let wj = ws[j];
                if wj < wi || (wj == wi && j < i) {
                    r = r + 1;
                }
                j = j + 1;
            }
            if r == goal {
                assert(wsp.len() == len);
                assert(stable_rank(wsp, i as int) == r);
                return i;
            }
            i = i + 1;
        }
        proof {
            assert(false);
        }
        0
    }
}

/// Random template for wave `n`, drawn uniformly among the eligible ones:
/// those whose weight falls in the window `[target - 7, target + 7]`
/// around `wave_weight_target(n)`, or, if none does, the heaviest 30% of
/// the catalogue.
pub fn template_for_wave(n: u32, tunings: &[EnemyTuning]) -> (t: WaveTemplate)
    requires
        window_high(n as int) <= u32::MAX,
        forall|k: int| 0 <= k < wave_templates_spec().len() ==> #[trigger] catalogue_weights(tunings@)[k] <= u32::MAX,
    ensures
        exists|i: int|
            eligible(catalogue_weights(tunings@), n as int, i) && template_view(t) == wave_templates_spec()[i],
{
    let mut templates = wave_templates();
    let ghost wsp = weights_of(templates@, tunings@);
    proof {
        assert forall|k: int| 0 <= k < templates@.len() implies #[trigger] wsp[k] == catalogue_weights(tunings@)[k] by {
            assert(template_view(templates@[k]) == wave_templates_spec()[k]);
        }
        assert(wsp =~= catalogue_weights(tunings@));
    }
    let len = templates.len();
    let ws = template_weights(&templates, tunings);
    let target = wave_weight_target(n);
    let half = WEIGHT_WINDOW / 2;
    let min_weight = if target >= half { target - half } else { 0 };
    let max_weight = target + half;
    let mut c: usize = 0;
    let mut i: usize = 0;
    while i < len
        invariant
            i <= len,
            len == ws@.len(),
            ws@.len() == wsp.len(),
            forall|j: int| 0 <= j < ws@.len() ==> ws@[j] as int == #[trigger] wsp[j],
            min_weight as int == window_low(n as int),
            max_weight as int == window_high(n as int),
            c as int == count_in_window(wsp, n as int, i as int),
            c <= i,
        decreases len - i,
    {
        let w = ws[i];
        if min_weight <= w && w <= max_weight {
            c = c + 1;
        }
        i = i + 1;
    }
    let count = if c > 0 { c } else { len - (len * 7) / 10 };
    let roll = random_usize_in(0, count - 1);
    let idx = template_for_wave_with_roll(n, tunings, &templates, roll);
    proof {
        if c == 0 {
            assert(stable_rank(wsp, idx as int) >= heavy_cutoff(len as int));
        }
        assert(eligible(wsp, n as int, idx as int));
        assert(template_view(templates@[idx as int]) == wave_templates_spec()[idx as int]);
    }
    templates.remove(idx)
}

/// Number of enemies in the first `k` members of a template.
pub open spec fn count_total(members: Seq<(&'static str, u32)>, k: int) -> int
    decreases k,
{
    if k <= 0 {
        0
    } else {
        count_total(members, k - 1) + members[k - 1].1 as int
    }
}

/// Every template among the first `k` of the catalogue has at most `bound`
/// enemies.
pub open spec fn catalogue_counts_within(k: int, bound: int) -> bool
    decreases k,
{
    if k <= 0 {
        true
    } else {
        catalogue_counts_within(k - 1, bound) && count_total(
            wave_templates_spec()[k - 1].1,
            wave_templates_spec()[k - 1].1.len() as int,
        ) <= bound
    }
}

proof fn lemma_counts_within_at(k: int, bound: int, i: int)
    requires
        catalogue_counts_within(k, bound),
        0 <= i < k,
    ensures
        count_total(wave_templates_spec()[i].1, wave_templates_spec()[i].1.len() as int) <= bound,
    decreases k,
{
    if i < k - 1 {
        lemma_counts_within_at(k - 1, bound, i);
    }
}

/// The cost a pool gives to a name is at most the largest cost of the pool.
proof fn lemma_named_cost_at_most(tunings: Seq<EnemyTuning>, name: Seq<char>, c: int)
    requires
        forall|i: int| 0 <= i < tunings.len() ==> #[trigger] tunings[i].cost <= c,
        c >= 0,
    ensures
        0 <= named_cost(tunings, name) <= c,
{
    if has_named(tunings, name) {
        crate::chaos::lemma_has_named_first(tunings, name);
        let i = crate::chaos::first_named_index(tunings, name);
        lemma_named_cost_at_first(tunings, name, i);
        assert(tunings[i].cost <= c);
    }
}

proof fn lemma_members_weight_at_most(
    members: Seq<(&'static str, u32)>,
    tunings: Seq<EnemyTuning>,
    k: int,
    c: int,
)
    requires
        0 <= k <= members.len(),
        c >= 0,
        forall|i: int| 0 <= i < tunings.len() ==> #[trigger] tunings[i].cost <= c,
    ensures
        members_weight(members, tunings, k) <= c * count_total(members, k),
    decreases k,
{
    if k > 0 {
        lemma_members_weight_at_most(members, tunings, k - 1, c);
        let n = members[k - 1].1 as int;
        let cost = named_cost(tunings, members[k - 1].0@);
        lemma_named_cost_at_most(tunings, members[k - 1].0@, c);
        assert(n * cost <= n * c) by (nonlinear_arith)
            requires
                0 <= cost <= c,
                n >= 0,
        ;
        assert(c * count_total(members, k) == c * count_total(members, k - 1) + c * n) by (nonlinear_arith)
            requires
                count_total(members, k) == count_total(members, k - 1) + n,
        ;
        assert(c * n == n * c) by (nonlinear_arith);
    }
}

/// A template of the catalogue holds at most nine enemies, so against a
/// pool whose costs are at most `c` its weight is at most `9c`. With the
/// default pool (costs up to 60) every weight is at most 540, and the
/// weights of any pool whose costs stay under a ninth of `u32::MAX` fit in
/// a `u32`, as `WavesConfig::tick` requires.
pub proof fn lemma_catalogue_weights_bound(tunings: Seq<EnemyTuning>, c: int)
    requires
        c >= 0,
        forall|i: int| 0 <= i < tunings.len() ==> #[trigger] tunings[i].cost <= c,
    ensures
        forall|k: int| 0 <= k < wave_templates_spec().len() ==> #[trigger] catalogue_weights(tunings)[k] <= 9 * c,
{
    assert(catalogue_counts_within(36, 9)) by {
        reveal_with_fuel(catalogue_counts_within, 37);
        reveal_with_fuel(count_total, 4);
    }
    assert forall|k: int| 0 <= k < wave_templates_spec().len() implies #[trigger] catalogue_weights(tunings)[k]
        <= 9 * c by {
        let m = wave_templates_spec()[k].1;
        lemma_counts_within_at(36, 9, k);
        lemma_members_weight_at_most(m, tunings, m.len() as int, c);
        assert(c * count_total(m, m.len() as int) <= c * 9) by (nonlinear_arith)
            requires
                count_total(m, m.len() as int) <= 9,
                c >= 0,
        ;
    }
}

/// From a new waves level (default pool, wave 0), every tick is allowed
/// while the wave counter stays below 1,431,655,760 (beyond it, the weight
/// window of the next wave no longer fits in a `u32`): the catalogue's
/// weights against the default pool are at most 540.
pub proof fn lemma_default_waves_ticks_allowed(wave_number: u32)
    requires
        3 * wave_number + 14 <= u32::MAX,
    ensures
        wave_number < u32::MAX,
        window_high(wave_number + 1) <= u32::MAX,
        forall|k: int|
            0 <= k < wave_templates_spec().len() ==> #[trigger] catalogue_weights(default_tunings_spec())[k] <= 540,
{
    let d = default_tunings_spec();
    assert forall|i: int| 0 <= i < d.len() implies #[trigger] d[i].cost <= 60 by {}
    lemma_catalogue_weights_bound(d, 60);
}

/// Every member of every template of the catalogue comes at least once.
pub proof fn lemma_catalogue_counts_positive()
    ensures
        forall|i: int, j: int|
            0 <= i < wave_templates_spec().len() && 0 <= j < wave_templates_spec()[i].1.len()
                ==> #[trigger] wave_templates_spec()[i].1[j].1 >= 1,
{
    assert forall|i: int, j: int|
        0 <= i < wave_templates_spec().len() && 0 <= j < wave_templates_spec()[i].1.len()
            implies #[trigger] wave_templates_spec()[i].1[j].1 >= 1 by {
        let t = wave_templates_spec()[i];
        assert(t.1[j].1 >= 1);
    }
}

/// Number of enemies still to release from a wave queue.
pub open spec fn queue_total(q: Seq<(&'static str, u32)>) -> int
    decreases q.len(),
{
    if q.len() == 0 {
        0
    } else {
        q[0].1 as int + queue_total(q.drop_first())
    }
}

/// Every entry of a wave queue still has at least one enemy to release.
pub open spec fn queue_wf(q: Seq<(&'static str, u32)>) -> bool {
    forall|i: int| 0 <= i < q.len() ==> #[trigger] q[i].1 >= 1
}

/// The queue after `k` releases.
pub open spec fn queue_after_releases(q: Seq<(&'static str, u32)>, k: nat) -> Seq<(&'static str, u32)>
    decreases k,
{
    if k == 0 {
        q
    } else {
        queue_after_release(queue_after_releases(q, (k - 1) as nat))
    }
}

/// A queue holds no enemy exactly when it has no entry.
proof fn lemma_queue_total_zero(q: Seq<(&'static str, u32)>)
    requires
        queue_wf(q),
    ensures
        queue_total(q) >= q.len(),
        q.len() == 0 <==> queue_total(q) == 0,
    decreases q.len(),
{
    if q.len() > 0 {
        assert(q[0].1 >= 1);
        lemma_queue_total_zero(q.drop_first());
    }
}

/// Releasing one enemy of a non-empty queue leaves one fewer to release.
proof fn lemma_release_one(q: Seq<(&'static str, u32)>)
    requires
        queue_wf(q),
        q.len() > 0,
    ensures
        queue_wf(queue_after_release(q)),
        queue_total(queue_after_release(q)) == queue_total(q) - 1,
{
    let r = queue_after_release(q);
    if q[0].1 == 1 {
        assert(r == q.drop_first());
    } else {
        assert(r.drop_first() =~= q.drop_first());
        assert(r.len() > 0);
        assert(queue_total(r) == r[0].1 as int + queue_total(r.drop_first()));
    }
}

/// A wave releases exactly as many enemies as its queue lists: after `k`
/// releases the queue holds `k` fewer, and it runs out exactly at the
/// last one.
pub proof fn lemma_wave_releases_all(q: Seq<(&'static str, u32)>, k: nat)
    requires
        queue_wf(q),
        k <= queue_total(q),
    ensures
        queue_wf(queue_after_releases(q, k)),
        queue_total(queue_after_releases(q, k)) == queue_total(q) - k,
        queue_after_releases(q, k).len() == 0 <==> k == queue_total(q),
    decreases k,
{
    if k > 0 {
        lemma_wave_releases_all(q, (k - 1) as nat);
        let p = queue_after_releases(q, (k - 1) as nat);
        lemma_queue_total_zero(p);
        lemma_release_one(p);
    }
    lemma_queue_total_zero(queue_after_releases(q, k));
}

/// Phase of the waves spawner. The pause and spawn timers are kept by the
/// caller, which reports their expiry to `WavesConfig::tick`.
#[derive(Debug)]
pub enum WavesState {
    /// Short pause after the last kill of a wave.
    Idle,
    /// The wave's members are released one per spawn tick.
    Spawning { template_name: &'static str, queue: Vec<(&'static str, u32)> },
    /// Every member has been released; waiting for all of them to die.
    Waiting,
}

/// State of the waves level.
#[derive(Debug)]
pub struct WavesConfig {
    pub enemies: Vec<EnemyTuning>,
    pub wave_number: u32,
    pub state: WavesState,
}

/// Queue of a waves state (empty outside `Spawning`).
pub open spec fn state_queue(s: WavesState) -> Seq<(&'static str, u32)> {
    match s {
        WavesState::Spawning { queue, .. } => queue@,
        _ => Seq::empty(),
    }
}

/// The queue after releasing one enemy of its first entry.
pub open spec fn queue_after_release(q: Seq<(&'static str, u32)>) -> Seq<(&'static str, u32)> {
    if q[0].1 == 1 {
        q.drop_first()
    } else {
        q.update(0, (q[0].0, (q[0].1 - 1) as u32))
    }
}

/// The spawn order of the first tuning named `name`, if the pool has one.
pub open spec fn order_for_name(enemies: Seq<EnemyTuning>, name: Seq<char>) -> Option<SpawnOrder> {
    if has_named(enemies, name) {
        Some(spawn_order_of(enemies[choose|i: int| is_first_named(enemies, name, i)]))
    } else {
        None
    }
}

/// Queue left after one tick of `Spawning` on queue `q`.
pub open spec fn queue_after_tick(q: Seq<(&'static str, u32)>, spawn_due: bool) -> Seq<(&'static str, u32)> {
    if spawn_due && q.len() > 0 {
        queue_after_release(q)
    } else {
        q
    }
}

/// What one tick does to the wave counter and the phase, for the tick's
/// inputs (pause over, spawn due, enemies alive): the counter goes up by
/// one exactly when a pause gives way to a new wave; a wave being released
/// turns to waiting exactly when its queue runs out; waiting turns to a
/// pause exactly when nothing is alive; no other change of phase.
pub open spec fn waves_tick_rel(a: (u32, WavesState), input: (bool, bool, usize), b: (u32, WavesState)) -> bool {
    &&& b.0 == if a.1 is Idle && input.0 {
        a.0 + 1
    } else {
        a.0 as int
    }
    &&& a.1 is Idle ==> if input.0 {
        b.1 is Spawning
    } else {
        b.1 is Idle
    }
    &&& a.1 is Spawning ==> if queue_after_tick(state_queue(a.1), input.1).len() == 0 {
        b.1 is Waiting
    } else {
        b.1 is Spawning
    }
    &&& a.1 is Waiting ==> if input.2 == 0 {
        b.1 is Idle
    } else {
        b.1 is Waiting
    }
}

/// Number of waves started during the first `k` ticks of `run`.
pub open spec fn waves_started(run: Seq<(u32, WavesState)>, k: int) -> int
    decreases k,
{
    if k <= 0 {
        0
    } else {
        waves_started(run, k - 1) + if run[k - 1].1 is Idle && run[k].1 is Spawning {
            1int
        } else {
            0
        }
    }
}

/// A run of the waves machine, tick after tick (`inputs[i]` drives the
/// tick from `run[i]` to `run[i + 1]`): the wave counter counts the waves
/// started, and the phases only ever go round pause → release → waiting →
/// pause.
pub proof fn lemma_waves_run(run: Seq<(u32, WavesState)>, inputs: Seq<(bool, bool, usize)>)
    requires
        run.len() == inputs.len() + 1,
        forall|i: int| 0 <= i < inputs.len() ==> #[trigger] waves_tick_rel(run[i], inputs[i], run[i + 1]),
    ensures
        forall|k: int| 0 <= k < run.len() ==> (#[trigger] run[k]).0 == run[0].0 + waves_started(run, k),
        forall|i: int|
            0 <= i < inputs.len() ==> {
                ||| (#[trigger] run[i]).1 is Idle && (run[i + 1].1 is Idle || run[i + 1].1 is Spawning)
                ||| run[i].1 is Spawning && (run[i + 1].1 is Spawning || run[i + 1].1 is Waiting)
                ||| run[i].1 is Waiting && (run[i + 1].1 is Waiting || run[i + 1].1 is Idle)
            },
{
    assert forall|k: int| 0 <= k < run.len() implies (#[trigger] run[k]).0 == run[0].0 + waves_started(run, k) by {
        lemma_waves_count(run, inputs, k);
    }
    assert forall|i: int| 0 <= i < inputs.len() implies {
        ||| (#[trigger] run[i]).1 is Idle && (run[i + 1].1 is Idle || run[i + 1].1 is Spawning)
        ||| run[i].1 is Spawning && (run[i + 1].1 is Spawning || run[i + 1].1 is Waiting)
        ||| run[i].1 is Waiting && (run[i + 1].1 is Waiting || run[i + 1].1 is Idle)
    } by {
        assert(waves_tick_rel(run[i], inputs[i], run[i + 1]));
    }
}

proof fn lemma_waves_count(run: Seq<(u32, WavesState)>, inputs: Seq<(bool, bool, usize)>, k: int)
    requires
        run.len() == inputs.len() + 1,
        forall|i: int| 0 <= i < inputs.len() ==> #[trigger] waves_tick_rel(run[i], inputs[i], run[i + 1]),
        0 <= k < run.len(),
    ensures
        run[k].0 == run[0].0 + waves_started(run, k),
    decreases k,
{
    if k > 0 {
        let j = k - 1;
        lemma_waves_count(run, inputs, j);
        assert(waves_tick_rel(run[j], inputs[j], run[j + 1]));
    }
}

impl WavesConfig {
    /// Well-formed: a spawning queue holds no exhausted entry.
    pub open spec fn wf(&self) -> bool {
        queue_wf(state_queue(self.state))
    }

    /// Default waves level: default pool, no wave yet, short pause first.
    pub fn new() -> (c: Self)
        ensures
            c.enemies@ == default_tunings_spec(),
            c.wave_number == 0,
            c.state is Idle,
            c.wf(),
    {
        WavesConfig { enemies: default_tunings(), wave_number: 0, state: WavesState::Idle }
    }

    /// Starts the next wave with `template`: the wave counter goes up by
    /// one and the template's members are queued.
    pub fn start_wave(&mut self, template: WaveTemplate)
        requires
            old(self).wave_number < u32::MAX,
            queue_wf(template.members@),
        ensures
            final(self).wave_number == old(self).wave_number + 1,
            final(self).enemies == old(self).enemies,
            final(self).state matches WavesState::Spawning { template_name, queue }
                && template_name == template.name && queue@ == template.members@,
            final(self).wf(),
    {
        self.wave_number = self.wave_number + 1;
        self.state = WavesState::Spawning { template_name: template.name, queue: template.members };
    }

    /// One tick of the waves machine. `settle_finished`: the pause timer
    /// has run out; `spawn_due`: the spawn timer fired this tick; `alive`:
    /// enemies and wave spawners still present. Returns the spawn order of
    /// the enemy released this tick, if any.
    pub fn tick(&mut self, settle_finished: bool, spawn_due: bool, alive: usize) -> (order: Option<SpawnOrder>)
        requires
            old(self).wf(),
            old(self).state is Idle ==> old(self).wave_number < u32::MAX && window_high(
                old(self).wave_number + 1,
            ) <= u32::MAX && forall|k: int|
                0 <= k < wave_templates_spec().len() ==> #[trigger] catalogue_weights(
                    old(self).enemies@,
                )[k] <= u32::MAX,
        ensures
            final(self).wf(),
            final(self).enemies == old(self).enemies,
            // Idle: once the pause is over, the next wave starts with an
            // eligible template.
            old(self).state is Idle && !settle_finished ==> final(self).wave_number
                == old(self).wave_number && final(self).state is Idle && order is None,
            old(self).state is Idle && settle_finished ==> {
                &&& final(self).wave_number == old(self).wave_number + 1
                &&& order is None
                &&& exists|i: int|
                    eligible(catalogue_weights(old(self).enemies@), final(self).wave_number as int, i)
                        && (final(self).state matches WavesState::Spawning { template_name, queue }
                        && template_name == wave_templates_spec()[i].0
                        && queue@ == wave_templates_spec()[i].1)
            },
            // Spawning: one enemy released per spawn tick, then Waiting.
            old(self).state matches WavesState::Spawning { template_name, queue } ==> {
                let q = queue@;
                let q2 = if spawn_due && q.len() > 0 { queue_after_release(q) } else { q };
                &&& final(self).wave_number == old(self).wave_number
                &&& order == if spawn_due && q.len() > 0 {
                    order_for_name(old(self).enemies@, q[0].0@)
                } else {
                    None
                }
                &&& spawn_due && q.len() > 0 ==> queue_total(q2) == queue_total(q) - 1
                &&& if q2.len() == 0 {
                    final(self).state is Waiting
                } else {
                    final(self).state matches WavesState::Spawning { template_name: n2, queue: q3 }
                        && n2 == template_name && q3@ == q2
                }
            },
            waves_tick_rel(
                (old(self).wave_number, old(self).state),
                (settle_finished, spawn_due, alive),
                (final(self).wave_number, final(self).state),
            ),
            // Waiting: back to Idle once every member is dead.
            old(self).state is Waiting ==> {
                &&& final(self).wave_number == old(self).wave_number
                &&& order is None
                &&& if alive == 0 {
                    final(self).state is Idle
                } else {
                    final(self).state is Waiting
                }
            },
    {
        let mut state = WavesState::Waiting;
        std::mem::swap(&mut state, &mut self.state);
        match state {
            WavesState::Idle => {
                if !settle_finished {
                    self.state = WavesState::Idle;
                    None
                } else {
                    let next_wave = self.wave_number + 1;
                    let template = template_for_wave(next_wave, &self.enemies);
                    proof {
                        lemma_catalogue_counts_positive();
                        let i = choose|i: int|
                            eligible(catalogue_weights(self.enemies@), next_wave as int, i)
                                && template_view(template) == wave_templates_spec()[i];
                        assert(template.members@ == wave_templates_spec()[i].1);
                        assert(queue_wf(template.members@));
                    }
                    self.start_wave(template);
                    None
                }
            },
            WavesState::Spawning { template_name, mut queue } => {
                let mut order: Option<SpawnOrder> = None;
                if spawn_due && queue.len() > 0 {
                    let ghost q = queue@;
                    let (name, count) = queue[0];
                    match find_tuning(&self.enemies, name) {
                        Some(k) => {
                            let o = spawn_order(&self.enemies[k]);
                            proof {
                                let c = choose|i: int| is_first_named(self.enemies@, name@, i);
                                assert(is_first_named(self.enemies@, name@, c));
                            }
                            order = Some(o);
                        },
                        None => {},
                    }
                    if count == 1 {
                        queue.remove(0);
                        proof {
                            assert(queue@ =~= q.drop_first());
                        }
                    } else {
                        queue.set(0, (name, count - 1));
                        proof {
                            assert(queue@.drop_first() =~= q.drop_first());
                        }
                    }
                    proof {
                        assert(queue@ =~= queue_after_release(q));
                    }
                }
                if queue.len() == 0 {
                    self.state = WavesState::Waiting;
                } else {
                    self.state = WavesState::Spawning { template_name, queue };
                }
                order
            },
            WavesState::Waiting => {
                if alive == 0 {
                    self.state = WavesState::Idle;
                } else {
                    self.state = WavesState::Waiting;
                }
                None
            },
        }
    }
}

} // verus!

//! Arenas: wall layouts that change every `WAVES_PER_ARENA` waves in the
//! waves level. On each rotation a new layout is drawn at random, different
//! from the current one when there is a choice.
use vstd::prelude::*;
use crate::rng::{random_usize_in, same_name};

verus! {

/// Number of waves between two arena changes.
pub const WAVES_PER_ARENA: u32 = 3;

/// Names of the arena layouts, in catalogue order.
pub open spec fn arena_names_spec() -> Seq<Seq<char>> {
    seq![
        "Vide"@,
        "Murs latéraux"@,
        "Couloir central"@,
        "Trois piliers"@,
        "Bunkers"@,
        "Croix"@,
        "Zigzag"@,
        "Forteresse haute"@,
    ]
}

/// Names of the arena layouts (the walls of each layout are kept by the
/// game, in the same order).
pub fn arena_pattern_names() -> (v: Vec<&'static str>)
    ensures
        v@.map_values(|s: &'static str| s@) == arena_names_spec(),
{
    let v = vec![
        "Vide",
        "Murs latéraux",
        "Couloir central",
        "Trois piliers",
        "Bunkers",
        "Croix",
        "Zigzag",
        "Forteresse haute",
    ];
    assert(v@.map_values(|s: &'static str| s@) =~= arena_names_spec());
    v
}

/// The arena layouts have distinct names.
pub proof fn lemma_arena_names_distinct()
    ensures
        forall|i: int, j: int|
            0 <= i < arena_names_spec().len() && 0 <= j < arena_names_spec().len() && i != j
                ==> arena_names_spec()[i] != arena_names_spec()[j],
{
    reveal_strlit("Vide");
    reveal_strlit("Murs latéraux");
    reveal_strlit("Couloir central");
    reveal_strlit("Trois piliers");
    reveal_strlit("Bunkers");
    reveal_strlit("Croix");
    reveal_strlit("Zigzag");
    reveal_strlit("Forteresse haute");
    let s = arena_names_spec();
    assert(s[0].len() == 4);
    assert(s[1].len() == 13);
    assert(s[2].len() == 15);
    assert(s[3].len() == 13);
    assert(s[4].len() == 7);
    assert(s[5].len() == 5);
    assert(s[6].len() == 6);
    assert(s[7].len() == 16);
    assert(s[1][0] != s[3][0]);
}

/// All names of a list are distinct.
pub open spec fn names_distinct(names: Seq<&'static str>) -> bool {
    forall|i: int, j: int| 0 <= i < names.len() && 0 <= j < names.len() && i != j ==> names[i]@ != names[j]@
}

/// Layout that `roll` designates: the drawn one, or the next one (wrapping
/// around) if the drawn one is the current layout and there is a choice.
pub open spec fn arena_choice(names: Seq<&'static str>, roll: int, current: Option<&'static str>) -> int {
    if names.len() > 1 && current is Some && names[roll]@ == current.unwrap()@ {
        (roll + 1) % (names.len() as int)
    } else {
        roll
    }
}

/// Index of the layout for drawn index `roll` (see `arena_choice`).
pub fn choose_arena_with_roll(names: &Vec<&'static str>, roll: usize, current: Option<&'static str>) -> (i: usize)
    requires
        roll < names@.len(),
    ensures
        i as int == arena_choice(names@, roll as int, current),
        i < names@.len(),
        names_distinct(names@) && names@.len() > 1 && current is Some ==> names@[i as int]@
            != current.unwrap()@,
{
    let len = names.len();
    let mut idx = roll;
    if len > 1 {
        match current {
            Some(current_name) => {
                if same_name(names[idx], current_name) {
                    if idx + 1 < len {
                        assert((idx + 1) % (len as int) == idx + 1) by (nonlinear_arith)
                            requires idx + 1 < len;
                    } else {
                        assert(idx + 1 == len);
                        assert((idx + 1) % (len as int) == 0) by (nonlinear_arith)
                            requires idx + 1 == len, len > 1;
                    }
                    idx = (idx + 1) % len;
                    assert(idx != roll);
                }
            },
            None => {},
        }
    }
    idx
}

/// Should the arena change at wave `n`? Never before the first wave; at the
/// first wave if no arena was set yet; then every `WAVES_PER_ARENA` waves.
pub open spec fn arena_change_due(last_changed_wave: int, n: int) -> bool {
    n != 0 && (last_changed_wave == 0 || (if n >= last_changed_wave {
        n - last_changed_wave
    } else {
        0
    }) >= WAVES_PER_ARENA)
}

/// The arena rotation: nothing at wave 0; the first arena comes with the
/// first wave; after that the arena changes once three waves have passed
/// since the last change, not before.
pub proof fn lemma_arena_rotation(last_changed_wave: int, n: int)
    requires
        last_changed_wave >= 0,
        n >= 0,
    ensures
        n == 0 ==> !arena_change_due(last_changed_wave, n),
        n >= 1 && last_changed_wave == 0 ==> arena_change_due(last_changed_wave, n),
        n >= 1 && last_changed_wave > 0 ==> (arena_change_due(last_changed_wave, n) <==> n >= last_changed_wave
            + 3),
{
}

/// Which arena is active. `last_changed_wave == 0` means none yet.
#[derive(Clone, Copy, Debug)]
pub struct ArenaState {
    pub last_changed_wave: u32,
    pub current_pattern: Option<&'static str>,
}

impl ArenaState {
    /// No arena yet.
    pub fn new() -> (s: Self)
        ensures
            s.last_changed_wave == 0,
            s.current_pattern is None,
    {
        ArenaState { last_changed_wave: 0, current_pattern: None }
    }

    /// Should the arena change at wave `wave_number`?
    pub fn should_change(&self, wave_number: u32) -> (r: bool)
        ensures
            r == arena_change_due(self.last_changed_wave as int, wave_number as int),
    {
        if wave_number == 0 {
            return false;
        }
        self.last_changed_wave == 0 || wave_number.saturating_sub(self.last_changed_wave) >= WAVES_PER_ARENA
    }

    /// Rotates the arena when due at wave `wave_number`: draws a layout
    /// (different from the current one when there is a choice), records it
    /// and returns its index in `arena_pattern_names()`. `None`, with the
    /// state unchanged, when no change is due.
    pub fn update(&mut self, wave_number: u32) -> (r: Option<usize>)
        ensures
            !arena_change_due(old(self).last_changed_wave as int, wave_number as int) ==> r is None
                && *final(self) == *old(self),
            arena_change_due(old(self).last_changed_wave as int, wave_number as int) ==> {
                &&& r matches Some(i) && i < arena_names_spec().len()
                &&& final(self).last_changed_wave == wave_number
                &&& final(self).current_pattern matches Some(p) && p@ == arena_names_spec()[r->0 as int]
                &&& old(self).current_pattern matches Some(c) ==> arena_names_spec()[r->0 as int] != c@
            },
    {
        if !self.should_change(wave_number) {
            return None;
        }
        let names = arena_pattern_names();
        proof {
            lemma_arena_names_distinct();
            assert forall|i: int, j: int| 0 <= i < names@.len() && 0 <= j < names@.len() && i != j
                implies names@[i]@ != names@[j]@ by {
                assert(names@[i]@ == arena_names_spec()[i]);
                assert(names@[j]@ == arena_names_spec()[j]);
            }
        }
        assert(names@.len() == 8) by {
            assert(names@.map_values(|s: &'static str| s@).len() == 8);
        }
        let roll = random_usize_in(0, names.len() - 1);
        let idx = choose_arena_with_roll(&names, roll, self.current_pattern);
        proof {
            assert(names@[idx as int]@ == arena_names_spec()[idx as int]);
        }
        self.last_changed_wave = wave_number;
        self.current_pattern = Some(names[idx]);
        Some(idx)
    }

    /// Back to "no arena yet".
    pub fn reset(&mut self)
        ensures
            final(self).last_changed_wave == 0,
            final(self).current_pattern is None,
    {
        *self = ArenaState::new();
    }
}

} // verus!

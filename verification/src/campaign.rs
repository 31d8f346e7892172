//! Game flow between levels: game states, play modes, campaign progress,
//! the 2×2 level selection grid, the confirmation popup, and what happens
//! after a level is cleared or lost.
use std::collections::HashSet;
use vstd::prelude::*;

verus! {

/// Top-level state of the game.
#[derive(Clone, Copy, Debug, PartialEq, Eq)]
pub enum GameState {
    MainMenu,
    Playing,
    /// Level selection screen (campaign or bounties).
    LevelSelect,
    /// Transient state between two levels.
    LevelTransition,
    /// Short loading screen before `Playing`.
    Loading,
    Editor,
    /// "Thanks for playing" screen.
    Credits,
    GameOver,
}

/// Active play mode.
#[derive(Clone, Copy, Debug, PartialEq, Eq)]
pub enum PlayMode {
    /// Finish every level; progress is lost on death or quit.
    Campaign,
    /// Play any level à la carte.
    Primes,
}

/// Which level is being played (1-based) out of how many.
#[derive(Clone, Copy, Debug, PartialEq, Eq)]
pub struct GameProgress {
    pub current_level: usize,
    pub total_levels: usize,
}

impl GameProgress {
    /// Level 1 of the whole registry.
    pub fn new() -> (p: Self)
        ensures
            p.current_level == 1,
            p.total_levels == crate::levels::level_count(),
    {
        GameProgress { current_level: 1, total_levels: crate::levels::all_levels().len() }
    }
}

/// Levels completed in the current campaign (a set of level numbers).
#[derive(Debug)]
pub struct CampaignProgress {
    completed: HashSet<usize>,
}

impl View for CampaignProgress {
    type V = Set<usize>;

    closed spec fn view(&self) -> Set<usize> {
        self.completed@
    }
}

impl CampaignProgress {
    #[verifier::type_invariant]
    closed spec fn finite_set(self) -> bool {
        self.completed@.finite()
    }

    /// A campaign with no completed level.
    pub fn new() -> (c: Self)
        ensures
            c@ == Set::<usize>::empty(),
    {
        CampaignProgress { completed: HashSet::new() }
    }

    /// Has level `level` been completed?
    pub fn contains(&self, level: usize) -> (r: bool)
        ensures
            r == self@.contains(level),
    {
        broadcast use vstd::std_specs::hash::group_hash_axioms;

        self.completed.contains(&level)
    }

    /// Records level `level` as completed.
    pub fn insert(&mut self, level: usize)
        ensures
            final(self)@ == old(self)@.insert(level),
    {
        broadcast use vstd::std_specs::hash::group_hash_axioms;

        proof {
            use_type_invariant(&*self);
        }
        let mut set: HashSet<usize> = HashSet::new();
        std::mem::swap(&mut set, &mut self.completed);
        set.insert(level);
        self.completed = set;
    }

    /// Number of completed levels.
    pub fn len(&self) -> (n: usize)
        ensures
            n as int == self@.len(),
            self@.finite(),
    {
        broadcast use vstd::std_specs::hash::group_hash_axioms;

        proof {
            use_type_invariant(self);
        }
        self.completed.len()
    }

    /// Has no level been completed yet?
    pub fn is_empty(&self) -> (r: bool)
        ensures
            r == (self@.len() == 0),
    {
        self.len() == 0
    }
}

/// Direction pressed on the level selection grid.
#[derive(Clone, Copy, Debug, PartialEq, Eq)]
pub enum NavDirection {
    Left,
    Right,
    Up,
    Down,
}

/// Slot `idx` (0-based) can be selected: it shows a level that is not
/// completed.
pub open spec fn slot_available(idx: int, total: int, completed: Set<usize>) -> bool {
    idx < total && !completed.contains((idx + 1) as usize)
}

/// Recording a cleared level marks that level as completed and changes no
/// other level.
pub proof fn lemma_record_level(done: Set<usize>, level: usize, other: usize)
    ensures
        done.insert(level).contains(level),
        other != level ==> (done.insert(level).contains(other) == done.contains(other)),
{
}

/// Neighbour of slot `selected` on the 2×2 grid (0 1 / 2 3) in direction
/// `dir`, or `selected` itself at an edge.
pub open spec fn grid_target(selected: int, total: int, dir: NavDirection) -> int {
    match dir {
        NavDirection::Left => if selected % 2 == 1 { selected - 1 } else { selected },
        NavDirection::Right => if selected % 2 == 0 && selected + 1 < total { selected + 1 } else { selected },
        NavDirection::Up => if selected >= 2 { selected - 2 } else { selected },
        NavDirection::Down => if selected + 2 < total { selected + 2 } else { selected },
    }
}

/// Moves on the 2×2 grid, slot `s` standing in row `s / 2` and column
/// `s % 2`: up goes to the slot above in the same column (from the bottom
/// row), down to the slot below in the same column (if the grid has it),
/// left to the slot on the left in the same row (from the right column),
/// right to the slot on the right in the same row (if the grid has it);
/// a move off the grid stays put.
pub proof fn lemma_grid_moves(selected: int, total: int)
    requires
        0 <= selected,
    ensures
        selected >= 2 ==> ({
            let t = grid_target(selected, total, NavDirection::Up);
            t == selected - 2 && t % 2 == selected % 2 && t / 2 == selected / 2 - 1
        }),
        selected < 2 ==> grid_target(selected, total, NavDirection::Up) == selected,
        selected + 2 < total ==> ({
            let t = grid_target(selected, total, NavDirection::Down);
            t == selected + 2 && t % 2 == selected % 2 && t / 2 == selected / 2 + 1
        }),
        selected + 2 >= total ==> grid_target(selected, total, NavDirection::Down) == selected,
        selected % 2 == 1 ==> ({
            let t = grid_target(selected, total, NavDirection::Left);
            t == selected - 1 && t / 2 == selected / 2
        }),
        selected % 2 == 0 ==> grid_target(selected, total, NavDirection::Left) == selected,
        selected % 2 == 0 && selected + 1 < total ==> ({
            let t = grid_target(selected, total, NavDirection::Right);
            t == selected + 1 && t / 2 == selected / 2
        }),
        !(selected % 2 == 0 && selected + 1 < total) ==> grid_target(selected, total, NavDirection::Right)
            == selected,
{
}

/// The level of slot `i` (level `i + 1`) is completed.
pub open spec fn slot_done(completed: Set<usize>, i: int) -> bool {
    completed.contains((i + 1) as usize)
}

/// Slot `i` is the first of the first `n` slots whose level is not
/// completed.
pub open spec fn is_first_open_slot(completed: Set<usize>, n: int, i: int) -> bool {
    &&& 0 <= i < n
    &&& !slot_done(completed, i)
    &&& forall|j: int| 0 <= j < i ==> #[trigger] slot_done(completed, j)
}

/// First slot (among the first `min(total_levels, 4)`) whose level is not
/// completed, 0 if all are.
pub open spec fn first_available_spec(total_levels: int, completed: Set<usize>) -> int {
    if exists|i: int| #[trigger] is_first_open_slot(completed, visible_slots(total_levels), i) {
        choose|i: int| #[trigger] is_first_open_slot(completed, visible_slots(total_levels), i)
    } else {
        0
    }
}

/// Number of slots considered for the first selection: `min(total_levels, 4)`.
pub open spec fn visible_slots(total_levels: int) -> int {
    if total_levels < 4 {
        total_levels
    } else {
        4
    }
}

/// Selection state of the level selection screen.
#[derive(Clone, Copy, Debug, PartialEq, Eq)]
pub struct LevelSelectState {
    pub selected: usize,
    /// Number of slots shown.
    pub total: usize,
}

/// First slot whose level is not completed among the first
/// `min(total_levels, 4)`, or 0.
pub fn first_available(total_levels: usize, completed: &CampaignProgress) -> (slot: usize)
    ensures
        slot as int == first_available_spec(total_levels as int, completed@),
        // The slot is the lowest of the first four (and of the levels) whose
        // level is not completed; 0 when every one of them is completed.
        ({
            let n = if total_levels < 4 { total_levels as int } else { 4 };
            if exists|level: usize| 1 <= level <= n && !#[trigger] completed@.contains(level) {
                &&& slot < n
                &&& !completed@.contains((slot + 1) as usize)
                &&& forall|level: usize| 1 <= level <= slot ==> #[trigger] completed@.contains(level)
            } else {
                slot == 0
            }
        }),
{
    let n = if total_levels < 4 { total_levels } else { 4 };
    let mut i: usize = 0;
    while i < n
        invariant
            i <= n,
            n == if total_levels < 4 { total_levels } else { 4 },
            forall|j: int| 0 <= j < i ==> #[trigger] slot_done(completed@, j),
        decreases n - i,
    {
        if !completed.contains(i + 1) {
            proof {
                let nn = visible_slots(total_levels as int);
                assert(nn == n as int);
                assert(is_first_open_slot(completed@, nn, i as int));
                let w = choose|k: int| #[trigger] is_first_open_slot(completed@, nn, k);
                if w < i {
                    assert(slot_done(completed@, w));
                } else if w > i {
                    assert(slot_done(completed@, i as int));
                }
                assert(w == i);
                assert forall|level: usize| 1 <= level <= i implies #[trigger] completed@.contains(level) by {
                    assert(slot_done(completed@, level - 1));
                }
                assert(!completed@.contains((i + 1) as usize));
            }
            return i;
        }
        i = i + 1;
    }
    proof {
        let nn = visible_slots(total_levels as int);
        assert(nn == n as int);
        assert forall|k: int| !is_first_open_slot(completed@, nn, k) by {
            if 0 <= k < n {
                assert(slot_done(completed@, k));
            }
        }
        assert forall|level: usize| 1 <= level <= n implies #[trigger] completed@.contains(level) by {
            assert(slot_done(completed@, level - 1));
        }
    }
    0
}

impl LevelSelectState {
    /// Selection screen with `total` slots, on the first available one.
    pub fn new(total_levels: usize, completed: &CampaignProgress) -> (s: Self)
        ensures
            s.selected as int == first_available_spec(total_levels as int, completed@),
            s.total == 4,
    {
        LevelSelectState { selected: first_available(total_levels, completed), total: 4 }
    }

    /// Moves the selection one slot in direction `dir`, provided that slot
    /// exists, differs, and holds a level that is not completed.
    pub fn navigate(&mut self, dir: NavDirection, completed: &CampaignProgress)
        requires
            old(self).selected + 2 <= usize::MAX,
        ensures
            final(self).total == old(self).total,
            final(self).selected == {
                let t = grid_target(old(self).selected as int, old(self).total as int, dir);
                if t != old(self).selected && slot_available(t, old(self).total as int, completed@) {
                    t as usize
                } else {
                    old(self).selected
                }
            },
            // The selection only moves onto a slot whose level is still to
            // play, and never leaves the grid.
            final(self).selected != old(self).selected ==> slot_available(
                final(self).selected as int,
                final(self).total as int,
                completed@,
            ),
            old(self).selected < old(self).total ==> final(self).selected < final(self).total,
            // Up and down keep the column, left and right keep the row.
            dir == NavDirection::Up && old(self).selected >= 2 && slot_available(
                old(self).selected - 2,
                old(self).total as int,
                completed@,
            ) ==> final(self).selected == old(self).selected - 2,
            dir == NavDirection::Down && slot_available(
                old(self).selected + 2,
                old(self).total as int,
                completed@,
            ) ==> final(self).selected == old(self).selected + 2,
            dir == NavDirection::Left && old(self).selected % 2 == 1 && slot_available(
                old(self).selected - 1,
                old(self).total as int,
                completed@,
            ) ==> final(self).selected == old(self).selected - 1,
            dir == NavDirection::Right && old(self).selected % 2 == 0 && slot_available(
                old(self).selected + 1,
                old(self).total as int,
                completed@,
            ) ==> final(self).selected == old(self).selected + 1,
    {
        let selected = self.selected;
        let total = self.total;
        let target = match dir {
            NavDirection::Left => if selected % 2 == 1 { selected - 1 } else { selected },
            NavDirection::Right => if selected % 2 == 0 && selected + 1 < total { selected + 1 } else { selected },
            NavDirection::Up => if selected >= 2 { selected - 2 } else { selected },
            NavDirection::Down => if selected + 2 < total { selected + 2 } else { selected },
        };
        if target != selected && target < total && !completed.contains(target + 1) {
            self.selected = target;
        }
    }

    /// Level number to launch from the selected slot, if it exists and is
    /// not completed.
    pub fn launch(&self, completed: &CampaignProgress) -> (r: Option<usize>)
        requires
            self.selected + 1 <= usize::MAX,
        ensures
            r == if self.selected + 1 <= self.total && !completed@.contains((self.selected + 1) as usize) {
                Some((self.selected + 1) as usize)
            } else {
                None::<usize>
            },
    {
        let level_num = self.selected + 1;
        if level_num <= self.total && !completed.contains(level_num) {
            Some(level_num)
        } else {
            None
        }
    }
}

/// What Escape does on the level selection screen.
#[derive(Clone, Copy, Debug, PartialEq, Eq)]
pub enum EscapeOutcome {
    /// Leave the play mode and go back to the main menu.
    BackToMenu,
    /// Ask for confirmation first (a campaign with progress would be lost).
    AskConfirmation,
}

/// Escape on the level selection screen: a campaign with completed levels
/// asks for confirmation; otherwise straight back to the main menu.
pub fn escape_outcome(mode: PlayMode, completed: &CampaignProgress) -> (r: EscapeOutcome)
    ensures
        r == if mode == PlayMode::Campaign && completed@.len() != 0 {
            EscapeOutcome::AskConfirmation
        } else {
            EscapeOutcome::BackToMenu
        },
{
    match mode {
        PlayMode::Primes => EscapeOutcome::BackToMenu,
        PlayMode::Campaign => {
            if !completed.is_empty() {
                EscapeOutcome::AskConfirmation
            } else {
                EscapeOutcome::BackToMenu
            }
        },
    }
}

/// Key pressed while the "progress will be lost" popup is open.
#[derive(Clone, Copy, Debug, PartialEq, Eq)]
pub enum ConfirmKey {
    Left,
    Right,
    Accept,
    Cancel,
}

/// Result of a key on the confirmation popup.
#[derive(Clone, Copy, Debug, PartialEq, Eq)]
pub enum ConfirmOutcome {
    /// The popup stays open.
    Stay,
    /// The popup closes, nothing else happens.
    Close,
    /// The campaign is abandoned: back to the main menu.
    QuitToMenu,
}

/// The confirmation popup: option 0 is "No", option 1 is "Yes".
#[derive(Clone, Copy, Debug, PartialEq, Eq)]
pub struct ConfirmPopup {
    pub selected: usize,
}

impl ConfirmPopup {
    /// A popup on "No".
    pub fn new() -> (p: Self)
        ensures
            p.selected == 0,
    {
        ConfirmPopup { selected: 0 }
    }

    /// Applies one key: Left/Right pick No/Yes, Accept confirms the choice,
    /// Cancel closes the popup.
    pub fn press(&mut self, key: ConfirmKey) -> (r: ConfirmOutcome)
        ensures
            key == ConfirmKey::Left ==> final(self).selected == 0 && r == ConfirmOutcome::Stay,
            key == ConfirmKey::Right ==> final(self).selected == 1 && r == ConfirmOutcome::Stay,
            key == ConfirmKey::Accept ==> *final(self) == *old(self) && r == if old(self).selected == 1 {
                ConfirmOutcome::QuitToMenu
            } else {
                ConfirmOutcome::Close
            },
            key == ConfirmKey::Cancel ==> *final(self) == *old(self) && r == ConfirmOutcome::Close,
    {
        match key {
            ConfirmKey::Left => {
                self.selected = 0;
                ConfirmOutcome::Stay
            },
            ConfirmKey::Right => {
                self.selected = 1;
                ConfirmOutcome::Stay
            },
            ConfirmKey::Accept => if self.selected == 1 {
                ConfirmOutcome::QuitToMenu
            } else {
                ConfirmOutcome::Close
            },
            ConfirmKey::Cancel => ConfirmOutcome::Close,
        }
    }
}

/// What confirming the outro of a cleared level leads to.
#[derive(Debug)]
pub struct OutroDecision {
    /// Next game state, if any.
    pub next_state: Option<GameState>,
    /// The campaign after recording the level (`None` once it is over, or
    /// if there was none).
    pub campaign: Option<CampaignProgress>,
    /// The play mode is to be cleared (the campaign is finished).
    pub clear_mode: bool,
}

/// After a cleared level (level `level` out of `total_levels`): in a
/// campaign the level is recorded and, once every level is done, the
/// campaign ends on the credits, otherwise back to the level selection;
/// bounties go back to the level selection; without a play mode, back to
/// the main menu. A campaign mode without campaign progress does nothing.
pub fn outro_decision(
    mode: Option<PlayMode>,
    campaign: Option<CampaignProgress>,
    level: usize,
    total_levels: usize,
) -> (d: OutroDecision)
    ensures
        mode == Some(PlayMode::Primes) ==> d.next_state == Some(GameState::LevelSelect) && !d.clear_mode
            && d.campaign == campaign,
        mode is None ==> d.next_state == Some(GameState::MainMenu) && !d.clear_mode && d.campaign == campaign,
        mode == Some(PlayMode::Campaign) && campaign is None ==> d.next_state is None && !d.clear_mode
            && d.campaign is None,
        mode == Some(PlayMode::Campaign) && campaign is Some ==> {
            let done = campaign->0@.insert(level);
            if done.len() >= total_levels {
                d.next_state == Some(GameState::Credits) && d.clear_mode && d.campaign is None
            } else {
                d.next_state == Some(GameState::LevelSelect) && !d.clear_mode && (d.campaign matches Some(c)
                    && c@ == done)
            }
        },
{
    match mode {
        Some(PlayMode::Campaign) => match campaign {
            Some(mut camp) => {
                camp.insert(level);
                if camp.len() >= total_levels {
                    OutroDecision { next_state: Some(GameState::Credits), campaign: None, clear_mode: true }
                } else {
                    OutroDecision { next_state: Some(GameState::LevelSelect), campaign: Some(camp), clear_mode: false }
                }
            },
            None => OutroDecision { next_state: None, campaign: None, clear_mode: false },
        },
        Some(PlayMode::Primes) => OutroDecision {
            next_state: Some(GameState::LevelSelect),
            campaign,
            clear_mode: false,
        },
        None => OutroDecision { next_state: Some(GameState::MainMenu), campaign, clear_mode: false },
    }
}

/// Key pressed on the game over screen (outside the popup).
#[derive(Clone, Copy, Debug, PartialEq, Eq)]
pub enum GameOverKey {
    Restart,
    Quit,
}

/// Game over screen: outside a campaign, R replays the level and Escape
/// goes back to the main menu (leaving the play mode); in a campaign these
/// keys do nothing.
pub fn game_over_next_state(mode: Option<PlayMode>, key: GameOverKey) -> (r: Option<GameState>)
    ensures
        mode == Some(PlayMode::Campaign) ==> r is None,
        mode != Some(PlayMode::Campaign) && key == GameOverKey::Restart ==> r == Some(GameState::Playing),
        mode != Some(PlayMode::Campaign) && key == GameOverKey::Quit ==> r == Some(GameState::MainMenu),
{
    let is_campaign = match mode {
        Some(PlayMode::Campaign) => true,
        _ => false,
    };
    if is_campaign {
        None
    } else {
        match key {
            GameOverKey::Restart => Some(GameState::Playing),
            GameOverKey::Quit => Some(GameState::MainMenu),
        }
    }
}

} // verus!

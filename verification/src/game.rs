use vstd::prelude::*;

use crate::alive::{
    all_destroyed, alive_indices, count_alive, count_destroyed, fresh_fleet, lemma_alive_indices,
    lemma_fresh_fleet_count, lemma_none_alive_iff_all_destroyed,
};
use crate::hits::{
    count_kills, lemma_resolve_hits, overlaps_view, resolve_hits, shot_fired,
    spec_resolve_hits, spec_shooter, shooter_for_draws,
};
use crate::fleet::ALIEN_COUNT;
use crate::menu::{spec_tab_next, spec_tab_prev, tab_next, tab_prev, MenuTab};
use crate::settings::{
    difficulty_at, difficulty_order, is_bindable, rebind_candidate, rebind_candidates,
    spec_default_settings, spec_with_binding, spec_with_row_color, Difficulty, Key, Settings, COLOR_COUNT,
    COLOR_ROW_COUNT, CONTROL_COUNT, DIFFICULTY_COUNT, REBIND_KEY_COUNT,
};

verus! {

/// Which screen the game shows.
#[derive(Clone, Copy, PartialEq, Eq, Structural, Debug)]
pub enum GameState {
    /// The start menu, on the given tab.
    Menu(MenuTab),
    /// Waiting for a key to bind to control `slot` (0 left, 1 right, 2 fire).
    Rebinding(usize),
    /// A round is being played.
    Playing,
    /// A round has ended; `true` when the player won it.
    GameOver(bool),
}

/// The menu widget a mouse click landed on this frame.
#[derive(Clone, Copy, PartialEq, Eq, Structural, Debug)]
pub enum Click {
    /// A tab of the tab bar.
    Tab(MenuTab),
    /// The key box of control `slot` on the controls tab.
    Binding(usize),
    /// The color box in row `row`, column `col` of the colors tab.
    ColorCell(usize, usize),
    /// Row `row` of the difficulty tab.
    DifficultyRow(usize),
}

/// What the player did during one frame.
pub struct FrameInput {
    /// The keys that went down this frame.
    pub pressed: Vec<Key>,
    /// The widget clicked this frame, if any.
    pub click: Option<Click>,
}

impl FrameInput {
    /// Whether `k` went down this frame.
    pub fn is_pressed(&self, k: Key) -> (b: bool)
        ensures
            b == self.pressed@.contains(k),
    {
        let mut i: usize = 0;
        while i < self.pressed.len()
            invariant
                i <= self.pressed@.len(),
                forall|j: int| 0 <= j < i ==> self.pressed@[j] != k,
            decreases self.pressed@.len() - i,
        {
            if self.pressed[i] == k {
                return true;
            }
            i += 1;
        }
        false
    }
}

/// What the program around the game has to do after a menu decision.
#[derive(Clone, Copy, PartialEq, Eq, Structural, Debug)]
pub enum Action {
    /// Nothing beyond drawing the new state.
    Stay,
    /// The menu tab changed; the rest of this frame is not drawn.
    SwitchTab,
    /// A new round starts: the player, the bullets and the fleet go back to their places.
    StartRound,
}

/// Where the menu cursors stand.
#[derive(Clone, Copy, PartialEq, Eq, Structural, Debug)]
pub struct MenuCursor {
    /// The highlighted row of the colors tab.
    pub color_row: usize,
    /// The highlighted column of the colors tab.
    pub color_col: usize,
    /// The highlighted row of the difficulty tab.
    pub diff_cursor: usize,
    /// Whether the colors tab hands the arrow keys to the tab bar.
    pub color_tab_mode: bool,
}

/// The whole game, as the rules see it.
#[verifier::ext_equal]
pub struct GameView {
    pub state: GameState,
    pub settings: Settings,
    pub cursor: MenuCursor,
    pub score: u32,
    pub alive: Seq<bool>,
}

/// The state of the game that the rules decide: the screen, the settings, the
/// menu cursors, the score and which aliens of the current round are alive.
pub struct Game {
    state: GameState,
    settings: Settings,
    cursor: MenuCursor,
    score: u32,
    alive: Vec<bool>,
}

impl View for Game {
    type V = GameView;

    closed spec fn view(&self) -> GameView {
        GameView {
            state: self.state,
            settings: self.settings,
            cursor: self.cursor,
            score: self.score,
            alive: self.alive@,
        }
    }
}

/// Points for each alien destroyed.
pub const POINTS_PER_ALIEN: u32 = 10;

impl GameView {
    /// The invariant of the game: settings within range, cursors on the grid,
    /// a fleet that is empty or full size, and a score of ten points for every
    /// alien destroyed in the current round.
    pub open spec fn wf(self) -> bool {
        &&& self.settings.wf()
        &&& self.cursor.color_row < COLOR_ROW_COUNT
        &&& self.cursor.color_col < COLOR_COUNT
        &&& self.cursor.diff_cursor < DIFFICULTY_COUNT
        &&& (self.state matches GameState::Rebinding(slot) ==> slot < CONTROL_COUNT)
        &&& (self.alive.len() == 0 || self.alive.len() == ALIEN_COUNT)
        &&& (self.state is Playing || self.state is GameOver ==> self.alive.len() == ALIEN_COUNT)
        &&& self.score == POINTS_PER_ALIEN * count_destroyed(self.alive)
    }
}

/// The game as it starts: the main menu, default settings, no round played yet.
pub open spec fn spec_initial_game() -> GameView {
    GameView {
        state: GameState::Menu(MenuTab::Main),
        settings: spec_default_settings(),
        cursor: MenuCursor { color_row: 0, color_col: 0, diff_cursor: 1, color_tab_mode: false },
        score: 0,
        alive: Seq::empty(),
    }
}

/// `g` with a new round started: a full fleet, no points, the playfield shown.
pub open spec fn spec_start_round(g: GameView) -> GameView {
    GameView {
        state: GameState::Playing,
        score: 0,
        alive: fresh_fleet(ALIEN_COUNT as nat),
        ..g
    }
}

/// The first rebinding candidate, from position `i` on, that went down this frame.
pub open spec fn spec_first_pressed_candidate(pressed: Seq<Key>, i: int) -> Option<Key>
    decreases REBIND_KEY_COUNT - i,
{
    if i < 0 || i >= REBIND_KEY_COUNT {
        None
    } else if pressed.contains(rebind_candidates()[i]) {
        Some(rebind_candidates()[i])
    } else {
        spec_first_pressed_candidate(pressed, i + 1)
    }
}

/// One frame of the screen that waits for a key for control `slot`: the first
/// candidate pressed is bound and the controls tab comes back; Escape goes back
/// to the controls tab in any case.
pub open spec fn spec_rebinding_step(g: GameView, slot: usize, pressed: Seq<Key>) -> GameView {
    let g1 = match spec_first_pressed_candidate(pressed, 0) {
        Some(k) => GameView {
            state: GameState::Menu(MenuTab::Controls),
            settings: spec_with_binding(g.settings, slot as int, k),
            ..g
        },
        None => g,
    };
    if pressed.contains(Key::Escape) {
        GameView { state: GameState::Menu(MenuTab::Controls), ..g1 }
    } else {
        g1
    }
}

/// One frame of the end-of-round screen: Enter starts a new round, Escape goes
/// to the main menu; when both are pressed the round is reset and the menu shown.
pub open spec fn spec_game_over_step(g: GameView, pressed: Seq<Key>) -> (GameView, Action) {
    let (g1, a) = if pressed.contains(Key::Enter) {
        (spec_start_round(g), Action::StartRound)
    } else {
        (g, Action::Stay)
    };
    if pressed.contains(Key::Escape) {
        (GameView { state: GameState::Menu(MenuTab::Main), ..g1 }, a)
    } else {
        (g1, a)
    }
}

/// The arrow keys and Enter on the colors tab, handled in the order Up, Down,
/// Left, Right, Enter. Up on the top row hands the arrow keys to the tab bar;
/// while the tab bar has them, Down takes them back to the top row.
pub open spec fn spec_colors_keys(c: MenuCursor, s: Settings, pressed: Seq<Key>) -> (MenuCursor, Settings) {
    if !c.color_tab_mode {
        let up = pressed.contains(Key::Up);
        let row1: usize = if up && c.color_row > 0 { (c.color_row - 1) as usize } else { c.color_row };
        let tab_mode = up && c.color_row == 0;
        let row2: usize = if pressed.contains(Key::Down) && row1 < COLOR_ROW_COUNT - 1 {
            (row1 + 1) as usize
        } else {
            row1
        };
        let col1: usize = if pressed.contains(Key::Left) && c.color_col > 0 {
            (c.color_col - 1) as usize
        } else {
            c.color_col
        };
        let col2: usize = if pressed.contains(Key::Right) && col1 < COLOR_COUNT - 1 {
            (col1 + 1) as usize
        } else {
            col1
        };
        let s2 = if pressed.contains(Key::Enter) {
            spec_with_row_color(s, row2 as int, col2)
        } else {
            s
        };
        (MenuCursor { color_row: row2, color_col: col2, color_tab_mode: tab_mode, ..c }, s2)
    } else if pressed.contains(Key::Down) {
        (MenuCursor { color_row: 0, color_tab_mode: false, ..c }, s)
    } else {
        (c, s)
    }
}

/// One frame of the colors tab: the keys, then a click on a color box, which
/// moves the cursor there and applies the color.
pub open spec fn spec_colors_step(g: GameView, pressed: Seq<Key>, click: Option<Click>) -> GameView {
    let (c1, s1) = spec_colors_keys(g.cursor, g.settings, pressed);
    match click {
        Some(Click::ColorCell(row, col)) => if row < COLOR_ROW_COUNT && col < COLOR_COUNT {
            GameView {
                cursor: MenuCursor { color_row: row, color_col: col, color_tab_mode: false, ..c1 },
                settings: spec_with_row_color(s1, row as int, col),
                ..g
            }
        } else {
            GameView { cursor: c1, settings: s1, ..g }
        },
        _ => GameView { cursor: c1, settings: s1, ..g },
    }
}

/// One frame of the difficulty tab: Up and Down move the cursor, Enter applies
/// the level under it, a click on a row moves the cursor there and applies it.
pub open spec fn spec_difficulty_step(g: GameView, pressed: Seq<Key>, click: Option<Click>) -> GameView {
    let d0 = g.cursor.diff_cursor;
    let d1: usize = if pressed.contains(Key::Up) && d0 > 0 { (d0 - 1) as usize } else { d0 };
    let d2: usize = if pressed.contains(Key::Down) && d1 < DIFFICULTY_COUNT - 1 {
        (d1 + 1) as usize
    } else {
        d1
    };
    let s1 = if pressed.contains(Key::Enter) {
        Settings { difficulty: difficulty_order()[d2 as int], ..g.settings }
    } else {
        g.settings
    };
    let g1 = GameView { cursor: MenuCursor { diff_cursor: d2, ..g.cursor }, settings: s1, ..g };
    match click {
        Some(Click::DifficultyRow(row)) => if row < DIFFICULTY_COUNT {
            GameView {
                cursor: MenuCursor { diff_cursor: row, ..g1.cursor },
                settings: Settings { difficulty: difficulty_order()[row as int], ..g1.settings },
                ..g1
            }
        } else {
            g1
        },
        _ => g1,
    }
}

/// One frame of the menu on tab `tab`. Right and Left switch tabs (on the colors
/// tab only while it hands the arrow keys to the tab bar); otherwise a click on
/// the tab bar switches tabs; otherwise the tab itself reacts: Enter on the main
/// tab starts a round, a click on a key box of the controls tab waits for a key.
pub open spec fn spec_menu_step(g: GameView, tab: MenuTab, pressed: Seq<Key>, click: Option<Click>) -> (GameView, Action) {
    let allow_switch = match tab {
        MenuTab::Colors => g.cursor.color_tab_mode,
        _ => true,
    };
    if allow_switch && pressed.contains(Key::Right) {
        (
            GameView {
                state: GameState::Menu(spec_tab_next(tab)),
                cursor: MenuCursor { color_tab_mode: false, ..g.cursor },
                ..g
            },
            Action::SwitchTab,
        )
    } else if allow_switch && pressed.contains(Key::Left) {
        (
            GameView {
                state: GameState::Menu(spec_tab_prev(tab)),
                cursor: MenuCursor { color_tab_mode: false, ..g.cursor },
                ..g
            },
            Action::SwitchTab,
        )
    } else {
        match click {
            Some(Click::Tab(t)) => (GameView { state: GameState::Menu(t), ..g }, Action::SwitchTab),
            _ => match tab {
                MenuTab::Main => if pressed.contains(Key::Enter) {
                    (spec_start_round(g), Action::StartRound)
                } else {
                    (g, Action::Stay)
                },
                MenuTab::Controls => match click {
                    Some(Click::Binding(slot)) => if slot < CONTROL_COUNT {
                        (GameView { state: GameState::Rebinding(slot), ..g }, Action::Stay)
                    } else {
                        (g, Action::Stay)
                    },
                    _ => (g, Action::Stay),
                },
                MenuTab::Colors => (spec_colors_step(g, pressed, click), Action::Stay),
                MenuTab::Difficulty => (spec_difficulty_step(g, pressed, click), Action::Stay),
            },
        }
    }
}

/// One frame away from the playfield; a frame of play is left unchanged here.
pub open spec fn spec_step(g: GameView, pressed: Seq<Key>, click: Option<Click>) -> (GameView, Action) {
    match g.state {
        GameState::Menu(tab) => spec_menu_step(g, tab, pressed, click),
        GameState::Rebinding(slot) => (spec_rebinding_step(g, slot, pressed), Action::Stay),
        GameState::Playing => (g, Action::Stay),
        GameState::GameOver(_) => spec_game_over_step(g, pressed),
    }
}

/// The screen after a frame of play: Escape goes to the main menu; otherwise a
/// fleet with no alien left wins the round; otherwise an alien that reached the
/// player's row, or a bullet that hit the player, loses it.
pub open spec fn spec_play_outcome(reached_player: bool, player_hit: bool, fleet_destroyed: bool, escape: bool) -> GameState {
    if escape {
        GameState::Menu(MenuTab::Main)
    } else if fleet_destroyed {
        GameState::GameOver(true)
    } else if reached_player || player_hit {
        GameState::GameOver(false)
    } else {
        GameState::Playing
    }
}

/// The decisions of one frame of play, once the physics of the frame is done:
/// the player's bullets destroy aliens, each destroyed alien scores ten points,
/// and the screen changes as `spec_play_outcome` says. Away from the playfield
/// nothing changes. Gives the new game and, per player bullet, the alien it destroyed.
pub open spec fn spec_play_frame(
    g: GameView,
    reached_player: bool,
    overlaps: Seq<Seq<usize>>,
    player_hit: bool,
    pressed: Seq<Key>,
) -> (GameView, Seq<Option<usize>>) {
    if g.state is Playing {
        let (after, kills) = spec_resolve_hits(g.alive, overlaps);
        (
            GameView {
                state: spec_play_outcome(
                    reached_player,
                    player_hit,
                    all_destroyed(after),
                    pressed.contains(Key::Escape),
                ),
                score: (g.score + POINTS_PER_ALIEN * count_kills(kills)) as u32,
                alive: after,
                ..g
            },
            kills,
        )
    } else {
        (g, Seq::empty())
    }
}

/// Calls `macroquad::rand::rand`, the game's pseudo-random generator. What it
/// gives depends on the generator's hidden state, so nothing is stated of it.
#[verifier::external_body]
fn random_u32() -> (r: u32) {
    macroquad::rand::rand()
}

/// A prefix of the bullets destroyed no more aliens than all of them.
proof fn lemma_count_kills_prefix(kills: Seq<Option<usize>>, n: int)
    requires
        0 <= n <= kills.len(),
    ensures
        count_kills(kills.take(n)) <= count_kills(kills),
    decreases kills.len(),
{
    if n == kills.len() {
        assert(kills.take(n) =~= kills);
    } else {
        assert(kills.drop_last().take(n) =~= kills.take(n));
        lemma_count_kills_prefix(kills.drop_last(), n);
    }
}

/// A key found among the rebinding candidates can be bound.
proof fn lemma_first_candidate_bindable(pressed: Seq<Key>, i: int)
    ensures
        spec_first_pressed_candidate(pressed, i) matches Some(k) ==> is_bindable(k) && pressed.contains(k),
    decreases REBIND_KEY_COUNT - i,
{
    if 0 <= i < REBIND_KEY_COUNT && !pressed.contains(rebind_candidates()[i]) {
        lemma_first_candidate_bindable(pressed, i + 1);
    }
}

/// The arrow keys and Enter on the colors tab; see `spec_colors_keys`.
fn colors_keys(c: MenuCursor, s: Settings, input: &FrameInput) -> (r: (MenuCursor, Settings))
    requires
        c.color_row < COLOR_ROW_COUNT,
        c.color_col < COLOR_COUNT,
        s.wf(),
    ensures
        r == spec_colors_keys(c, s, input.pressed@),
        r.0.color_row < COLOR_ROW_COUNT,
        r.0.color_col < COLOR_COUNT,
        r.0.diff_cursor == c.diff_cursor,
        r.1.wf(),
{
    let mut c = c;
    let mut s = s;
    if !c.color_tab_mode {
        if input.is_pressed(Key::Up) {
            if c.color_row == 0 {
                c.color_tab_mode = true;
            } else {
                c.color_row = c.color_row - 1;
            }
        }
        if input.is_pressed(Key::Down) && c.color_row < COLOR_ROW_COUNT - 1 {
            c.color_row = c.color_row + 1;
        }
        if input.is_pressed(Key::Left) && c.color_col > 0 {
            c.color_col = c.color_col - 1;
        }
        if input.is_pressed(Key::Right) && c.color_col < COLOR_COUNT - 1 {
            c.color_col = c.color_col + 1;
        }
        if input.is_pressed(Key::Enter) {
            s.set_row_color(c.color_row, c.color_col);
        }
    } else {
        if input.is_pressed(Key::Down) {
            c.color_tab_mode = false;
            c.color_row = 0;
        }
    }
    (c, s)
}

impl Game {
    /// The game as it starts: the main menu, default settings, no round played yet.
    pub fn new() -> (g: Game)
        ensures
            g@ == spec_initial_game(),
            g@.wf(),
    {
        Game {
            state: GameState::Menu(MenuTab::Main),
            settings: Settings::default(),
            cursor: MenuCursor { color_row: 0, color_col: 0, diff_cursor: 1, color_tab_mode: false },
            score: 0,
            alive: Vec::new(),
        }
    }

    /// Which screen the game shows.
    pub fn state(&self) -> (s: GameState)
        ensures
            s == self@.state,
    {
        self.state
    }

    /// The settings chosen in the menu.
    pub fn settings(&self) -> (s: Settings)
        ensures
            s == self@.settings,
    {
        self.settings
    }

    /// Where the menu cursors stand.
    pub fn cursor(&self) -> (c: MenuCursor)
        ensures
            c == self@.cursor,
    {
        self.cursor
    }

    /// Points scored in the current round.
    pub fn score(&self) -> (s: u32)
        ensures
            s == self@.score,
    {
        self.score
    }

    /// Number of aliens in the current round's fleet, dead or alive.
    pub fn fleet_len(&self) -> (n: usize)
        ensures
            n == self@.alive.len(),
    {
        self.alive.len()
    }

    /// Whether alien `i` of the current round is alive.
    pub fn is_alive(&self, i: usize) -> (b: bool)
        requires
            i < self@.alive.len(),
        ensures
            b == self@.alive[i as int],
    {
        self.alive[i]
    }

    fn start_round(&mut self)
        requires
            old(self)@.wf(),
        ensures
            final(self)@ == spec_start_round(old(self)@),
            final(self)@.wf(),
    {
        let mut alive: Vec<bool> = Vec::new();
        let mut i: usize = 0;
        while i < ALIEN_COUNT
            invariant
                i <= ALIEN_COUNT,
                alive@ =~= fresh_fleet(i as nat),
            decreases ALIEN_COUNT - i,
        {
            alive.push(true);
            i += 1;
        }
        self.alive = alive;
        self.score = 0;
        self.state = GameState::Playing;
        proof {
            lemma_fresh_fleet_count(ALIEN_COUNT as nat);
        }
    }

    fn rebinding_step(&mut self, slot: usize, input: &FrameInput)
        requires
            old(self)@.wf(),
            old(self)@.state == GameState::Rebinding(slot),
        ensures
            final(self)@ == spec_rebinding_step(old(self)@, slot, input.pressed@),
            final(self)@.wf(),
    {
        proof {
            lemma_first_candidate_bindable(input.pressed@, 0);
        }
        let mut i: usize = 0;
        while i < REBIND_KEY_COUNT
            invariant_except_break
                i <= REBIND_KEY_COUNT,
                self@ == old(self)@,
                spec_first_pressed_candidate(input.pressed@, 0) == spec_first_pressed_candidate(
                    input.pressed@,
                    i as int,
                ),
            ensures
                match spec_first_pressed_candidate(input.pressed@, 0) {
                    Some(k) => self@ == GameView {
                        state: GameState::Menu(MenuTab::Controls),
                        settings: spec_with_binding(old(self)@.settings, slot as int, k),
                        ..old(self)@
                    },
                    None => self@ == old(self)@,
                },
            decreases REBIND_KEY_COUNT - i,
        {
            let k = rebind_candidate(i);
            if input.is_pressed(k) {
                self.settings.bind(slot, k);
                self.state = GameState::Menu(MenuTab::Controls);
                break;
            }
            i += 1;
        }
        if input.is_pressed(Key::Escape) {
            self.state = GameState::Menu(MenuTab::Controls);
        }
    }

    fn game_over_step(&mut self, input: &FrameInput) -> (a: Action)
        requires
            old(self)@.wf(),
            old(self)@.state is GameOver,
        ensures
            (final(self)@, a) == spec_game_over_step(old(self)@, input.pressed@),
            final(self)@.wf(),
    {
        let mut a = Action::Stay;
        if input.is_pressed(Key::Enter) {
            self.start_round();
            a = Action::StartRound;
        }
        if input.is_pressed(Key::Escape) {
            self.state = GameState::Menu(MenuTab::Main);
        }
        a
    }

    fn colors_step(&mut self, input: &FrameInput)
        requires
            old(self)@.wf(),
        ensures
            final(self)@ == spec_colors_step(old(self)@, input.pressed@, input.click),
            final(self)@.wf(),
    {
        let (cursor, settings) = colors_keys(self.cursor, self.settings, input);
        self.cursor = cursor;
        self.settings = settings;
        match input.click {
            Some(Click::ColorCell(row, col)) => {
                if row < COLOR_ROW_COUNT && col < COLOR_COUNT {
                    self.cursor.color_tab_mode = false;
                    self.cursor.color_row = row;
                    self.cursor.color_col = col;
                    self.settings.set_row_color(row, col);
                }
            },
            _ => {},
        }
    }

    fn difficulty_step(&mut self, input: &FrameInput)
        requires
            old(self)@.wf(),
        ensures
            final(self)@ == spec_difficulty_step(old(self)@, input.pressed@, input.click),
            final(self)@.wf(),
    {
        if input.is_pressed(Key::Up) && self.cursor.diff_cursor > 0 {
            self.cursor.diff_cursor = self.cursor.diff_cursor - 1;
        }
        if input.is_pressed(Key::Down) && self.cursor.diff_cursor < DIFFICULTY_COUNT - 1 {
            self.cursor.diff_cursor = self.cursor.diff_cursor + 1;
        }
        if input.is_pressed(Key::Enter) {
            self.settings.difficulty = difficulty_at(self.cursor.diff_cursor);
        }
        match input.click {
            Some(Click::DifficultyRow(row)) => {
                if row < DIFFICULTY_COUNT {
                    self.cursor.diff_cursor = row;
                    self.settings.difficulty = difficulty_at(row);
                }
            },
            _ => {},
        }
    }

    fn menu_step(&mut self, tab: MenuTab, input: &FrameInput) -> (a: Action)
        requires
            old(self)@.wf(),
            old(self)@.state == GameState::Menu(tab),
        ensures
            (final(self)@, a) == spec_menu_step(old(self)@, tab, input.pressed@, input.click),
            final(self)@.wf(),
    {
        let allow_switch = match tab {
            MenuTab::Colors => self.cursor.color_tab_mode,
            _ => true,
        };
        if allow_switch {
            if input.is_pressed(Key::Right) {
                self.cursor.color_tab_mode = false;
                self.state = GameState::Menu(tab_next(tab));
                return Action::SwitchTab;
            }
            if input.is_pressed(Key::Left) {
                self.cursor.color_tab_mode = false;
                self.state = GameState::Menu(tab_prev(tab));
                return Action::SwitchTab;
            }
        }
        if let Some(Click::Tab(t)) = input.click {
            self.state = GameState::Menu(t);
            return Action::SwitchTab;
        }
        match tab {
            MenuTab::Main => {
                if input.is_pressed(Key::Enter) {
                    self.start_round();
                    Action::StartRound
                } else {
                    Action::Stay
                }
            },
            MenuTab::Controls => {
                if let Some(Click::Binding(slot)) = input.click {
                    if slot < CONTROL_COUNT {
                        self.state = GameState::Rebinding(slot);
                    }
                }
                Action::Stay
            },
            MenuTab::Colors => {
                self.colors_step(input);
                Action::Stay
            },
            MenuTab::Difficulty => {
                self.difficulty_step(input);
                Action::Stay
            },
        }
    }

    /// Decides one frame away from the playfield: the menu, the rebinding
    /// screen and the end-of-round screen react to the keys that went down and
    /// to the widget clicked. A frame of play is left to `play_frame`, and
    /// changes nothing here.
    pub fn step(&mut self, input: &FrameInput) -> (a: Action)
        requires
            old(self)@.wf(),
        ensures
            (final(self)@, a) == spec_step(old(self)@, input.pressed@, input.click),
            final(self)@.wf(),
    {
        match self.state {
            GameState::Menu(tab) => self.menu_step(tab, input),
            GameState::Rebinding(slot) => {
                self.rebinding_step(slot, input);
                Action::Stay
            },
            GameState::Playing => Action::Stay,
            GameState::GameOver(_) => self.game_over_step(input),
        }
    }

    /// Number of aliens of the current round still alive.
    pub fn alive_count(&self) -> (n: usize)
        ensures
            n == count_alive(self@.alive),
    {
        let mut n: usize = 0;
        let mut i: usize = 0;
        while i < self.alive.len()
            invariant
                i <= self.alive@.len(),
                n == count_alive(self.alive@.take(i as int)),
            decreases self.alive@.len() - i,
        {
            assert(self.alive@.take(i + 1).drop_last() =~= self.alive@.take(i as int));
            proof {
                lemma_alive_indices(self.alive@.take(i as int));
            }
            if self.alive[i] {
                n = n + 1;
            }
            i += 1;
        }
        assert(self.alive@.take(self.alive@.len() as int) =~= self.alive@);
        n
    }

    /// Decides whether an alien fires this frame, and which: a first random
    /// number decides, against the difficulty's chance, whether one fires; if
    /// some are alive, a second picks the shooter among them; the decision on the
    /// numbers drawn is `shooter_for_draws`.
    pub fn choose_shooter(&self) -> (shooter: Option<usize>)
        ensures
            exists|roll: u32, pick: u32|
                shooter == #[trigger] spec_shooter(
                    self@.settings.difficulty.spec_shoot_chance(),
                    self@.alive,
                    roll,
                    pick,
                ),
            shooter matches Some(i) ==> i < self@.alive.len() && self@.alive[i as int],
            count_alive(self@.alive) == 0 ==> shooter is None,
    {
        let chance = self.settings.difficulty.shoot_chance();
        let roll = random_u32();
        let pick = if shot_fired(chance, roll) && self.alive_count() > 0 {
            random_u32()
        } else {
            0
        };
        let shooter = shooter_for_draws(chance, &self.alive, roll, pick);
        assert(shooter == spec_shooter(
            self@.settings.difficulty.spec_shoot_chance(),
            self@.alive,
            roll,
            pick,
        ));
        shooter
    }

    /// Decides one frame of play once its physics is done. `reached_player`
    /// tells whether an alien reached the player's row, `overlaps` gives, for
    /// each bullet of the player in order, the aliens its rectangle overlaps in
    /// increasing order, and `player_hit` whether an alien's bullet hit the
    /// player. Gives, per player bullet, the alien it destroyed; such a bullet is spent.
    pub fn play_frame(
        &mut self,
        reached_player: bool,
        overlaps: &Vec<Vec<usize>>,
        player_hit: bool,
        input: &FrameInput,
    ) -> (kills: Vec<Option<usize>>)
        requires
            old(self)@.wf(),
        ensures
            (final(self)@, kills@) == spec_play_frame(
                old(self)@,
                reached_player,
                overlaps_view(overlaps@),
                player_hit,
                input.pressed@,
            ),
            final(self)@.wf(),
    {
        if self.state != GameState::Playing {
            return Vec::new();
        }
        let ghost before = self.alive@;
        let kills = resolve_hits(&mut self.alive, overlaps);
        proof {
            lemma_resolve_hits(before, overlaps_view(overlaps@));
            lemma_alive_indices(self.alive@);
            lemma_count_kills_prefix(kills@, 0);
            assert(kills@.take(0) =~= Seq::<Option<usize>>::empty());
        }
        let ghost old_score = self.score;
        let mut score = self.score;
        let mut k: usize = 0;
        while k < kills.len()
            invariant
                k <= kills@.len(),
                score == old_score + POINTS_PER_ALIEN * count_kills(kills@.take(k as int)),
                old_score + POINTS_PER_ALIEN * count_kills(kills@) <= 550,
            decreases kills@.len() - k,
        {
            assert(kills@.take(k + 1).drop_last() =~= kills@.take(k as int));
            proof {
                lemma_count_kills_prefix(kills@, k + 1);
            }
            if kills[k].is_some() {
                score = score + POINTS_PER_ALIEN;
            }
            k += 1;
        }
        self.score = score;
        assert(kills@.take(kills@.len() as int) =~= kills@);
        let destroyed = self.alive_count() == 0;
        proof {
            lemma_none_alive_iff_all_destroyed(self.alive@);
        }
        if input.is_pressed(Key::Escape) {
            self.state = GameState::Menu(MenuTab::Main);
        } else if destroyed {
            self.state = GameState::GameOver(true);
        } else if reached_player || player_hit {
            self.state = GameState::GameOver(false);
        }
        kills
    }
}

/// The score of a well-formed game is ten points for every alien destroyed in
/// the current round, so it never exceeds ten points per alien of a fleet.
pub proof fn lemma_score_counts_destroyed(g: GameView)
    requires
        g.wf(),
    ensures
        g.score == POINTS_PER_ALIEN * count_destroyed(g.alive),
        g.score <= POINTS_PER_ALIEN * ALIEN_COUNT,
{
    lemma_alive_indices(g.alive);
}

/// Away from the playfield the current round is left alone, unless a new
/// round starts, which brings a full fleet and no points.
pub proof fn lemma_step_keeps_round(g: GameView, pressed: Seq<Key>, click: Option<Click>)
    requires
        g.wf(),
    ensures
        ({
            let (next, a) = spec_step(g, pressed, click);
            &&& a == Action::StartRound ==> next.alive == fresh_fleet(ALIEN_COUNT as nat)
                && next.score == 0
            &&& a != Action::StartRound ==> next.alive == g.alive && next.score == g.score
        }),
{
}

/// Once the player's bullets have done their work, a frame of play ends the
/// round as won exactly when no alien is left, unless Escape leaves for the
/// menu; and it ends the round as lost only when an alien reached the player's
/// row or a bullet hit the player.
pub proof fn lemma_play_outcome(
    g: GameView,
    reached_player: bool,
    overlaps: Seq<Seq<usize>>,
    player_hit: bool,
    pressed: Seq<Key>,
)
    requires
        g.state is Playing,
        !pressed.contains(Key::Escape),
    ensures
        ({
            let next = spec_play_frame(g, reached_player, overlaps, player_hit, pressed).0;
            &&& next.state == GameState::GameOver(true) <==> all_destroyed(next.alive)
            &&& next.state == GameState::GameOver(false) ==> reached_player || player_hit
            &&& next.state == GameState::Playing <==> !all_destroyed(next.alive) && !reached_player
                && !player_hit
        }),
{
}

/// On the rebinding screen, Escape always leads back to the controls tab, and a
/// control is only ever bound to a key offered for rebinding.
pub proof fn lemma_rebinding_exits(g: GameView, slot: usize, pressed: Seq<Key>, click: Option<Click>)
    requires
        g.wf(),
        g.state == GameState::Rebinding(slot),
    ensures
        pressed.contains(Key::Escape) ==> spec_step(g, pressed, click).0.state == GameState::Menu(
            MenuTab::Controls,
        ),
        is_bindable(spec_step(g, pressed, click).0.settings.key_left),
        is_bindable(spec_step(g, pressed, click).0.settings.key_right),
        is_bindable(spec_step(g, pressed, click).0.settings.key_fire),
{
    lemma_first_candidate_bindable(pressed, 0);
}

/// A frame whose only key is `k` has exactly `k` down.
proof fn lemma_only_pressed(k: Key)
    ensures
        forall|x: Key| #[trigger] seq![k].contains(x) <==> x == k,
{
    assert forall|x: Key| #[trigger] seq![k].contains(x) <==> x == k by {
        if x == k {
            assert(seq![k][0] == x);
        }
    }
}

/// The level of row `d` of the difficulty tab, top to bottom.
pub open spec fn level_of_row(d: int) -> Difficulty {
    if d == 0 {
        Difficulty::Easy
    } else if d == 1 {
        Difficulty::Normal
    } else {
        Difficulty::Hard
    }
}

/// On the difficulty tab, Up alone moves the cursor one row up and Down alone
/// one row down, stopping at the first and last rows, and change nothing else;
/// Enter alone applies the level under the cursor; a click on a row moves the
/// cursor there and applies its level.
pub proof fn lemma_difficulty_tab(g: GameView, row: usize)
    requires
        g.wf(),
        g.state == GameState::Menu(MenuTab::Difficulty),
    ensures
        ({
            let d = g.cursor.diff_cursor;
            let (up, a_up) = spec_step(g, seq![Key::Up], None);
            let (down, a_down) = spec_step(g, seq![Key::Down], None);
            let (enter, a_enter) = spec_step(g, seq![Key::Enter], None);
            &&& up.cursor == MenuCursor { diff_cursor: if d > 0 { (d - 1) as usize } else { 0 }, ..g.cursor }
            &&& up.settings == g.settings && up.state == g.state && a_up == Action::Stay
            &&& down.cursor == MenuCursor { diff_cursor: if d < 2 { (d + 1) as usize } else { 2 }, ..g.cursor }
            &&& down.settings == g.settings && down.state == g.state && a_down == Action::Stay
            &&& enter.cursor == g.cursor && enter.state == g.state && a_enter == Action::Stay
            &&& enter.settings == Settings { difficulty: level_of_row(d as int), ..g.settings }
        }),
        row < DIFFICULTY_COUNT ==> ({
            let (clicked, a) = spec_step(g, Seq::empty(), Some(Click::DifficultyRow(row)));
            &&& clicked.cursor == MenuCursor { diff_cursor: row, ..g.cursor }
            &&& clicked.settings == Settings { difficulty: level_of_row(row as int), ..g.settings }
            &&& clicked.state == g.state && a == Action::Stay
        }),
{
    lemma_only_pressed(Key::Up);
    lemma_only_pressed(Key::Down);
    lemma_only_pressed(Key::Enter);
}

/// The color index of the sprite on row `row` of the colors tab: the player,
/// the aliens, the player's bullets, the aliens' bullets.
pub open spec fn color_of_row(s: Settings, row: int) -> usize {
    if row == 0 {
        s.player_color_idx
    } else if row == 1 {
        s.alien_color_idx
    } else if row == 2 {
        s.bullet_player_color_idx
    } else {
        s.bullet_alien_color_idx
    }
}

/// `after` gives the sprite of row `row` color `idx` and keeps every other choice of `before`.
pub open spec fn applies_color(before: Settings, after: Settings, row: int, idx: usize) -> bool {
    &&& color_of_row(after, row) == idx
    &&& forall|r: int| 0 <= r < COLOR_ROW_COUNT && r != row ==> color_of_row(after, r) == color_of_row(before, r)
    &&& after.key_left == before.key_left
    &&& after.key_right == before.key_right
    &&& after.key_fire == before.key_fire
    &&& after.difficulty == before.difficulty
}

/// On the colors tab, while the arrow keys move the color cursor: Left alone
/// and Right alone move it one column, Down alone one row down, stopping at
/// the edges of the grid; Up alone moves it one row up, or, on the top row,
/// hands the arrow keys to the tab bar; none of these changes a setting or
/// the tab. Enter alone gives the sprite of the cursor's row the cursor's
/// color, and a click on a color box moves the cursor there and gives that
/// row that color.
pub proof fn lemma_colors_tab(g: GameView, row: usize, col: usize)
    requires
        g.wf(),
        g.state == GameState::Menu(MenuTab::Colors),
        !g.cursor.color_tab_mode,
    ensures
        ({
            let r = g.cursor.color_row;
            let c = g.cursor.color_col;
            let (left, a_left) = spec_step(g, seq![Key::Left], None);
            let (right, a_right) = spec_step(g, seq![Key::Right], None);
            let (up, a_up) = spec_step(g, seq![Key::Up], None);
            let (down, a_down) = spec_step(g, seq![Key::Down], None);
            let (enter, a_enter) = spec_step(g, seq![Key::Enter], None);
            &&& left.cursor == MenuCursor { color_col: if c > 0 { (c - 1) as usize } else { 0 }, ..g.cursor }
            &&& right.cursor == MenuCursor { color_col: if c < 5 { (c + 1) as usize } else { 5 }, ..g.cursor }
            &&& down.cursor == MenuCursor { color_row: if r < 3 { (r + 1) as usize } else { 3 }, ..g.cursor }
            &&& up.cursor == if r > 0 {
                MenuCursor { color_row: (r - 1) as usize, ..g.cursor }
            } else {
                MenuCursor { color_tab_mode: true, ..g.cursor }
            }
            &&& left.settings == g.settings && right.settings == g.settings
            &&& up.settings == g.settings && down.settings == g.settings
            &&& left.state == g.state && right.state == g.state && up.state == g.state && down.state == g.state
            &&& a_left == Action::Stay && a_right == Action::Stay && a_up == Action::Stay && a_down == Action::Stay
            &&& enter.cursor == g.cursor && enter.state == g.state && a_enter == Action::Stay
            &&& applies_color(g.settings, enter.settings, r as int, c)
        }),
        row < COLOR_ROW_COUNT && col < COLOR_COUNT ==> ({
            let (clicked, a) = spec_step(g, Seq::empty(), Some(Click::ColorCell(row, col)));
            &&& clicked.cursor == MenuCursor { color_row: row, color_col: col, ..g.cursor }
            &&& applies_color(g.settings, clicked.settings, row as int, col)
            &&& clicked.state == g.state && a == Action::Stay
        }),
{
    lemma_only_pressed(Key::Left);
    lemma_only_pressed(Key::Right);
    lemma_only_pressed(Key::Up);
    lemma_only_pressed(Key::Down);
    lemma_only_pressed(Key::Enter);
}

/// On the colors tab, once the arrow keys belong to the tab bar: Right alone
/// and Left alone switch to the next and previous tabs and give the arrow keys
/// back to the colors, Down alone gives them back with the cursor on the top row.
pub proof fn lemma_colors_tab_bar(g: GameView)
    requires
        g.wf(),
        g.state == GameState::Menu(MenuTab::Colors),
        g.cursor.color_tab_mode,
    ensures
        ({
            let (right, a_right) = spec_step(g, seq![Key::Right], None);
            let (left, a_left) = spec_step(g, seq![Key::Left], None);
            let (down, a_down) = spec_step(g, seq![Key::Down], None);
            &&& right.state == GameState::Menu(MenuTab::Difficulty) && a_right == Action::SwitchTab
            &&& left.state == GameState::Menu(MenuTab::Controls) && a_left == Action::SwitchTab
            &&& !right.cursor.color_tab_mode && !left.cursor.color_tab_mode
            &&& down.state == g.state && a_down == Action::Stay
            &&& down.cursor == MenuCursor { color_row: 0, color_tab_mode: false, ..g.cursor }
            &&& right.settings == g.settings && left.settings == g.settings && down.settings == g.settings
        }),
{
    lemma_only_pressed(Key::Left);
    lemma_only_pressed(Key::Right);
    lemma_only_pressed(Key::Down);
}

/// Position of a bindable key among the rebinding candidates.
spec fn candidate_position(k: Key) -> int {
    match k {
        Key::Left => 0,
        Key::Right => 1,
        Key::Up => 2,
        Key::Down => 3,
        Key::Z => 4,
        Key::X => 5,
        Key::A => 6,
        Key::D => 7,
        Key::Space => 8,
        Key::LeftControl => 9,
        _ => 10,
    }
}

/// A frame whose only key is the bindable key `k` finds `k` among the candidates.
proof fn lemma_first_candidate_single(k: Key, i: int)
    requires
        is_bindable(k),
        0 <= i <= candidate_position(k),
    ensures
        spec_first_pressed_candidate(seq![k], i) == Some(k),
    decreases candidate_position(k) - i,
{
    lemma_only_pressed(k);
    if i < candidate_position(k) {
        assert(rebind_candidates()[i] != k);
        lemma_first_candidate_single(k, i + 1);
    } else {
        assert(rebind_candidates()[i] == k);
    }
}

/// On the screen that waits for a key for control `slot`: a frame whose only
/// key is one a control may be bound to binds the control to it (slot 0 moves
/// left, 1 right, 2 fires) and goes back to the controls tab, changing no other
/// setting; Escape goes back to the controls tab binding nothing; a frame with
/// neither a bindable key nor Escape down keeps waiting and changes nothing.
pub proof fn lemma_rebinding(g: GameView, slot: usize, k: Key, pressed: Seq<Key>, click: Option<Click>)
    requires
        g.wf(),
        g.state == GameState::Rebinding(slot),
    ensures
        is_bindable(k) ==> ({
            let n = spec_step(g, seq![k], click).0;
            &&& n.state == GameState::Menu(MenuTab::Controls)
            &&& slot == 0 ==> n.settings == Settings { key_left: k, ..g.settings }
            &&& slot == 1 ==> n.settings == Settings { key_right: k, ..g.settings }
            &&& slot == 2 ==> n.settings == Settings { key_fire: k, ..g.settings }
            &&& n.cursor == g.cursor && n.score == g.score && n.alive == g.alive
        }),
        spec_step(g, seq![Key::Escape], click).0 == (GameView {
            state: GameState::Menu(MenuTab::Controls),
            ..g
        }),
        (forall|x: Key| #[trigger] pressed.contains(x) ==> !is_bindable(x)) && !pressed.contains(Key::Escape)
            ==> spec_step(g, pressed, click).0 == g,
{
    lemma_only_pressed(Key::Escape);
    if is_bindable(k) {
        lemma_only_pressed(k);
        lemma_first_candidate_single(k, 0);
    }
    lemma_first_candidate_bindable(seq![Key::Escape], 0);
    lemma_first_candidate_bindable(pressed, 0);
}

} // verus!

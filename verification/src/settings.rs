use vstd::prelude::*;

verus! {

/// A keyboard key the game reads.
#[derive(Clone, Copy, PartialEq, Eq, Structural, Debug)]
pub enum Key {
    Left,
    Right,
    Up,
    Down,
    Z,
    X,
    A,
    D,
    Space,
    LeftControl,
    RightControl,
    Enter,
    Escape,
}

/// The name shown for a key on the controls tab.
pub open spec fn spec_key_name(k: Key) -> Seq<char> {
    match k {
        Key::Left => "Left"@,
        Key::Right => "Right"@,
        Key::LeftControl => "LCtrl"@,
        Key::RightControl => "RCtrl"@,
        Key::Space => "Space"@,
        Key::Z => "Z"@,
        Key::X => "X"@,
        Key::A => "A"@,
        Key::D => "D"@,
        _ => "???"@,
    }
}

/// The name shown for a key on the controls tab; keys without a name show "???".
pub fn key_name(k: Key) -> (name: &'static str)
    ensures
        name@ == spec_key_name(k),
{
    match k {
        Key::Left => "Left",
        Key::Right => "Right",
        Key::LeftControl => "LCtrl",
        Key::RightControl => "RCtrl",
        Key::Space => "Space",
        Key::Z => "Z",
        Key::X => "X",
        Key::A => "A",
        Key::D => "D",
        _ => "???",
    }
}

/// Number of keys a control can be rebound to.
pub const REBIND_KEY_COUNT: usize = 11;

/// The keys a control can be rebound to, in the order a rebinding looks for them.
pub open spec fn rebind_candidates() -> Seq<Key> {
    seq![
        Key::Left,
        Key::Right,
        Key::Up,
        Key::Down,
        Key::Z,
        Key::X,
        Key::A,
        Key::D,
        Key::Space,
        Key::LeftControl,
        Key::RightControl,
    ]
}

/// Whether a control may be bound to `k`: every key but the menu keys Enter and Escape.
pub open spec fn is_bindable(k: Key) -> bool {
    k != Key::Enter && k != Key::Escape
}

/// The rebinding candidate at position `i`.
pub fn rebind_candidate(i: usize) -> (k: Key)
    requires
        i < REBIND_KEY_COUNT,
    ensures
        k == rebind_candidates()[i as int],
{
    match i {
        0 => Key::Left,
        1 => Key::Right,
        2 => Key::Up,
        3 => Key::Down,
        4 => Key::Z,
        5 => Key::X,
        6 => Key::A,
        7 => Key::D,
        8 => Key::Space,
        9 => Key::LeftControl,
        _ => Key::RightControl,
    }
}

/// The bindable keys are exactly the rebinding candidates.
pub proof fn lemma_bindable_iff_candidate(k: Key)
    ensures
        is_bindable(k) <==> rebind_candidates().contains(k),
{
    if is_bindable(k) {
        let i: int = match k {
            Key::Left => 0,
            Key::Right => 1,
            Key::Up => 2,
            Key::Down => 3,
            Key::Z => 4,
            Key::X => 5,
            Key::A => 6,
            Key::D => 7,
            Key::Space => 8,
            Key::LeftControl => 9,
            _ => 10,
        };
        assert(rebind_candidates()[i] == k);
    }
}

/// How hard a round is.
#[derive(Clone, Copy, PartialEq, Eq, Structural, Debug)]
pub enum Difficulty {
    Easy,
    Normal,
    Hard,
}

/// Number of difficulty levels.
pub const DIFFICULTY_COUNT: usize = 3;

/// The difficulty levels in the order the difficulty tab lists them.
pub open spec fn difficulty_order() -> Seq<Difficulty> {
    seq![Difficulty::Easy, Difficulty::Normal, Difficulty::Hard]
}

/// The difficulty level at row `i` of the difficulty tab.
pub fn difficulty_at(i: usize) -> (d: Difficulty)
    requires
        i < DIFFICULTY_COUNT,
    ensures
        d == difficulty_order()[i as int],
{
    match i {
        0 => Difficulty::Easy,
        1 => Difficulty::Normal,
        _ => Difficulty::Hard,
    }
}

impl Difficulty {
    /// Base horizontal speed of the fleet, in pixels per second.
    pub open spec fn spec_alien_speed(self) -> u32 {
        match self {
            Difficulty::Easy => 60,
            Difficulty::Normal => 100,
            Difficulty::Hard => 160,
        }
    }

    /// Chance, in percent per frame, that some alien fires.
    pub open spec fn spec_shoot_chance(self) -> u32 {
        match self {
            Difficulty::Easy => 1,
            Difficulty::Normal => 2,
            Difficulty::Hard => 4,
        }
    }

    /// The name shown for the level.
    pub open spec fn spec_label(self) -> Seq<char> {
        match self {
            Difficulty::Easy => "Easy"@,
            Difficulty::Normal => "Normal"@,
            Difficulty::Hard => "Hard"@,
        }
    }

    /// Base horizontal speed of the fleet, in pixels per second.
    pub fn alien_speed(&self) -> (speed: u32)
        ensures
            speed == self.spec_alien_speed(),
    {
        match self {
            Difficulty::Easy => 60,
            Difficulty::Normal => 100,
            Difficulty::Hard => 160,
        }
    }

    /// Chance, in percent per frame, that some alien fires.
    pub fn shoot_chance(&self) -> (chance: u32)
        ensures
            chance == self.spec_shoot_chance(),
    {
        match self {
            Difficulty::Easy => 1,
            Difficulty::Normal => 2,
            Difficulty::Hard => 4,
        }
    }

    /// The name shown for the level.
    pub fn label(&self) -> (name: &'static str)
        ensures
            name@ == self.spec_label(),
    {
        match self {
            Difficulty::Easy => "Easy",
            Difficulty::Normal => "Normal",
            Difficulty::Hard => "Hard",
        }
    }
}

/// A harder level moves the fleet faster and lets it fire more often.
pub proof fn lemma_difficulty_monotone(i: int, j: int)
    requires
        0 <= i < j < DIFFICULTY_COUNT,
    ensures
        difficulty_order()[i].spec_alien_speed() < difficulty_order()[j].spec_alien_speed(),
        difficulty_order()[i].spec_shoot_chance() < difficulty_order()[j].spec_shoot_chance(),
{
}

/// A color the player can pick for a sprite.
#[derive(Clone, Copy)]
pub struct ColorChoice {
    pub r: u8,
    pub g: u8,
    pub b: u8,
    pub label: &'static str,
}

/// Number of colors on offer.
pub const COLOR_COUNT: usize = 6;

/// Red, green and blue of the color at position `i`.
pub open spec fn spec_color_rgb(i: int) -> (u8, u8, u8) {
    if i == 0 {
        (255, 255, 255)
    } else if i == 1 {
        (255, 50, 50)
    } else if i == 2 {
        (50, 255, 50)
    } else if i == 3 {
        (50, 200, 255)
    } else if i == 4 {
        (255, 200, 50)
    } else {
        (200, 50, 255)
    }
}

/// Name of the color at position `i`.
pub open spec fn spec_color_label(i: int) -> Seq<char> {
    if i == 0 {
        "White"@
    } else if i == 1 {
        "Red"@
    } else if i == 2 {
        "Green"@
    } else if i == 3 {
        "Cyan"@
    } else if i == 4 {
        "Yellow"@
    } else {
        "Purple"@
    }
}

/// The color at position `i` of the color rows.
pub fn color_option(i: usize) -> (c: ColorChoice)
    requires
        i < COLOR_COUNT,
    ensures
        (c.r, c.g, c.b) == spec_color_rgb(i as int),
        c.label@ == spec_color_label(i as int),
{
    match i {
        0 => ColorChoice { r: 255, g: 255, b: 255, label: "White" },
        1 => ColorChoice { r: 255, g: 50, b: 50, label: "Red" },
        2 => ColorChoice { r: 50, g: 255, b: 50, label: "Green" },
        3 => ColorChoice { r: 50, g: 200, b: 255, label: "Cyan" },
        4 => ColorChoice { r: 255, g: 200, b: 50, label: "Yellow" },
        _ => ColorChoice { r: 200, g: 50, b: 255, label: "Purple" },
    }
}

/// Number of sprites whose color can be chosen, one row each on the colors tab.
pub const COLOR_ROW_COUNT: usize = 4;

/// Number of controls that can be rebound.
pub const CONTROL_COUNT: usize = 3;

/// What the player has chosen in the menu.
#[derive(Clone, Copy)]
pub struct Settings {
    pub key_left: Key,
    pub key_right: Key,
    pub key_fire: Key,
    pub player_color_idx: usize,
    pub alien_color_idx: usize,
    pub bullet_player_color_idx: usize,
    pub bullet_alien_color_idx: usize,
    pub difficulty: Difficulty,
}

/// The settings a game starts with.
pub open spec fn spec_default_settings() -> Settings {
    Settings {
        key_left: Key::Left,
        key_right: Key::Right,
        key_fire: Key::LeftControl,
        player_color_idx: 1,
        alien_color_idx: 0,
        bullet_player_color_idx: 1,
        bullet_alien_color_idx: 0,
        difficulty: Difficulty::Normal,
    }
}

/// `s` with the sprite of color row `row` given color `idx`: row 0 is the
/// player, row 1 the aliens, row 2 the player's bullets, any other the aliens' bullets.
pub open spec fn spec_with_row_color(s: Settings, row: int, idx: usize) -> Settings {
    if row == 0 {
        Settings { player_color_idx: idx, ..s }
    } else if row == 1 {
        Settings { alien_color_idx: idx, ..s }
    } else if row == 2 {
        Settings { bullet_player_color_idx: idx, ..s }
    } else {
        Settings { bullet_alien_color_idx: idx, ..s }
    }
}

/// `s` with control `slot` bound to `k`: slot 0 moves left, slot 1 moves
/// right, any other fires.
pub open spec fn spec_with_binding(s: Settings, slot: int, k: Key) -> Settings {
    if slot == 0 {
        Settings { key_left: k, ..s }
    } else if slot == 1 {
        Settings { key_right: k, ..s }
    } else {
        Settings { key_fire: k, ..s }
    }
}

impl Settings {
    /// Every control is bound to a bindable key and every color index names an offered color.
    pub open spec fn wf(self) -> bool {
        &&& is_bindable(self.key_left)
        &&& is_bindable(self.key_right)
        &&& is_bindable(self.key_fire)
        &&& self.player_color_idx < COLOR_COUNT
        &&& self.alien_color_idx < COLOR_COUNT
        &&& self.bullet_player_color_idx < COLOR_COUNT
        &&& self.bullet_alien_color_idx < COLOR_COUNT
    }

    /// Gives the sprite of color row `row` the color `idx`.
    pub fn set_row_color(&mut self, row: usize, idx: usize)
        ensures
            *final(self) == spec_with_row_color(*old(self), row as int, idx),
    {
        match row {
            0 => self.player_color_idx = idx,
            1 => self.alien_color_idx = idx,
            2 => self.bullet_player_color_idx = idx,
            _ => self.bullet_alien_color_idx = idx,
        }
    }

    /// Binds control `slot` to key `k`.
    pub fn bind(&mut self, slot: usize, k: Key)
        ensures
            *final(self) == spec_with_binding(*old(self), slot as int, k),
    {
        match slot {
            0 => self.key_left = k,
            1 => self.key_right = k,
            _ => self.key_fire = k,
        }
    }
}

impl Default for Settings {
    fn default() -> (s: Self)
        ensures
            s == spec_default_settings(),
    {
        Settings {
            key_left: Key::Left,
            key_right: Key::Right,
            key_fire: Key::LeftControl,
            player_color_idx: 1,
            alien_color_idx: 0,
            bullet_player_color_idx: 1,
            bullet_alien_color_idx: 0,
            difficulty: Difficulty::Normal,
        }
    }
}

/// The default settings are well formed.
pub proof fn lemma_default_settings_wf()
    ensures
        spec_default_settings().wf(),
{
}

/// The controls tab names every key a control can be bound to, except the
/// arrow keys Up and Down, by a name of its own; Up, Down and the menu keys
/// Enter and Escape show "???". Distinct named keys have distinct names.
pub proof fn lemma_key_names(k1: Key, k2: Key)
    ensures
        spec_key_name(k1) == "???"@ <==> (k1 == Key::Up || k1 == Key::Down || k1 == Key::Enter
            || k1 == Key::Escape),
        spec_key_name(k1) != "???"@ && k1 != k2 ==> spec_key_name(k1) != spec_key_name(k2),
        spec_key_name(k1).len() > 0,
{
    reveal_strlit("Left");
    reveal_strlit("Right");
    reveal_strlit("LCtrl");
    reveal_strlit("RCtrl");
    reveal_strlit("Space");
    reveal_strlit("Z");
    reveal_strlit("X");
    reveal_strlit("A");
    reveal_strlit("D");
    reveal_strlit("???");
    let n1 = spec_key_name(k1);
    let n2 = spec_key_name(k2);
    if !(k1 == Key::Up || k1 == Key::Down || k1 == Key::Enter || k1 == Key::Escape) {
        assert(n1.len() != "???"@.len());
    }
    if n1 != "???"@ && k1 != k2 && n2 != "???"@ {
        if n1.len() == n2.len() {
            assert(n1[0] != n2[0] || n1.len() >= 2 && n1[1] != n2[1]);
        }
    }
}

} // verus!

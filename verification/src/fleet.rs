use vstd::prelude::*;

verus! {

/// Rows of aliens in a fresh fleet.
pub const ALIEN_ROWS: usize = 5;

/// Aliens per row in a fresh fleet.
pub const ALIEN_COLS: usize = 11;

/// Aliens in a fresh fleet.
pub const ALIEN_COUNT: usize = 55;

/// Where an alien starts a round: its rectangle on the screen, in pixels.
#[derive(Clone, Copy, PartialEq, Eq, Structural, Debug)]
pub struct AlienSlot {
    pub x: u32,
    pub y: u32,
    pub width: u32,
    pub height: u32,
}

/// Starting rectangle of the alien in row `row` and column `col`.
pub open spec fn spec_slot_at(row: int, col: int) -> AlienSlot {
    AlienSlot { x: (60 + col * 60) as u32, y: (60 + row * 45) as u32, width: 44, height: 32 }
}

/// Starting rectangle of alien `i`, aliens being numbered row by row.
pub open spec fn spec_alien_slot(i: int) -> AlienSlot {
    spec_slot_at(i / (ALIEN_COLS as int), i % (ALIEN_COLS as int))
}

/// Replaces the contents of `aliens` with a fresh fleet, row by row.
pub fn reset_aliens(aliens: &mut Vec<AlienSlot>)
    ensures
        final(aliens)@.len() == ALIEN_COUNT,
        forall|i: int| 0 <= i < ALIEN_COUNT ==> #[trigger] final(aliens)@[i] == spec_alien_slot(i),
{
    aliens.clear();
    let mut row: usize = 0;
    while row < ALIEN_ROWS
        invariant
            row <= ALIEN_ROWS,
            aliens@.len() == row * ALIEN_COLS,
            forall|i: int| 0 <= i < aliens@.len() ==> #[trigger] aliens@[i] == spec_alien_slot(i),
        decreases ALIEN_ROWS - row,
    {
        let mut col: usize = 0;
        while col < ALIEN_COLS
            invariant
                row < ALIEN_ROWS,
                col <= ALIEN_COLS,
                aliens@.len() == row * ALIEN_COLS + col,
                forall|i: int| 0 <= i < aliens@.len() ==> #[trigger] aliens@[i] == spec_alien_slot(i),
            decreases ALIEN_COLS - col,
        {
            let ghost i: int = (row * ALIEN_COLS + col) as int;
            assert(i / 11 == row as int && i % 11 == col as int) by (nonlinear_arith)
                requires
                    i == row * 11 + col,
                    col < 11,
                    row < 5,
            ;
            aliens.push(
                AlienSlot { x: 60 + col as u32 * 60, y: 60 + row as u32 * 45, width: 44, height: 32 },
            );
            col += 1;
        }
        row += 1;
    }
}

/// The screen the game is drawn on, in pixels.
pub const SCREEN_WIDTH: u32 = 800;

/// The screen the game is drawn on, in pixels.
pub const SCREEN_HEIGHT: u32 = 600;

/// Two distinct aliens of a fresh fleet never overlap, and every one lies on the screen.
pub proof fn lemma_fleet_layout(i: int, j: int)
    requires
        0 <= i < ALIEN_COUNT,
        0 <= j < ALIEN_COUNT,
    ensures
        spec_alien_slot(i).x + spec_alien_slot(i).width <= SCREEN_WIDTH,
        spec_alien_slot(i).y + spec_alien_slot(i).height <= SCREEN_HEIGHT,
        i != j ==> {
            ||| spec_alien_slot(i).x + spec_alien_slot(i).width <= spec_alien_slot(j).x
            ||| spec_alien_slot(j).x + spec_alien_slot(j).width <= spec_alien_slot(i).x
            ||| spec_alien_slot(i).y + spec_alien_slot(i).height <= spec_alien_slot(j).y
            ||| spec_alien_slot(j).y + spec_alien_slot(j).height <= spec_alien_slot(i).y
        },
{
    let ri = i / 11;
    let ci = i % 11;
    let rj = j / 11;
    let cj = j % 11;
    assert(0 <= ri < 5 && 0 <= ci < 11 && i == ri * 11 + ci) by (nonlinear_arith)
        requires
            0 <= i < 55,
            ri == i / 11,
            ci == i % 11,
    ;
    assert(0 <= rj < 5 && 0 <= cj < 11 && j == rj * 11 + cj) by (nonlinear_arith)
        requires
            0 <= j < 55,
            rj == j / 11,
            cj == j % 11,
    ;
}

/// Rows of the alien sprite.
pub const ALIEN_ART_ROWS: usize = 8;

/// Columns of the alien sprite.
pub const ALIEN_ART_COLS: usize = 11;

/// Row `r` of the alien sprite, top to bottom: '1' marks a lit pixel.
pub open spec fn spec_alien_art_row(r: int) -> Seq<char> {
    if r == 0 {
        "00100000100"@
    } else if r == 1 {
        "00010001000"@
    } else if r == 2 {
        "00111111100"@
    } else if r == 3 {
        "01101110110"@
    } else if r == 4 {
        "11111111111"@
    } else if r == 5 {
        "10111111101"@
    } else if r == 6 {
        "10100000101"@
    } else {
        "00011011000"@
    }
}

/// Row `r` of the alien sprite.
pub fn alien_art_row(r: usize) -> (row: &'static str)
    requires
        r < ALIEN_ART_ROWS,
    ensures
        row@ == spec_alien_art_row(r as int),
        row@.len() == ALIEN_ART_COLS,
{
    proof {
        reveal_strlit("00100000100");
        reveal_strlit("00010001000");
        reveal_strlit("00111111100");
        reveal_strlit("01101110110");
        reveal_strlit("11111111111");
        reveal_strlit("10111111101");
        reveal_strlit("10100000101");
        reveal_strlit("00011011000");
    }
    match r {
        0 => "00100000100",
        1 => "00010001000",
        2 => "00111111100",
        3 => "01101110110",
        4 => "11111111111",
        5 => "10111111101",
        6 => "10100000101",
        _ => "00011011000",
    }
}

/// Whether the pixel in row `r`, column `c` of the alien sprite is lit.
pub fn alien_pixel_lit(r: usize, c: usize) -> (lit: bool)
    requires
        r < ALIEN_ART_ROWS,
        c < ALIEN_ART_COLS,
    ensures
        lit == (spec_alien_art_row(r as int)[c as int] == '1'),
{
    let row = alien_art_row(r);
    row.get_char(c) == '1'
}

} // verus!

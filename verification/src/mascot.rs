//! The mascot: a 12 by 20 pixel sprite, and which colour each of its pixels
//! takes while the eyes are open, squinting or closed.
use vstd::prelude::*;

verus! {

/// Sprite width, in cells.
pub const MASCOT_COLS: usize = 12;

/// Sprite height, in cells.
pub const MASCOT_ROWS: usize = 20;

/// The colours of the sprite.
#[derive(Clone, Copy, PartialEq, Eq, Structural, Debug)]
pub enum Paint {
    /// White fur.
    Body,
    /// Pink of the inner ears and the cheeks.
    Pink,
    /// Dark pupil.
    Eye,
    /// White glint in the eye.
    Highlight,
    /// Nose.
    Nose,
    /// Corners of the mouth.
    Mouth,
    /// A shut eyelid, drawn white over the eye.
    Lid,
}

/// How open the eyes are at a moment of the blink cycle.
#[derive(Clone, Copy, PartialEq, Eq, Structural, Debug)]
pub enum EyeState {
    Open,
    /// Half shut: only the upper row of each eye is covered.
    Squint,
    Closed,
}

/// One painted cell of the sprite.
#[derive(Clone, Copy, PartialEq, Eq, Structural, Debug)]
pub struct SpriteCell {
    pub row: usize,
    pub col: usize,
    pub paint: Paint,
}

/// Row `r` of the sprite, left to right; `None` is a transparent cell.
pub open spec fn sprite_row(r: int) -> Seq<Option<Paint>> {
    if r == 0 {
        seq![
            None, None, Some(Paint::Body), Some(Paint::Body),
            None, None, None, None,
            Some(Paint::Body), Some(Paint::Body), None, None,
        ]
    } else if r == 1 {
        seq![
            None, None, Some(Paint::Body), Some(Paint::Body),
            None, None, None, None,
            Some(Paint::Body), Some(Paint::Body), None, None,
        ]
    } else if r == 2 {
        seq![
            None, Some(Paint::Body), Some(Paint::Body), Some(Paint::Body),
            Some(Paint::Body), None, None, Some(Paint::Body),
            Some(Paint::Body), Some(Paint::Body), Some(Paint::Body), None,
        ]
    } else if r == 3 {
        seq![
            None, Some(Paint::Body), Some(Paint::Pink), Some(Paint::Pink),
            Some(Paint::Body), None, None, Some(Paint::Body),
            Some(Paint::Pink), Some(Paint::Pink), Some(Paint::Body), None,
        ]
    } else if r == 4 {
        seq![
            None, Some(Paint::Body), Some(Paint::Pink), Some(Paint::Pink),
            Some(Paint::Body), None, None, Some(Paint::Body),
            Some(Paint::Pink), Some(Paint::Pink), Some(Paint::Body), None,
        ]
    } else if r == 5 {
        seq![
            None, Some(Paint::Body), Some(Paint::Body), Some(Paint::Body),
            Some(Paint::Body), Some(Paint::Body), Some(Paint::Body), Some(Paint::Body),
            Some(Paint::Body), Some(Paint::Body), Some(Paint::Body), None,
        ]
    } else if r == 6 {
        seq![
            None, Some(Paint::Body), Some(Paint::Body), Some(Paint::Body),
            Some(Paint::Body), Some(Paint::Body), Some(Paint::Body), Some(Paint::Body),
            Some(Paint::Body), Some(Paint::Body), Some(Paint::Body), None,
        ]
    } else if r == 7 {
        seq![
            None, Some(Paint::Body), Some(Paint::Eye), Some(Paint::Highlight),
            Some(Paint::Body), Some(Paint::Body), Some(Paint::Body), Some(Paint::Body),
            Some(Paint::Eye), Some(Paint::Highlight), Some(Paint::Body), None,
        ]
    } else if r == 8 {
        seq![
            None, Some(Paint::Body), Some(Paint::Eye), Some(Paint::Eye),
            Some(Paint::Body), Some(Paint::Body), Some(Paint::Body), Some(Paint::Body),
            Some(Paint::Eye), Some(Paint::Eye), Some(Paint::Body), None,
        ]
    } else if r == 9 {
        seq![
            None, Some(Paint::Pink), Some(Paint::Body), Some(Paint::Body),
            Some(Paint::Body), Some(Paint::Nose), Some(Paint::Nose), Some(Paint::Body),
            Some(Paint::Body), Some(Paint::Body), Some(Paint::Pink), None,
        ]
    } else if r == 10 {
        seq![
            None, Some(Paint::Body), Some(Paint::Body), Some(Paint::Body),
            Some(Paint::Mouth), Some(Paint::Body), Some(Paint::Body), Some(Paint::Mouth),
            Some(Paint::Body), Some(Paint::Body), Some(Paint::Body), None,
        ]
    } else if r == 11 {
        seq![
            None, Some(Paint::Body), Some(Paint::Body), Some(Paint::Body),
            Some(Paint::Body), Some(Paint::Body), Some(Paint::Body), Some(Paint::Body),
            Some(Paint::Body), Some(Paint::Body), Some(Paint::Body), None,
        ]
    } else if r == 12 {
        seq![
            None, Some(Paint::Body), Some(Paint::Body), Some(Paint::Body),
            Some(Paint::Body), Some(Paint::Body), Some(Paint::Body), Some(Paint::Body),
            Some(Paint::Body), Some(Paint::Body), Some(Paint::Body), None,
        ]
    } else if r == 13 {
        seq![
            Some(Paint::Body), Some(Paint::Body), Some(Paint::Body), Some(Paint::Body),
            Some(Paint::Body), Some(Paint::Body), Some(Paint::Body), Some(Paint::Body),
            Some(Paint::Body), Some(Paint::Body), Some(Paint::Body), Some(Paint::Body),
        ]
    } else if r == 14 {
        seq![
            Some(Paint::Body), Some(Paint::Body), Some(Paint::Body), Some(Paint::Body),
            Some(Paint::Body), Some(Paint::Body), Some(Paint::Body), Some(Paint::Body),
            Some(Paint::Body), Some(Paint::Body), Some(Paint::Body), Some(Paint::Body),
        ]
    } else if r == 15 {
        seq![
            Some(Paint::Body), Some(Paint::Body), Some(Paint::Body), Some(Paint::Body),
            Some(Paint::Body), Some(Paint::Body), Some(Paint::Body), Some(Paint::Body),
            Some(Paint::Body), Some(Paint::Body), Some(Paint::Body), Some(Paint::Body),
        ]
    } else if r == 16 {
        seq![
            None, Some(Paint::Body), Some(Paint::Body), Some(Paint::Body),
            None, None, None, None,
            Some(Paint::Body), Some(Paint::Body), Some(Paint::Body), None,
        ]
    } else if r == 17 {
        seq![
            None, Some(Paint::Body), Some(Paint::Body), Some(Paint::Body),
            None, None, None, None,
            Some(Paint::Body), Some(Paint::Body), Some(Paint::Body), None,
        ]
    } else if r == 18 {
        seq![
            Some(Paint::Body), Some(Paint::Body), Some(Paint::Body), Some(Paint::Body),
            None, None, None, None,
            Some(Paint::Body), Some(Paint::Body), Some(Paint::Body), Some(Paint::Body),
        ]
    } else if r == 19 {
        seq![
            Some(Paint::Body), Some(Paint::Body), Some(Paint::Body), Some(Paint::Body),
            None, None, None, None,
            Some(Paint::Body), Some(Paint::Body), Some(Paint::Body), Some(Paint::Body),
        ]
    } else {
        Seq::<Option<Paint>>::empty()
    }
}

/// The sprite's cell at row `r`, column `c`.
pub open spec fn sprite_cell(r: int, c: int) -> Option<Paint> {
    sprite_row(r)[c]
}

/// The cells that make up the eyes: rows 7 and 8, columns 2, 3, 8 and 9.
pub open spec fn is_eye_cell(r: int, c: int) -> bool {
    (r == 7 || r == 8) && (c == 2 || c == 3 || c == 8 || c == 9)
}

/// The colour of a cell with the eyes in state `eyes`: eye cells are covered
/// by the lid when the eyes are closed, and on the upper eye row when they
/// squint; every other cell keeps its colour.
pub open spec fn painted(r: int, c: int, eyes: EyeState) -> Option<Paint> {
    match sprite_cell(r, c) {
        None => None,
        Some(p) => if is_eye_cell(r, c) && (eyes == EyeState::Closed || (eyes == EyeState::Squint
            && r == 7)) {
            Some(Paint::Lid)
        } else {
            Some(p)
        },
    }
}

/// The painted cells among the first `n` cells of the sprite, in reading
/// order (row by row, left to right).
pub open spec fn painted_cells(eyes: EyeState, n: int) -> Seq<SpriteCell>
    decreases n,
{
    if n <= 0 {
        Seq::<SpriteCell>::empty()
    } else {
        let r = (n - 1) / 12;
        let c = (n - 1) % 12;
        let before = painted_cells(eyes, n - 1);
        match painted(r, c, eyes) {
            Some(p) => before.push(SpriteCell { row: r as usize, col: c as usize, paint: p }),
            None => before,
        }
    }
}

/// Blinking only ever changes eye cells; with open eyes the sprite is drawn
/// as it is; a squint leaves the lower eye row alone.
pub proof fn law_blink_touches_only_eyes(r: int, c: int, eyes: EyeState)
    ensures
        !is_eye_cell(r, c) ==> painted(r, c, eyes) == sprite_cell(r, c),
        painted(r, c, EyeState::Open) == sprite_cell(r, c),
        r == 8 ==> painted(r, c, EyeState::Squint) == sprite_cell(r, c),
{
}

/// Every eye cell is painted, so a closed eye always shows.
pub proof fn law_eyes_are_painted(r: int, c: int, eyes: EyeState)
    requires
        is_eye_cell(r, c),
    ensures
        sprite_cell(r, c) is Some,
        eyes == EyeState::Closed ==> painted(r, c, eyes) == Some(Paint::Lid),
{
}

/// The sprite is its own mirror image, row by row, except on row 7 where the
/// glints sit on the same side of both eyes; every row spans 12 cells.
pub proof fn law_sprite_is_symmetric(r: int, c: int)
    requires
        0 <= r < MASCOT_ROWS,
        0 <= c < MASCOT_COLS,
    ensures
        sprite_row(r).len() == MASCOT_COLS,
        r != 7 ==> sprite_cell(r, c) == sprite_cell(r, 11 - c),
        r == 7 ==> (sprite_cell(r, c) is Some) == (sprite_cell(r, 11 - c) is Some),
{
}

/// The face: dark eyes with a glint to their right on row 7 and below them on
/// row 8, the nose in the middle of row 9 between pink cheeks, and a mouth
/// corner at each side of row 10.
pub proof fn law_sprite_face()
    ensures
        sprite_cell(7, 2) == Some(Paint::Eye) && sprite_cell(7, 3) == Some(Paint::Highlight),
        sprite_cell(7, 8) == Some(Paint::Eye) && sprite_cell(7, 9) == Some(Paint::Highlight),
        sprite_cell(8, 2) == Some(Paint::Eye) && sprite_cell(8, 3) == Some(Paint::Eye),
        sprite_cell(8, 8) == Some(Paint::Eye) && sprite_cell(8, 9) == Some(Paint::Eye),
        sprite_cell(9, 5) == Some(Paint::Nose) && sprite_cell(9, 6) == Some(Paint::Nose),
        sprite_cell(9, 1) == Some(Paint::Pink) && sprite_cell(9, 10) == Some(Paint::Pink),
        sprite_cell(10, 4) == Some(Paint::Mouth) && sprite_cell(10, 7) == Some(Paint::Mouth),
        forall|c: int| 0 <= c < MASCOT_COLS && c != 4 && c != 7 ==> sprite_cell(10, c) != Some(Paint::Mouth),
{
}

/// The sprite's cell at row `row`, column `col`.
pub fn mascot_cell(row: usize, col: usize) -> (p: Option<Paint>)
    requires
        row < MASCOT_ROWS,
        col < MASCOT_COLS,
    ensures
        p == sprite_cell(row as int, col as int),
{
    let cells: [Option<Paint>; 12] = match row {
        0 => [
            None, None, Some(Paint::Body), Some(Paint::Body),
            None, None, None, None,
            Some(Paint::Body), Some(Paint::Body), None, None,
        ],
        1 => [
            None, None, Some(Paint::Body), Some(Paint::Body),
            None, None, None, None,
            Some(Paint::Body), Some(Paint::Body), None, None,
        ],
        2 => [
            None, Some(Paint::Body), Some(Paint::Body), Some(Paint::Body),
            Some(Paint::Body), None, None, Some(Paint::Body),
            Some(Paint::Body), Some(Paint::Body), Some(Paint::Body), None,
        ],
        3 => [
            None, Some(Paint::Body), Some(Paint::Pink), Some(Paint::Pink),
            Some(Paint::Body), None, None, Some(Paint::Body),
            Some(Paint::Pink), Some(Paint::Pink), Some(Paint::Body), None,
        ],
        4 => [
            None, Some(Paint::Body), Some(Paint::Pink), Some(Paint::Pink),
            Some(Paint::Body), None, None, Some(Paint::Body),
            Some(Paint::Pink), Some(Paint::Pink), Some(Paint::Body), None,
        ],
        5 => [
            None, Some(Paint::Body), Some(Paint::Body), Some(Paint::Body),
            Some(Paint::Body), Some(Paint::Body), Some(Paint::Body), Some(Paint::Body),
            Some(Paint::Body), Some(Paint::Body), Some(Paint::Body), None,
        ],
        6 => [
            None, Some(Paint::Body), Some(Paint::Body), Some(Paint::Body),
            Some(Paint::Body), Some(Paint::Body), Some(Paint::Body), Some(Paint::Body),
            Some(Paint::Body), Some(Paint::Body), Some(Paint::Body), None,
        ],
        7 => [
            None, Some(Paint::Body), Some(Paint::Eye), Some(Paint::Highlight),
            Some(Paint::Body), Some(Paint::Body), Some(Paint::Body), Some(Paint::Body),
            Some(Paint::Eye), Some(Paint::Highlight), Some(Paint::Body), None,
        ],
        8 => [
            None, Some(Paint::Body), Some(Paint::Eye), Some(Paint::Eye),
            Some(Paint::Body), Some(Paint::Body), Some(Paint::Body), Some(Paint::Body),
            Some(Paint::Eye), Some(Paint::Eye), Some(Paint::Body), None,
        ],
        9 => [
            None, Some(Paint::Pink), Some(Paint::Body), Some(Paint::Body),
            Some(Paint::Body), Some(Paint::Nose), Some(Paint::Nose), Some(Paint::Body),
            Some(Paint::Body), Some(Paint::Body), Some(Paint::Pink), None,
        ],
        10 => [
            None, Some(Paint::Body), Some(Paint::Body), Some(Paint::Body),
            Some(Paint::Mouth), Some(Paint::Body), Some(Paint::Body), Some(Paint::Mouth),
            Some(Paint::Body), Some(Paint::Body), Some(Paint::Body), None,
        ],
        11 => [
            None, Some(Paint::Body), Some(Paint::Body), Some(Paint::Body),
            Some(Paint::Body), Some(Paint::Body), Some(Paint::Body), Some(Paint::Body),
            Some(Paint::Body), Some(Paint::Body), Some(Paint::Body), None,
        ],
        12 => [
            None, Some(Paint::Body), Some(Paint::Body), Some(Paint::Body),
            Some(Paint::Body), Some(Paint::Body), Some(Paint::Body), Some(Paint::Body),
            Some(Paint::Body), Some(Paint::Body), Some(Paint::Body), None,
        ],
        13 => [
            Some(Paint::Body), Some(Paint::Body), Some(Paint::Body), Some(Paint::Body),
            Some(Paint::Body), Some(Paint::Body), Some(Paint::Body), Some(Paint::Body),
            Some(Paint::Body), Some(Paint::Body), Some(Paint::Body), Some(Paint::Body),
        ],
        14 => [
            Some(Paint::Body), Some(Paint::Body), Some(Paint::Body), Some(Paint::Body),
            Some(Paint::Body), Some(Paint::Body), Some(Paint::Body), Some(Paint::Body),
            Some(Paint::Body), Some(Paint::Body), Some(Paint::Body), Some(Paint::Body),
        ],
        15 => [
            Some(Paint::Body), Some(Paint::Body), Some(Paint::Body), Some(Paint::Body),
            Some(Paint::Body), Some(Paint::Body), Some(Paint::Body), Some(Paint::Body),
            Some(Paint::Body), Some(Paint::Body), Some(Paint::Body), Some(Paint::Body),
        ],
        16 => [
            None, Some(Paint::Body), Some(Paint::Body), Some(Paint::Body),
            None, None, None, None,
            Some(Paint::Body), Some(Paint::Body), Some(Paint::Body), None,
        ],
        17 => [
            None, Some(Paint::Body), Some(Paint::Body), Some(Paint::Body),
            None, None, None, None,
            Some(Paint::Body), Some(Paint::Body), Some(Paint::Body), None,
        ],
        18 => [
            Some(Paint::Body), Some(Paint::Body), Some(Paint::Body), Some(Paint::Body),
            None, None, None, None,
            Some(Paint::Body), Some(Paint::Body), Some(Paint::Body), Some(Paint::Body),
        ],
        19 => [
            Some(Paint::Body), Some(Paint::Body), Some(Paint::Body), Some(Paint::Body),
            None, None, None, None,
            Some(Paint::Body), Some(Paint::Body), Some(Paint::Body), Some(Paint::Body),
        ],
        _ => [None, None, None, None, None, None, None, None, None, None, None, None],
    };
    proof {
        assert(cells@ =~= sprite_row(row as int));
    }
    cells[col]
}

/// Whether the cell at row `row`, column `col` belongs to an eye.
pub fn is_eye(row: usize, col: usize) -> (b: bool)
    ensures
        b == is_eye_cell(row as int, col as int),
{
    (row == 7 || row == 8) && (col == 2 || col == 3 || col == 8 || col == 9)
}

/// The colour of the cell at row `row`, column `col` with the eyes in state
/// `eyes`, or `None` where the sprite is transparent.
pub fn cell_paint(row: usize, col: usize, eyes: EyeState) -> (p: Option<Paint>)
    requires
        row < MASCOT_ROWS,
        col < MASCOT_COLS,
    ensures
        p == painted(row as int, col as int, eyes),
{
    match mascot_cell(row, col) {
        None => None,
        Some(base) => {
            let shut = match eyes {
                EyeState::Closed => true,
                EyeState::Squint => row == 7,
                EyeState::Open => false,
            };
            if is_eye(row, col) && shut {
                Some(Paint::Lid)
            } else {
                Some(base)
            }
        },
    }
}

/// The painted cells of the sprite in reading order, each with its colour.
pub fn sprite_cells(eyes: EyeState) -> (cells: Vec<SpriteCell>)
    ensures
        cells@ == painted_cells(eyes, (MASCOT_ROWS * MASCOT_COLS) as int),
{
    let mut cells: Vec<SpriteCell> = Vec::new();
    for r in 0..MASCOT_ROWS
        invariant
            cells@ == painted_cells(eyes, r * 12),
    {
        for c in 0..MASCOT_COLS
            invariant
                r < MASCOT_ROWS,
                cells@ == painted_cells(eyes, r * 12 + c),
        {
            proof {
                assert((r * 12 + c) / 12 == r);
                assert((r * 12 + c) % 12 == c);
            }
            match cell_paint(r, c, eyes) {
                Some(p) => cells.push(SpriteCell { row: r, col: c, paint: p }),
                None => {},
            }
        }
    }
    cells
}

} // verus!

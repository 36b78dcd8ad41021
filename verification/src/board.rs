//! The mathematical model of the board and of the phase transitions.
//!
//! A board is a sequence of 8 rows of 7 slots, each slot empty or holding one
//! cell. The spec functions here define, slot by slot, what each pass of the
//! engine does: the gravity scan (`fall_board`), the scoring analysis
//! (`analyze_board`), and the dispatch of one step (`step_board`,
//! `step_state`).

use vstd::prelude::*;

verus! {

/// Number of rows of the board; row 0 is the top, row `ROWS - 1` the bottom.
pub const ROWS: usize = 8;

/// Number of columns of the board.
pub const COLS: usize = 7;

/// One occupied slot's payload. A cell carries no identity beyond the slot
/// that holds it and is copied by value.
#[derive(Copy, Clone, PartialEq, Eq, Structural, Debug)]
pub struct Cell {
    /// Semantic weight of the block; compared against column height by the
    /// analysis pass.
    pub value: u8,
    /// Special tag: 0 for a normal cell, nonzero for a special cell (the
    /// magnitude selects the rendered variant, nothing else).
    pub mystery: u8,
    /// Set by the analysis pass when the cell is marked for elimination.
    pub destroy: bool,
}

/// The engine's current phase; exactly one is active at any time and it alone
/// decides what `next` does.
#[derive(Copy, Clone, PartialEq, Eq, Structural, Debug)]
pub enum GameState {
    Stable,
    Analyzing,
    Exploding,
    Falling,
    End,
}

/// The model of a board: 8 rows of 7 optional cells.
pub type BoardView = Seq<Seq<Option<Cell>>>;

/// The board has exactly `ROWS` rows of `COLS` slots each.
pub open spec fn board_wf(b: BoardView) -> bool {
    &&& b.len() == ROWS
    &&& forall|r: int| 0 <= r < ROWS ==> (#[trigger] b[r]).len() == COLS
}

/// `b` with slot `(r, c)` replaced by `v`.
pub open spec fn set_slot(b: BoardView, r: int, c: int, v: Option<Cell>) -> BoardView {
    b.update(r, b[r].update(c, v))
}

/// The gravity scan moves the cell at `(r, c)` when the slot below it exists
/// and is empty.
pub open spec fn can_fall(b: BoardView, r: int, c: int) -> bool {
    &&& b[r][c] is Some
    &&& r + 1 < ROWS
    &&& b[r + 1][c] is None
}

/// One slot of the gravity scan: the cell at `(r, c)` drops one row when it
/// can, and everything else stays.
pub open spec fn fall_at(b: BoardView, r: int, c: int) -> BoardView {
    if can_fall(b, r, c) {
        set_slot(set_slot(b, r + 1, c, b[r][c]), r, c, None)
    } else {
        b
    }
}

/// The gravity scan applied to the first `c` slots of row `r`, left to right.
pub open spec fn fall_row(b: BoardView, r: int, c: int) -> BoardView
    decreases c,
{
    if c <= 0 {
        b
    } else {
        fall_at(fall_row(b, r, c - 1), r, c - 1)
    }
}

/// The gravity scan applied to the first `r` full rows, top to bottom.
pub open spec fn fall_rows(b: BoardView, r: int) -> BoardView
    decreases r,
{
    if r <= 0 {
        b
    } else {
        fall_row(fall_rows(b, r - 1), r - 1, COLS as int)
    }
}

/// One full gravity pass: every slot visited in row-major order, moves applied
/// in place, so a cell that drops into a row not yet visited is re-examined
/// and may descend several rows within the same pass.
pub open spec fn fall_board(b: BoardView) -> BoardView {
    fall_rows(b, ROWS as int)
}

/// Whether the scan of the first `c` slots of row `r` moved some cell.
pub open spec fn moved_row(b: BoardView, r: int, c: int) -> bool
    decreases c,
{
    if c <= 0 {
        false
    } else {
        moved_row(b, r, c - 1) || can_fall(fall_row(b, r, c - 1), r, c - 1)
    }
}

/// Whether the scan of the first `r` full rows moved some cell.
pub open spec fn moved_rows(b: BoardView, r: int) -> bool
    decreases r,
{
    if r <= 0 {
        false
    } else {
        moved_rows(b, r - 1) || moved_row(fall_rows(b, r - 1), r - 1, COLS as int)
    }
}

/// Whether one full gravity pass over `b` moves at least one cell.
pub open spec fn fall_moved(b: BoardView) -> bool {
    moved_rows(b, ROWS as int)
}

/// Contiguous occupied slots of column `c`, counted upward from row `r`:
/// the count stops at the first empty slot.
pub open spec fn col_height_from(b: BoardView, c: int, r: nat) -> nat
    decreases r,
{
    if b[r as int][c] is None {
        0
    } else if r == 0 {
        1
    } else {
        1 + col_height_from(b, c, (r - 1) as nat)
    }
}

/// Height of column `c`: contiguous occupied slots counted from the bottom
/// row upward, stopping at the first gap.
pub open spec fn col_height(b: BoardView, c: int) -> nat {
    col_height_from(b, c, (ROWS - 1) as nat)
}

/// 1 when the slot holds a cell, 0 when it is empty.
pub open spec fn slot_count(v: Option<Cell>) -> nat {
    if v is Some {
        1
    } else {
        0
    }
}

/// Occupied slots among the first `c` of one row.
pub open spec fn occupied_in_row(row: Seq<Option<Cell>>, c: int) -> nat
    decreases c,
{
    if c <= 0 {
        0
    } else {
        occupied_in_row(row, c - 1) + slot_count(row[c - 1])
    }
}

/// Occupied slots in the first `r` rows of the board.
pub open spec fn occupied_upto(b: BoardView, r: int) -> nat
    decreases r,
{
    if r <= 0 {
        0
    } else {
        occupied_upto(b, r - 1) + occupied_in_row(b[r - 1], COLS as int)
    }
}

/// Number of occupied slots on the whole board.
pub open spec fn occupied_count(b: BoardView) -> nat {
    occupied_upto(b, ROWS as int)
}

/// Two boards with the same slots occupied, whatever the cells hold.
pub open spec fn same_occupancy(a: BoardView, b: BoardView) -> bool {
    forall|r: int, c: int|
        0 <= r < ROWS && 0 <= c < COLS ==> ((#[trigger] a[r][c]) is Some <==> b[r][c] is Some)
}

/// One slot of the analysis pass: an occupied cell whose value equals its
/// column's height is marked for elimination; its value and tag are kept.
pub open spec fn analyze_slot(b: BoardView, r: int, c: int) -> Option<Cell> {
    match b[r][c] {
        Some(cell) => if cell.value == col_height(b, c) {
            Some(Cell { value: cell.value, mystery: cell.mystery, destroy: true })
        } else {
            Some(cell)
        },
        None => None,
    }
}

/// One full analysis pass. Heights are those of the board at entry: marking a
/// cell changes no slot's occupancy, so every cell of one column is judged
/// against the same height.
pub open spec fn analyze_board(b: BoardView) -> BoardView {
    Seq::new(ROWS as nat, |r: int| Seq::new(COLS as nat, |c: int| analyze_slot(b, r, c)))
}

/// The starting layout placed by `init`: three fixed cells, everything else
/// empty.
pub open spec fn init_slot(r: int, c: int) -> Option<Cell> {
    if r == 3 && c == 3 {
        Some(Cell { value: 2, mystery: 0, destroy: false })
    } else if r == 7 && c == 3 {
        Some(Cell { value: 3, mystery: 2, destroy: false })
    } else if r == 1 && c == 5 {
        Some(Cell { value: 6, mystery: 0, destroy: false })
    } else {
        None
    }
}

/// The board `init` leaves behind.
pub open spec fn init_board() -> BoardView {
    Seq::new(ROWS as nat, |r: int| Seq::new(COLS as nat, |c: int| init_slot(r, c)))
}

/// What one step does to the board, by phase: the gravity pass moves cells,
/// the analysis pass marks them, every other phase leaves the board alone.
pub open spec fn step_board(b: BoardView, s: GameState) -> BoardView {
    match s {
        GameState::Falling => fall_board(b),
        GameState::Analyzing => analyze_board(b),
        GameState::Exploding => b,
        GameState::Stable => b,
        GameState::End => b,
    }
}

/// What one step does to the phase: `Falling` persists while some cell still
/// moves and yields to `Analyzing` otherwise; `Analyzing` always yields to
/// `Exploding`, `Exploding` to `Stable`; `Stable` waits for the driver and
/// `End` is terminal.
pub open spec fn step_state(b: BoardView, s: GameState) -> GameState {
    match s {
        GameState::Falling => if fall_moved(b) {
            GameState::Falling
        } else {
            GameState::Analyzing
        },
        GameState::Analyzing => GameState::Exploding,
        GameState::Exploding => GameState::Stable,
        GameState::Stable => GameState::Stable,
        GameState::End => GameState::End,
    }
}

/// `n` full gravity passes.
pub open spec fn fall_iter(b: BoardView, n: nat) -> BoardView
    decreases n,
{
    if n == 0 {
        b
    } else {
        fall_board(fall_iter(b, (n - 1) as nat))
    }
}

/// `n` steps of the engine, as a pure function on the model.
pub open spec fn run(b: BoardView, s: GameState, n: nat) -> (BoardView, GameState)
    decreases n,
{
    if n == 0 {
        (b, s)
    } else {
        let prev = run(b, s, (n - 1) as nat);
        (step_board(prev.0, prev.1), step_state(prev.0, prev.1))
    }
}

} // verus!

//! Properties of the engine that relate several steps or passes.

use vstd::prelude::*;

use crate::board::{
    analyze_board, board_wf, can_fall, col_height, col_height_from, fall_at, fall_board, fall_row,
    fall_moved, fall_rows, moved_row, moved_rows, occupied_count, occupied_in_row, occupied_upto,
    run,
    same_occupancy, set_slot, slot_count, step_board, step_state, BoardView, Cell, GameState,
    COLS, ROWS,
};

verus! {

/// Counting a column from row `r` downward-to-up: if the `k` slots at rows
/// `r, r-1, ..., r-k+1` are occupied and the next one up (when there is one)
/// is empty, the count from `r` is exactly `k`.
pub proof fn lemma_col_height_from_count(b: BoardView, c: int, r: nat, k: nat)
    requires
        k <= r + 1,
        forall|x: int| r - k < x <= r ==> (#[trigger] b[x][c]) is Some,
        k <= r ==> b[r - k][c] is None,
    ensures
        col_height_from(b, c, r) == k,
    decreases k,
{
    if k == 0 {
    } else if r == 0 {
    } else {
        lemma_col_height_from_count(b, c, (r - 1) as nat, (k - 1) as nat);
    }
}

/// Column height reads only which slots are occupied: two boards with the
/// same occupancy have the same height counts.
pub proof fn lemma_col_height_from_occupancy(a: BoardView, b: BoardView, c: int, r: nat)
    requires
        0 <= c < COLS,
        r < ROWS,
        same_occupancy(a, b),
    ensures
        col_height_from(a, c, r) == col_height_from(b, c, r),
    decreases r,
{
    assert(a[r as int][c] is Some <==> b[r as int][c] is Some);
    if a[r as int][c] is Some && r > 0 {
        lemma_col_height_from_occupancy(a, b, c, (r - 1) as nat);
    }
}

/// Height correctness: a column occupied in exactly its bottom `k` rows and
/// empty everywhere above them has height `k`.
pub proof fn lemma_height_of_stack(b: BoardView, c: int, k: nat)
    requires
        k <= ROWS,
        forall|r: int| ROWS - k <= r < ROWS ==> #[trigger] b[r][c] is Some,
        forall|r: int| 0 <= r < ROWS - k ==> #[trigger] b[r][c] is None,
    ensures
        col_height(b, c) == k,
{
    lemma_col_height_from_count(b, c, (ROWS - 1) as nat, k);
}

/// Replacing slot `j` of a row changes the occupancy count of any prefix
/// that covers `j` by the difference of the two slots, and no other prefix.
proof fn lemma_occupied_in_row_update(row: Seq<Option<Cell>>, c: int, j: int, v: Option<Cell>)
    requires
        0 <= j < row.len(),
        c <= row.len(),
    ensures
        j < c ==> occupied_in_row(row.update(j, v), c) + slot_count(row[j]) == occupied_in_row(
            row,
            c,
        ) + slot_count(v),
        j >= c ==> occupied_in_row(row.update(j, v), c) == occupied_in_row(row, c),
    decreases c,
{
    if c > 0 {
        lemma_occupied_in_row_update(row, c - 1, j, v);
    }
}

/// Replacing row `i` of the board changes the occupancy count of any prefix
/// of rows that covers `i` by the difference of the two rows.
proof fn lemma_occupied_upto_update(b: BoardView, r: int, i: int, row2: Seq<Option<Cell>>)
    requires
        0 <= i < b.len(),
        r <= b.len(),
    ensures
        i < r ==> occupied_upto(b.update(i, row2), r) + occupied_in_row(b[i], COLS as int)
            == occupied_upto(b, r) + occupied_in_row(row2, COLS as int),
        i >= r ==> occupied_upto(b.update(i, row2), r) == occupied_upto(b, r),
    decreases r,
{
    if r > 0 {
        lemma_occupied_upto_update(b, r - 1, i, row2);
    }
}

/// Writing one slot trades that slot's count for the new value's count and
/// keeps the board's dimensions.
proof fn lemma_set_slot_count(b: BoardView, r: int, c: int, v: Option<Cell>)
    requires
        board_wf(b),
        0 <= r < ROWS,
        0 <= c < COLS,
    ensures
        occupied_count(set_slot(b, r, c, v)) + slot_count(b[r][c]) == occupied_count(b)
            + slot_count(v),
        board_wf(set_slot(b, r, c, v)),
{
    lemma_occupied_in_row_update(b[r], COLS as int, c, v);
    lemma_occupied_upto_update(b, ROWS as int, r, b[r].update(c, v));
}

/// One slot of the gravity scan moves a cell into an empty slot or does
/// nothing: the number of occupied slots is unchanged either way.
pub proof fn lemma_fall_at_count(b: BoardView, r: int, c: int)
    requires
        board_wf(b),
        0 <= r < ROWS,
        0 <= c < COLS,
    ensures
        occupied_count(fall_at(b, r, c)) == occupied_count(b),
        board_wf(fall_at(b, r, c)),
{
    if can_fall(b, r, c) {
        let b1 = set_slot(b, r + 1, c, b[r][c]);
        lemma_set_slot_count(b, r + 1, c, b[r][c]);
        assert(b1[r][c] == b[r][c]);
        lemma_set_slot_count(b1, r, c, None);
    }
}

/// The gravity scan of a row prefix conserves the occupied count.
pub proof fn lemma_fall_row_count(b: BoardView, r: int, c: int)
    requires
        board_wf(b),
        0 <= r < ROWS,
        0 <= c <= COLS,
    ensures
        occupied_count(fall_row(b, r, c)) == occupied_count(b),
        board_wf(fall_row(b, r, c)),
    decreases c,
{
    if c > 0 {
        lemma_fall_row_count(b, r, c - 1);
        lemma_fall_at_count(fall_row(b, r, c - 1), r, c - 1);
    }
}

/// The gravity scan of a prefix of rows conserves the occupied count.
pub proof fn lemma_fall_rows_count(b: BoardView, r: int)
    requires
        board_wf(b),
        0 <= r <= ROWS,
    ensures
        occupied_count(fall_rows(b, r)) == occupied_count(b),
        board_wf(fall_rows(b, r)),
    decreases r,
{
    if r > 0 {
        lemma_fall_rows_count(b, r - 1);
        lemma_fall_row_count(fall_rows(b, r - 1), r - 1, COLS as int);
    }
}

/// Falling conservation: one full gravity pass never changes the number of
/// occupied slots on the board — it only relocates cells — and it keeps the
/// board's dimensions.
pub proof fn lemma_falling_conserves_cells(b: BoardView)
    requires
        board_wf(b),
    ensures
        occupied_count(fall_board(b)) == occupied_count(b),
        board_wf(fall_board(b)),
{
    lemma_fall_rows_count(b, ROWS as int);
}

/// A row-prefix scan that moved nothing left the board as it was.
proof fn lemma_no_move_fixed_row(b: BoardView, r: int, c: int)
    requires
        !moved_row(b, r, c),
    ensures
        fall_row(b, r, c) == b,
    decreases c,
{
    if c > 0 {
        lemma_no_move_fixed_row(b, r, c - 1);
    }
}

/// A scan of a prefix of rows that moved nothing left the board as it was.
proof fn lemma_no_move_fixed_rows(b: BoardView, r: int)
    requires
        !moved_rows(b, r),
    ensures
        fall_rows(b, r) == b,
    decreases r,
{
    if r > 0 {
        lemma_no_move_fixed_rows(b, r - 1);
        lemma_no_move_fixed_row(b, r - 1, COLS as int);
    }
}

/// A gravity pass that reports no move leaves the board exactly as it was:
/// the step that turns `Falling` into `Analyzing` does not touch the board.
pub proof fn lemma_no_move_fixed_point(b: BoardView)
    requires
        !fall_moved(b),
    ensures
        fall_board(b) == b,
{
    lemma_no_move_fixed_rows(b, ROWS as int);
}

/// Analyzing marking: after one analysis pass, an occupied cell whose value
/// equals its column's height carries the elimination mark with its value and
/// tag preserved, and every other slot is exactly what it was.
pub proof fn lemma_analyzing_marks(b: BoardView, r: int, c: int)
    requires
        0 <= r < ROWS,
        0 <= c < COLS,
    ensures
        b[r][c] is None ==> analyze_board(b)[r][c] is None,
        b[r][c] matches Some(cell) ==> {
            &&& cell.value == col_height(b, c) ==> analyze_board(b)[r][c] == Some(
                Cell { value: cell.value, mystery: cell.mystery, destroy: true },
            )
            &&& cell.value != col_height(b, c) ==> analyze_board(b)[r][c] == b[r][c]
        },
{
}

/// Exploding no-op contract: one `Exploding` step returns the phase to
/// `Stable` and leaves every slot of the board as it was on entry.
pub proof fn lemma_exploding_noop(b: BoardView)
    ensures
        step_board(b, GameState::Exploding) == b,
        step_state(b, GameState::Exploding) == GameState::Stable,
{
}

/// No step moves a cell out of the fixed 8 x 7 grid: whatever the phase, the
/// board after one step has exactly the dimensions it had before.
pub proof fn lemma_step_keeps_bounds(b: BoardView, s: GameState)
    requires
        board_wf(b),
    ensures
        board_wf(step_board(b, s)),
{
    match s {
        GameState::Falling => lemma_falling_conserves_cells(b),
        GameState::Analyzing => {
            assert(board_wf(analyze_board(b)));
        },
        _ => {},
    }
}

/// End terminality: once the phase is `End`, any number of steps leaves both
/// the board and the phase unchanged.
pub proof fn lemma_end_terminal(b: BoardView, n: nat)
    ensures
        run(b, GameState::End, n) == (b, GameState::End),
    decreases n,
{
    if n > 0 {
        lemma_end_terminal(b, (n - 1) as nat);
    }
}

} // verus!

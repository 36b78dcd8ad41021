//! Termination of the falling phase.
//!
//! Columns do not interact during a gravity pass: the pass restricted to one
//! column is the same scan run on that column alone (`cpass`). On one column,
//! each pass settles at least one more cell onto the bottom stack, so after
//! seven passes every column is settled and the eighth step in `Falling`
//! must move to `Analyzing`.

use vstd::prelude::*;

use crate::board::{
    board_wf, can_fall, fall_at, fall_board, fall_iter, fall_moved, fall_row, fall_rows,
    moved_row, moved_rows, run, slot_count, step_board, step_state, BoardView, Cell, GameState,
    COLS, ROWS,
};

verus! {

/// Column `c` of the board, top to bottom.
spec fn col_of(b: BoardView, c: int) -> Seq<Option<Cell>> {
    Seq::new(ROWS as nat, |r: int| b[r][c])
}

/// The gravity scan's visit of row `r`, restricted to one column: the cell at
/// `r` drops one row when the slot below exists and is empty.
spec fn cstep(col: Seq<Option<Cell>>, r: int) -> Seq<Option<Cell>> {
    if col[r] is Some && r + 1 < ROWS && col[r + 1] is None {
        col.update(r + 1, col[r]).update(r, None)
    } else {
        col
    }
}

/// The first `r` rows of a gravity pass, restricted to one column.
spec fn cpass(col: Seq<Option<Cell>>, r: int) -> Seq<Option<Cell>>
    decreases r,
{
    if r <= 0 {
        col
    } else {
        cstep(cpass(col, r - 1), r - 1)
    }
}

/// `n` full gravity passes on one column.
spec fn cpass_iter(col: Seq<Option<Cell>>, n: nat) -> Seq<Option<Cell>>
    decreases n,
{
    if n == 0 {
        col
    } else {
        cpass(cpass_iter(col, (n - 1) as nat), ROWS as int)
    }
}

/// Occupied slots among the first `r` of a column.
spec fn ccount_upto(col: Seq<Option<Cell>>, r: int) -> nat
    decreases r,
{
    if r <= 0 {
        0
    } else {
        ccount_upto(col, r - 1) + slot_count(col[r - 1])
    }
}

/// Occupied slots of the whole column.
spec fn ccount(col: Seq<Option<Cell>>) -> nat {
    ccount_upto(col, ROWS as int)
}

/// The bottom `m` slots of the column are occupied.
spec fn cbottom(col: Seq<Option<Cell>>, m: int) -> bool {
    forall|x: int| ROWS - m <= x < ROWS ==> (#[trigger] col[x]) is Some
}

/// No cell of the column has an empty slot below it.
spec fn csettled(col: Seq<Option<Cell>>) -> bool {
    forall|r: int| 0 <= r < ROWS - 1 ==> !((#[trigger] col[r]) is Some && col[r + 1] is None)
}

/// No cell of the board has an empty slot below it.
spec fn settled(b: BoardView) -> bool {
    forall|r: int, c: int| 0 <= r < ROWS && 0 <= c < COLS ==> !can_fall(b, r, c)
}

/// One slot of the board-level scan leaves every other column alone, and acts
/// on its own column as `cstep` does.
proof fn lemma_fall_at_col(b: BoardView, r: int, c: int, j: int)
    requires
        board_wf(b),
        0 <= r < ROWS,
        0 <= j < COLS,
        0 <= c < COLS,
    ensures
        j != c ==> col_of(fall_at(b, r, j), c) == col_of(b, c),
        j == c ==> col_of(fall_at(b, r, j), c) == cstep(col_of(b, c), r),
{
    if j != c {
        assert(col_of(fall_at(b, r, j), c) =~= col_of(b, c));
    } else {
        assert(col_of(fall_at(b, r, j), c) =~= cstep(col_of(b, c), r));
    }
}

/// The board-level scan of a row prefix acts on each column as the single
/// visit of that row does, once the prefix has passed the column.
proof fn lemma_fall_row_col(b: BoardView, r: int, c: int, j: int)
    requires
        board_wf(b),
        0 <= r < ROWS,
        0 <= c < COLS,
        0 <= j <= COLS,
    ensures
        j <= c ==> col_of(fall_row(b, r, j), c) == col_of(b, c),
        j > c ==> col_of(fall_row(b, r, j), c) == cstep(col_of(b, c), r),
    decreases j,
{
    if j > 0 {
        lemma_fall_row_col(b, r, c, j - 1);
        crate::laws::lemma_fall_row_count(b, r, j - 1);
        lemma_fall_at_col(fall_row(b, r, j - 1), r, c, j - 1);
        if j - 1 != c {
            if j - 1 < c {
            } else {
                assert(col_of(fall_row(b, r, j), c) == cstep(col_of(b, c), r));
            }
        }
    }
}

/// A full pass over the board acts on each column as the column-level pass.
proof fn lemma_fall_rows_col(b: BoardView, c: int, r: int)
    requires
        board_wf(b),
        0 <= c < COLS,
        0 <= r <= ROWS,
    ensures
        col_of(fall_rows(b, r), c) == cpass(col_of(b, c), r),
    decreases r,
{
    if r > 0 {
        lemma_fall_rows_col(b, c, r - 1);
        crate::laws::lemma_fall_rows_count(b, r - 1);
        lemma_fall_row_col(fall_rows(b, r - 1), r - 1, c, COLS as int);
    }
}

/// A prefix of a column holds at most as many cells as slots.
proof fn lemma_ccount_le(col: Seq<Option<Cell>>, r: int)
    requires
        0 <= r,
    ensures
        ccount_upto(col, r) <= r,
    decreases r,
{
    if r > 0 {
        lemma_ccount_le(col, r - 1);
    }
}

/// Replacing one slot of a column trades its count for the new value's.
proof fn lemma_ccount_update(col: Seq<Option<Cell>>, r: int, j: int, v: Option<Cell>)
    requires
        0 <= j < col.len(),
        r <= col.len(),
    ensures
        j < r ==> ccount_upto(col.update(j, v), r) + slot_count(col[j]) == ccount_upto(col, r)
            + slot_count(v),
        j >= r ==> ccount_upto(col.update(j, v), r) == ccount_upto(col, r),
    decreases r,
{
    if r > 0 {
        lemma_ccount_update(col, r - 1, j, v);
    }
}

/// One visit of the column scan conserves its cell count and its length.
proof fn lemma_cstep_count(col: Seq<Option<Cell>>, r: int)
    requires
        col.len() == ROWS,
        0 <= r < ROWS,
    ensures
        cstep(col, r).len() == ROWS,
        ccount(cstep(col, r)) == ccount(col),
{
    if col[r] is Some && r + 1 < ROWS && col[r + 1] is None {
        let u1 = col.update(r + 1, col[r]);
        lemma_ccount_update(col, ROWS as int, r + 1, col[r]);
        assert(u1[r] == col[r]);
        lemma_ccount_update(u1, ROWS as int, r, None);
    }
}

/// A column-level pass conserves the cell count and the length.
proof fn lemma_cpass_count(col: Seq<Option<Cell>>, r: int)
    requires
        col.len() == ROWS,
        0 <= r <= ROWS,
    ensures
        cpass(col, r).len() == ROWS,
        ccount(cpass(col, r)) == ccount(col),
    decreases r,
{
    if r > 0 {
        lemma_cpass_count(col, r - 1);
        lemma_cstep_count(cpass(col, r - 1), r - 1);
    }
}

/// Counting across a fully occupied stretch adds one cell per slot.
proof fn lemma_ccount_full_range(col: Seq<Option<Cell>>, lo: int, r: int)
    requires
        0 <= lo <= r,
        forall|x: int| lo <= x < r ==> (#[trigger] col[x]) is Some,
    ensures
        ccount_upto(col, r) == ccount_upto(col, lo) + (r - lo),
    decreases r - lo,
{
    if r > lo {
        lemma_ccount_full_range(col, lo, r - 1);
    }
}

/// A prefix that counts no cell is empty throughout.
proof fn lemma_ccount_zero(col: Seq<Option<Cell>>, r: int)
    requires
        ccount_upto(col, r) == 0,
    ensures
        forall|x: int| 0 <= x < r ==> (#[trigger] col[x]) is None,
    decreases r,
{
    if r > 0 {
        lemma_ccount_zero(col, r - 1);
    }
}

/// A column whose bottom `m` slots hold all of its `m` cells is empty above.
proof fn lemma_block_only(col: Seq<Option<Cell>>, m: int)
    requires
        col.len() == ROWS,
        0 <= m <= ROWS,
        cbottom(col, m),
        ccount(col) == m,
    ensures
        forall|x: int| 0 <= x < ROWS - m ==> (#[trigger] col[x]) is None,
{
    lemma_ccount_full_range(col, ROWS - m, ROWS as int);
    lemma_ccount_zero(col, ROWS - m);
}

/// A column with more cells than its bottom stack holds one above it.
proof fn lemma_cell_above_block(col: Seq<Option<Cell>>, m: int)
    requires
        col.len() == ROWS,
        0 <= m <= ROWS,
        cbottom(col, m),
        ccount(col) > m,
    ensures
        exists|x: int| 0 <= x < ROWS - m && (#[trigger] col[x]) is Some,
{
    if forall|x: int| 0 <= x < ROWS - m ==> (#[trigger] col[x]) is None {
        lemma_ccount_full_range(col, ROWS - m, ROWS as int);
        assert(ccount_upto(col, ROWS - m) == 0) by {
            lemma_ccount_all_none(col, ROWS - m);
        }
    }
}

/// An empty prefix counts no cell.
proof fn lemma_ccount_all_none(col: Seq<Option<Cell>>, r: int)
    requires
        forall|x: int| 0 <= x < r ==> (#[trigger] col[x]) is None,
    ensures
        ccount_upto(col, r) == 0,
    decreases r,
{
    if r > 0 {
        lemma_ccount_all_none(col, r - 1);
    }
}

/// The row of the lowest cell strictly above row `below`, or -1 when there
/// is none.
spec fn lowest_cell_above(col: Seq<Option<Cell>>, below: int) -> int
    decreases below,
{
    if below <= 0 {
        -1
    } else if col[below - 1] is Some {
        below - 1
    } else {
        lowest_cell_above(col, below - 1)
    }
}

/// What `lowest_cell_above` finds: an occupied row with nothing but empty
/// slots between it and `below`, whenever any row above `below` is occupied.
proof fn lemma_lowest_cell_above(col: Seq<Option<Cell>>, below: int)
    requires
        0 <= below,
    ensures
        -1 <= lowest_cell_above(col, below) < below,
        lowest_cell_above(col, below) >= 0 ==> col[lowest_cell_above(col, below)] is Some,
        forall|x: int|
            lowest_cell_above(col, below) < x < below ==> (#[trigger] col[x]) is None,
        (exists|x: int| 0 <= x < below && (#[trigger] col[x]) is Some) ==> lowest_cell_above(
            col,
            below,
        ) >= 0,
    decreases below,
{
    if below > 0 && col[below - 1] is None {
        lemma_lowest_cell_above(col, below - 1);
    }
}

/// One visit of the column scan never vacates the bottom stack.
proof fn lemma_cstep_keeps_bottom(col: Seq<Option<Cell>>, r: int, m: int)
    requires
        col.len() == ROWS,
        0 <= r < ROWS,
        0 <= m <= ROWS,
        cbottom(col, m),
    ensures
        cbottom(cstep(col, r), m),
{
}

/// A column-level pass never vacates the bottom stack.
proof fn lemma_cpass_keeps_bottom(col: Seq<Option<Cell>>, r: int, m: int)
    requires
        col.len() == ROWS,
        0 <= r <= ROWS,
        0 <= m <= ROWS,
        cbottom(col, m),
    ensures
        cbottom(cpass(col, r), m),
    decreases r,
{
    if r > 0 {
        lemma_cpass_keeps_bottom(col, r - 1, m);
        lemma_cpass_count(col, r - 1);
        lemma_cstep_keeps_bottom(cpass(col, r - 1), r - 1, m);
    }
}

/// The scan position of the lowest cell above the stack: it waits at `r0`
/// until the scan reaches it, then rides the scan down and rests on the
/// stack.
spec fn cascade_pos(r0: int, m: int, r: int) -> int {
    if r <= r0 {
        r0
    } else if r <= ROWS - 1 - m {
        r
    } else {
        ROWS - 1 - m
    }
}

/// The cascade: with the bottom `m` slots occupied and the lowest cell above
/// them at `r0`, the scan carries that cell down; after the first `r` visits
/// it sits at `cascade_pos(r0, m, r)` with only empty slots between it and
/// the stack.
proof fn lemma_cascade(col: Seq<Option<Cell>>, m: int, r0: int, r: int)
    requires
        col.len() == ROWS,
        0 <= m < ROWS,
        cbottom(col, m),
        0 <= r0 < ROWS - 1 - m,
        col[r0] is Some,
        forall|x: int| r0 < x < ROWS - m ==> (#[trigger] col[x]) is None,
        0 <= r <= ROWS,
    ensures
        cpass(col, r).len() == ROWS,
        cbottom(cpass(col, r), m),
        cpass(col, r)[cascade_pos(r0, m, r)] is Some,
        forall|x: int|
            cascade_pos(r0, m, r) < x < ROWS - m ==> (#[trigger] cpass(col, r)[x]) is None,
    decreases r,
{
    if r > 0 {
        lemma_cascade(col, m, r0, r - 1);
        let d = cpass(col, r - 1);
        lemma_cpass_count(col, r - 1);
        lemma_cstep_keeps_bottom(d, r - 1, m);
        let p = cascade_pos(r0, m, r - 1);
        if r - 1 < p {
            // The visit is above the cascading cell: it may move some other
            // cell one row down, but never into the gap or the stack.
            assert(forall|x: int| p <= x < ROWS ==> cstep(d, r - 1)[x] == d[x]);
        } else if r - 1 == p {
            if p == ROWS - 1 - m {
                // The cell already rests on the stack; below it is occupied
                // (or it sits on the floor), so it stays.
            } else {
                // The slot below is part of the gap: the cell drops one row.
                assert(d[p + 1] is None);
            }
        } else {
            // The visit is below the cell: in the gap there is nothing to
            // move, and the stack is packed, so nothing changes.
            assert(cstep(d, r - 1) == d);
        }
    }
}

/// One pass grows the bottom stack by at least one cell, as long as cells
/// remain above it.
proof fn lemma_cpass_progress(col: Seq<Option<Cell>>, m: int)
    requires
        col.len() == ROWS,
        0 <= m < ROWS,
        cbottom(col, m),
        ccount(col) > m,
    ensures
        cbottom(cpass(col, ROWS as int), m + 1),
{
    lemma_cell_above_block(col, m);
    lemma_lowest_cell_above(col, ROWS - m);
    let r0 = lowest_cell_above(col, ROWS - m);
    if r0 == ROWS - 1 - m {
        // The lowest free cell already rests on the stack.
        lemma_cpass_keeps_bottom(col, ROWS as int, m + 1);
    } else {
        lemma_cascade(col, m, r0, ROWS as int);
    }
}

/// After `j` passes the bottom stack holds `j` cells, or all of them when the
/// column has fewer.
proof fn lemma_iter_bottom(col: Seq<Option<Cell>>, j: nat)
    requires
        col.len() == ROWS,
    ensures
        cpass_iter(col, j).len() == ROWS,
        ccount(cpass_iter(col, j)) == ccount(col),
        cbottom(
            cpass_iter(col, j),
            if j <= ccount(col) {
                j as int
            } else {
                ccount(col) as int
            },
        ),
    decreases j,
{
    if j > 0 {
        lemma_iter_bottom(col, (j - 1) as nat);
        let d = cpass_iter(col, (j - 1) as nat);
        let k = ccount(col) as int;
        lemma_cpass_count(d, ROWS as int);
        lemma_ccount_le(col, ROWS as int);
        if j - 1 < k {
            lemma_cpass_progress(d, j - 1);
        } else {
            lemma_cpass_keeps_bottom(d, ROWS as int, k);
        }
    }
}

/// A column whose cells all sit in one bottom stack is settled.
proof fn lemma_stacked_settled(col: Seq<Option<Cell>>)
    requires
        col.len() == ROWS,
        cbottom(
            col,
            if ccount(col) <= (ROWS - 1) as nat {
                ccount(col) as int
            } else {
                (ROWS - 1) as int
            },
        ),
    ensures
        csettled(col),
{
    let k = ccount(col) as int;
    lemma_ccount_le(col, ROWS as int);
    if k <= ROWS - 1 {
        lemma_block_only(col, k);
    } else {
        // Seven of the eight slots are occupied from the bottom, and the
        // count says the top slot is occupied too.
        lemma_ccount_full_range(col, 1, ROWS as int);
    }
}

/// Seven passes settle any column.
proof fn lemma_column_settles(col: Seq<Option<Cell>>)
    requires
        col.len() == ROWS,
    ensures
        csettled(cpass_iter(col, (ROWS - 1) as nat)),
{
    lemma_iter_bottom(col, (ROWS - 1) as nat);
    lemma_stacked_settled(cpass_iter(col, (ROWS - 1) as nat));
}

/// Iterated board passes act on each column as iterated column passes.
proof fn lemma_fall_iter_cols(b: BoardView, c: int, n: nat)
    requires
        board_wf(b),
        0 <= c < COLS,
    ensures
        board_wf(fall_iter(b, n)),
        col_of(fall_iter(b, n), c) == cpass_iter(col_of(b, c), n),
    decreases n,
{
    if n > 0 {
        lemma_fall_iter_cols(b, c, (n - 1) as nat);
        crate::laws::lemma_falling_conserves_cells(fall_iter(b, (n - 1) as nat));
        lemma_fall_rows_col(fall_iter(b, (n - 1) as nat), c, ROWS as int);
    }
}

/// On a settled board a row-prefix scan finds nothing to move.
proof fn lemma_settled_no_move_row(b: BoardView, r: int, c: int)
    requires
        settled(b),
        0 <= r < ROWS,
        0 <= c <= COLS,
    ensures
        fall_row(b, r, c) == b,
        !moved_row(b, r, c),
    decreases c,
{
    if c > 0 {
        lemma_settled_no_move_row(b, r, c - 1);
    }
}

/// A settled board reports no move: the gravity pass leaves it alone.
proof fn lemma_settled_no_move(b: BoardView, r: int)
    requires
        settled(b),
        0 <= r <= ROWS,
    ensures
        fall_rows(b, r) == b,
        !moved_rows(b, r),
    decreases r,
{
    if r > 0 {
        lemma_settled_no_move(b, r - 1);
        lemma_settled_no_move_row(b, r - 1, COLS as int);
    }
}

/// Falling termination: seven gravity passes settle every cell of any board,
/// so the seventh iterate reports no move — and no pass ever moves a cell
/// out of the fixed 8 x 7 grid.
pub proof fn lemma_falling_terminates(b: BoardView)
    requires
        board_wf(b),
    ensures
        board_wf(fall_iter(b, (ROWS - 1) as nat)),
        !fall_moved(fall_iter(b, (ROWS - 1) as nat)),
{
    let b7 = fall_iter(b, (ROWS - 1) as nat);
    assert forall|r: int, c: int| 0 <= r < ROWS && 0 <= c < COLS implies !can_fall(
        b7,
        r,
        c,
    ) by {
        lemma_fall_iter_cols(b, c, (ROWS - 1) as nat);
        lemma_column_settles(col_of(b, c));
        assert(col_of(b7, c)[r] == b7[r][c]);
    }
    lemma_fall_iter_cols(b, 0, (ROWS - 1) as nat);
    lemma_settled_no_move(b7, ROWS as int);
}

/// Peeling the first of `n` gravity passes.
proof fn lemma_fall_iter_shift(b: BoardView, n: nat)
    requires
        n >= 1,
    ensures
        fall_iter(b, n) == fall_iter(fall_board(b), (n - 1) as nat),
    decreases n,
{
    if n > 1 {
        lemma_fall_iter_shift(b, (n - 1) as nat);
    } else {
        assert(fall_iter(b, 0) == b);
        assert(fall_iter(fall_board(b), 0) == fall_board(b));
    }
}

/// Peeling the first of `n` engine steps.
proof fn lemma_run_shift(b: BoardView, s: GameState, n: nat)
    requires
        n >= 1,
    ensures
        run(b, s, n) == run(step_board(b, s), step_state(b, s), (n - 1) as nat),
    decreases n,
{
    if n > 1 {
        lemma_run_shift(b, s, (n - 1) as nat);
    } else {
        assert(run(b, s, 0) == (b, s));
        assert(run(step_board(b, s), step_state(b, s), 0) == (step_board(b, s), step_state(b, s)));
    }
}

/// While gravity passes still move cells, the engine steps through them one
/// by one; once the `j`-th iterate reports no move, one more step reaches
/// `Analyzing`.
proof fn lemma_reach_helper(b: BoardView, j: nat)
    requires
        board_wf(b),
        !fall_moved(fall_iter(b, j)),
    ensures
        exists|n: nat|
            n <= j + 1 && (#[trigger] run(b, GameState::Falling, n)).1 == GameState::Analyzing,
    decreases j,
{
    if !fall_moved(b) {
        assert(run(b, GameState::Falling, 0) == (b, GameState::Falling));
        assert(run(b, GameState::Falling, 1).1 == GameState::Analyzing);
    } else {
        lemma_fall_iter_shift(b, j);
        crate::laws::lemma_falling_conserves_cells(b);
        lemma_reach_helper(fall_board(b), (j - 1) as nat);
        let n0 = choose|n: nat|
            n <= (j - 1) + 1 && (#[trigger] run(
                fall_board(b),
                GameState::Falling,
                n,
            )).1 == GameState::Analyzing;
        lemma_run_shift(b, GameState::Falling, n0 + 1);
        assert(run(b, GameState::Falling, n0 + 1).1 == GameState::Analyzing);
    }
}

/// Falling termination, at the engine's level: from any board, repeated
/// steps in `Falling` reach `Analyzing` within at most eight calls.
pub proof fn lemma_falling_reaches_analyzing(b: BoardView)
    requires
        board_wf(b),
    ensures
        exists|n: nat|
            n <= ROWS && (#[trigger] run(b, GameState::Falling, n)).1 == GameState::Analyzing,
{
    lemma_falling_terminates(b);
    lemma_reach_helper(b, (ROWS - 1) as nat);
}

} // verus!


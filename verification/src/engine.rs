//! The grid engine: the board, the current phase, and the step dispatcher.

use vstd::prelude::*;

use crate::board::{
    analyze_board, analyze_slot, col_height, fall_at, fall_board, fall_moved, fall_row, fall_rows,
    init_board, moved_row, moved_rows, same_occupancy, step_board, step_state, BoardView, Cell,
    GameState, COLS, ROWS,
};
use crate::laws::{lemma_col_height_from_count, lemma_col_height_from_occupancy};

verus! {

/// The engine: a fixed 8 x 7 board of optional cells and the current phase.
/// Both are readable by external collaborators (a renderer, a driver), and the
/// driver may force the phase (to `Falling` to resume physics, or to `End`);
/// everything else is mutated only through `init` and `next`.
pub struct GameGrid {
    pub board: Vec<Vec<Option<Cell>>>,
    pub state: GameState,
}

impl GameGrid {
    /// The board as its model: a sequence of 8 rows of 7 optional cells.
    pub open spec fn rows(self) -> BoardView {
        Seq::new(self.board@.len(), |r: int| self.board@[r]@)
    }

    /// The board has its fixed dimensions.
    pub open spec fn wf(self) -> bool {
        &&& self.board@.len() == ROWS
        &&& forall|r: int| 0 <= r < ROWS ==> (#[trigger] self.board@[r])@.len() == COLS
    }

    /// A fresh engine: every slot empty, phase `End` until the driver calls
    /// `init`.
    pub fn new() -> (g: GameGrid)
        ensures
            g.wf(),
            g.state == GameState::End,
            forall|r: int, c: int|
                0 <= r < ROWS && 0 <= c < COLS ==> #[trigger] g.rows()[r][c] is None,
    {
        let mut board: Vec<Vec<Option<Cell>>> = Vec::new();
        while board.len() < ROWS
            invariant
                board@.len() <= ROWS,
                forall|r: int| 0 <= r < board@.len() ==> (#[trigger] board@[r])@.len() == COLS,
                forall|r: int, c: int|
                    0 <= r < board@.len() && 0 <= c < COLS
                        ==> (#[trigger] board@[r]@[c]) is None,
            decreases ROWS - board@.len(),
        {
            let mut row: Vec<Option<Cell>> = Vec::new();
            while row.len() < COLS
                invariant
                    row@.len() <= COLS,
                    forall|c: int| 0 <= c < row@.len() ==> (#[trigger] row@[c]) is None,
                decreases COLS - row@.len(),
            {
                row.push(None);
            }
            board.push(row);
        }
        GameGrid { board, state: GameState::End }
    }

    /// Clears every slot, places the fixed starting layout of three cells,
    /// and sets the phase to `Stable`; the prior board and phase do not
    /// matter.
    pub fn init(&mut self)
        requires
            old(self).wf(),
        ensures
            final(self).wf(),
            final(self).rows() == init_board(),
            final(self).state == GameState::Stable,
    {
        let mut r: usize = 0;
        while r < ROWS
            invariant
                self.wf(),
                r <= ROWS,
                self.board@.len() == ROWS,
                forall|i: int, j: int|
                    0 <= i < r && 0 <= j < COLS ==> (#[trigger] self.rows()[i][j]) is None,
            decreases ROWS - r,
        {
            let mut c: usize = 0;
            while c < COLS
                invariant
                    self.wf(),
                    r < ROWS,
                    c <= COLS,
                    self.board@.len() == ROWS,
                    forall|i: int, j: int|
                        0 <= i < r && 0 <= j < COLS ==> (#[trigger] self.rows()[i][j]) is None,
                    forall|j: int| 0 <= j < c ==> (#[trigger] self.rows()[r as int][j]) is None,
                decreases COLS - c,
            {
                let ghost prev = self.rows();
                self.board[r][c] = None;
                proof {
                    assert(self.rows() =~~= prev.update(
                        r as int,
                        prev[r as int].update(c as int, None),
                    ));
                }
                c = c + 1;
            }
            r = r + 1;
        }
        let ghost b0 = self.rows();
        self.board[3][3] = Some(Cell { value: 2, mystery: 0, destroy: false });
        let ghost b1 = self.rows();
        proof {
            assert(b1 =~~= b0.update(
                3,
                b0[3].update(3, Some(Cell { value: 2, mystery: 0, destroy: false })),
            ));
        }
        self.board[7][3] = Some(Cell { value: 3, mystery: 2, destroy: false });
        let ghost b2 = self.rows();
        proof {
            assert(b2 =~~= b1.update(
                7,
                b1[7].update(3, Some(Cell { value: 3, mystery: 2, destroy: false })),
            ));
        }
        self.board[1][5] = Some(Cell { value: 6, mystery: 0, destroy: false });
        self.state = GameState::Stable;
        proof {
            assert(self.rows() =~~= b2.update(
                1,
                b2[1].update(5, Some(Cell { value: 6, mystery: 0, destroy: false })),
            ));
            assert(self.rows() =~~= init_board());
        }
    }

    /// How tall the stack in column `col` is: occupied slots counted from the
    /// bottom row upward, stopping at the first empty slot; gaps above the
    /// stack do not count.
    pub fn height(&self, col: usize) -> (h: u8)
        requires
            self.wf(),
            col < COLS,
        ensures
            h == col_height(self.rows(), col as int),
    {
        let mut retval: u8 = 0;
        let last_row = self.board.len() - 1;
        let mut r: usize = 0;
        while r < ROWS
            invariant
                self.wf(),
                col < COLS,
                last_row == ROWS - 1,
                r <= ROWS,
                retval == r,
                forall|x: int|
                    ROWS - 1 - r < x < ROWS ==> (#[trigger] self.rows()[x][col as int]) is Some,
            decreases ROWS - r,
        {
            if self.board[last_row - r][col].is_none() {
                proof {
                    lemma_col_height_from_count(self.rows(), col as int, (ROWS - 1) as nat, r as nat);
                }
                return retval;
            }
            retval = retval + 1;
            r = r + 1;
        }
        proof {
            lemma_col_height_from_count(self.rows(), col as int, (ROWS - 1) as nat, ROWS as nat);
        }
        retval
    }

    /// One gravity pass: scans the board in row-major order and drops every
    /// cell with an empty slot directly below it, applying moves in place, so
    /// a cell may descend through several already-scanned rows in one call.
    /// When nothing moved, the phase advances to `Analyzing`; otherwise it is
    /// left as it was.
    fn fall(&mut self)
        requires
            old(self).wf(),
        ensures
            final(self).wf(),
            final(self).rows() == fall_board(old(self).rows()),
            final(self).state == if fall_moved(old(self).rows()) {
                old(self).state
            } else {
                GameState::Analyzing
            },
    {
        let mut fell = false;
        let ghost orig = self.rows();
        let ghost orig_state = self.state;
        let mut r: usize = 0;
        while r < ROWS
            invariant
                self.wf(),
                r <= ROWS,
                self.state == orig_state,
                self.rows() == fall_rows(orig, r as int),
                fell == moved_rows(orig, r as int),
            decreases ROWS - r,
        {
            let mut c: usize = 0;
            while c < COLS
                invariant
                    self.wf(),
                    r < ROWS,
                    c <= COLS,
                    self.state == orig_state,
                    self.rows() == fall_row(fall_rows(orig, r as int), r as int, c as int),
                    fell == (moved_rows(orig, r as int) || moved_row(
                        fall_rows(orig, r as int),
                        r as int,
                        c as int,
                    )),
                decreases COLS - c,
            {
                let ghost cur = self.rows();
                match self.board[r][c] {
                    Some(cell) => {
                        if r + 1 < ROWS && self.board[r + 1][c].is_none() {
                            fell = true;
                            self.board[r + 1][c] = Some(cell);
                            self.board[r][c] = None;
                            proof {
                                assert(self.rows() =~~= fall_at(cur, r as int, c as int));
                            }
                        } else {
                            proof {
                                assert(fall_at(cur, r as int, c as int) == cur);
                            }
                        }
                    },
                    None => {
                        proof {
                            assert(fall_at(cur, r as int, c as int) == cur);
                        }
                    },
                }
                c = c + 1;
            }
            r = r + 1;
        }
        if !fell {
            self.state = GameState::Analyzing;
        }
    }

    /// One analysis pass: every occupied cell whose value equals the height
    /// of its column is marked for elimination. Marking changes no slot's
    /// occupancy, so every cell of a column is judged against the height the
    /// column had at entry. The phase then advances to `Exploding`.
    fn analyze(&mut self)
        requires
            old(self).wf(),
        ensures
            final(self).wf(),
            final(self).rows() == analyze_board(old(self).rows()),
            final(self).state == GameState::Exploding,
    {
        let ghost orig = self.rows();
        let mut r: usize = 0;
        while r < ROWS
            invariant
                self.wf(),
                r <= ROWS,
                same_occupancy(self.rows(), orig),
                forall|i: int, j: int|
                    0 <= i < r && 0 <= j < COLS
                        ==> (#[trigger] self.rows()[i][j]) == analyze_slot(orig, i, j),
                forall|i: int, j: int|
                    r <= i < ROWS && 0 <= j < COLS ==> (#[trigger] self.rows()[i][j]) == orig[i][j],
            decreases ROWS - r,
        {
            let mut c: usize = 0;
            while c < COLS
                invariant
                    self.wf(),
                    r < ROWS,
                    c <= COLS,
                    same_occupancy(self.rows(), orig),
                    forall|i: int, j: int|
                        0 <= i < r && 0 <= j < COLS
                            ==> (#[trigger] self.rows()[i][j]) == analyze_slot(orig, i, j),
                    forall|j: int|
                        0 <= j < c
                            ==> (#[trigger] self.rows()[r as int][j]) == analyze_slot(
                            orig,
                            r as int,
                            j,
                        ),
                    forall|j: int|
                        c <= j < COLS
                            ==> (#[trigger] self.rows()[r as int][j]) == orig[r as int][j],
                    forall|i: int, j: int|
                        r < i < ROWS && 0 <= j < COLS
                            ==> (#[trigger] self.rows()[i][j]) == orig[i][j],
                decreases COLS - c,
            {
                let h = self.height(c);
                proof {
                    lemma_col_height_from_occupancy(
                        self.rows(),
                        orig,
                        c as int,
                        (ROWS - 1) as nat,
                    );
                }
                match self.board[r][c] {
                    Some(cell) => {
                        if cell.value == h {
                            let ghost cur = self.rows();
                            self.board[r][c] = Some(
                                Cell { value: cell.value, mystery: cell.mystery, destroy: true },
                            );
                            proof {
                                assert(self.rows() =~~= cur.update(
                                    r as int,
                                    cur[r as int].update(
                                        c as int,
                                        Some(
                                            Cell {
                                                value: cell.value,
                                                mystery: cell.mystery,
                                                destroy: true,
                                            },
                                        ),
                                    ),
                                ));
                            }
                        }
                    },
                    None => {},
                }
                c = c + 1;
            }
            r = r + 1;
        }
        self.state = GameState::Exploding;
        proof {
            assert(self.rows() =~~= analyze_board(orig));
        }
    }

    /// One elimination pass. Removal of the cells marked by the analysis pass
    /// is an open extension point: this pass changes no slot and returns the
    /// phase to `Stable`.
    fn explode(&mut self)
        ensures
            final(self).board == old(self).board,
            final(self).state == GameState::Stable,
    {
        self.state = GameState::Stable;
    }

    /// Performs exactly one phase's worth of work, selected by the current
    /// phase, and may move the phase for the next call: gravity while
    /// `Falling` (to `Analyzing` once nothing moves), marking in `Analyzing`
    /// (to `Exploding`), elimination in `Exploding` (to `Stable`); `Stable`
    /// waits for the driver to force a phase and `End` is terminal.
    pub fn next(&mut self)
        requires
            old(self).wf(),
        ensures
            final(self).wf(),
            final(self).rows() == step_board(old(self).rows(), old(self).state),
            final(self).state == step_state(old(self).rows(), old(self).state),
    {
        match self.state {
            GameState::Falling => self.fall(),
            GameState::Analyzing => self.analyze(),
            GameState::Exploding => self.explode(),
            GameState::Stable => {},
            GameState::End => {},
        }
    }
}

} // verus!

use gridfall::board::{Cell, GameState};
use gridfall::engine::GameGrid;

fn cell(value: u8) -> Cell {
    Cell { value, mystery: 0, destroy: false }
}

fn occupied(g: &GameGrid) -> usize {
    let mut n = 0;
    for r in 0..8 {
        for c in 0..7 {
            if g.board[r][c].is_some() {
                n += 1;
            }
        }
    }
    n
}

#[test]
fn new_grid_is_empty_and_ended() {
    let g = GameGrid::new();
    assert_eq!(g.state, GameState::End);
    assert_eq!(occupied(&g), 0);
}

#[test]
fn init_places_fixed_layout() {
    let mut g = GameGrid::new();
    g.init();
    assert_eq!(g.state, GameState::Stable);
    assert_eq!(g.board[3][3], Some(Cell { value: 2, mystery: 0, destroy: false }));
    assert_eq!(g.board[7][3], Some(Cell { value: 3, mystery: 2, destroy: false }));
    assert_eq!(g.board[1][5], Some(Cell { value: 6, mystery: 0, destroy: false }));
    assert_eq!(occupied(&g), 3);
}

#[test]
fn init_ignores_prior_state() {
    let mut g = GameGrid::new();
    g.init();
    // Scribble over the board and phase, then initialize again.
    g.board[0][0] = Some(cell(5));
    g.board[6][6] = Some(cell(1));
    g.state = GameState::Falling;
    g.init();
    assert_eq!(g.state, GameState::Stable);
    assert_eq!(g.board[0][0], None);
    assert_eq!(g.board[6][6], None);
    assert_eq!(g.board[3][3], Some(Cell { value: 2, mystery: 0, destroy: false }));
    assert_eq!(g.board[7][3], Some(Cell { value: 3, mystery: 2, destroy: false }));
    assert_eq!(g.board[1][5], Some(Cell { value: 6, mystery: 0, destroy: false }));
    assert_eq!(occupied(&g), 3);
}

#[test]
fn height_counts_contiguous_stack_from_bottom() {
    let mut g = GameGrid::new();
    // Bottom three rows of column 2 occupied, empty above.
    g.board[7][2] = Some(cell(1));
    g.board[6][2] = Some(cell(4));
    g.board[5][2] = Some(cell(2));
    assert_eq!(g.height(2), 3);
}

#[test]
fn height_stops_at_first_gap() {
    let mut g = GameGrid::new();
    g.board[7][4] = Some(cell(1));
    g.board[5][4] = Some(cell(1));  // above a gap: not counted
    assert_eq!(g.height(4), 1);
}

#[test]
fn height_is_zero_when_bottom_is_empty() {
    let mut g = GameGrid::new();
    g.board[0][6] = Some(cell(7));
    assert_eq!(g.height(6), 0);
}

#[test]
fn height_of_full_column_is_eight() {
    let mut g = GameGrid::new();
    for r in 0..8 {
        g.board[r][1] = Some(cell(1));
    }
    assert_eq!(g.height(1), 8);
}

#[test]
fn falling_cell_cascades_within_one_pass() {
    let mut g = GameGrid::new();
    g.board[0][0] = Some(cell(9));
    g.state = GameState::Falling;
    g.next();
    // The scan re-examines the cell at each row it drops into, so a lone
    // cell reaches the bottom in a single pass.
    assert_eq!(g.board[7][0], Some(cell(9)));
    assert_eq!(occupied(&g), 1);
    assert_eq!(g.state, GameState::Falling);
    g.next();
    // Nothing left to move: the phase yields to Analyzing.
    assert_eq!(g.board[7][0], Some(cell(9)));
    assert_eq!(g.state, GameState::Analyzing);
}

#[test]
fn falling_stops_on_top_of_a_stack() {
    let mut g = GameGrid::new();
    g.board[7][3] = Some(cell(1));
    g.board[2][3] = Some(cell(5));
    g.state = GameState::Falling;
    g.next();
    assert_eq!(g.board[6][3], Some(cell(5)));
    assert_eq!(g.board[7][3], Some(cell(1)));
}

#[test]
fn falling_conserves_cell_count() {
    let mut g = GameGrid::new();
    g.init();
    g.state = GameState::Falling;
    let before = occupied(&g);
    while g.state == GameState::Falling {
        g.next();
        assert_eq!(occupied(&g), before);
    }
}

#[test]
fn falling_reaches_analyzing_within_board_rows_calls() {
    let mut g = GameGrid::new();
    // Worst case: rows 0..=6 of one column occupied, only the bottom empty.
    for r in 0..7 {
        g.board[r][0] = Some(cell(1));
    }
    g.state = GameState::Falling;
    let mut calls = 0;
    while g.state == GameState::Falling {
        g.next();
        calls += 1;
        assert!(calls <= 8);
    }
    assert_eq!(g.state, GameState::Analyzing);
    assert_eq!(calls, 8);
    assert_eq!(occupied(&g), 7);
    for r in 1..8 {
        assert!(g.board[r][0].is_some());
    }
}

#[test]
fn analyzing_marks_cells_matching_column_height() {
    let mut g = GameGrid::new();
    // Column 2: stack of height 3; the cells valued 3 are marked, the rest not.
    g.board[7][2] = Some(cell(3));
    g.board[6][2] = Some(cell(2));
    g.board[5][2] = Some(cell(3));
    g.state = GameState::Analyzing;
    g.next();
    assert_eq!(g.state, GameState::Exploding);
    assert_eq!(g.board[7][2], Some(Cell { value: 3, mystery: 0, destroy: true }));
    assert_eq!(g.board[6][2], Some(cell(2)));
    assert_eq!(g.board[5][2], Some(Cell { value: 3, mystery: 0, destroy: true }));
}

#[test]
fn analyzing_judges_every_cell_against_the_entry_height() {
    let mut g = GameGrid::new();
    // Both cells of a height-2 stack are valued 2: both are marked in the
    // same pass, each against the height read during the scan.
    g.board[7][5] = Some(cell(2));
    g.board[6][5] = Some(cell(2));
    g.state = GameState::Analyzing;
    g.next();
    assert_eq!(g.board[7][5], Some(Cell { value: 2, mystery: 0, destroy: true }));
    assert_eq!(g.board[6][5], Some(Cell { value: 2, mystery: 0, destroy: true }));
}

#[test]
fn analyzing_ignores_cells_above_a_gap() {
    let mut g = GameGrid::new();
    // Height of the column is 1; the floating cell valued 1 sits above a gap
    // and still matches that height, so it is marked too.
    g.board[7][1] = Some(cell(1));
    g.board[4][1] = Some(cell(1));
    g.board[3][1] = Some(cell(4));
    g.state = GameState::Analyzing;
    g.next();
    assert_eq!(g.board[7][1], Some(Cell { value: 1, mystery: 0, destroy: true }));
    assert_eq!(g.board[4][1], Some(Cell { value: 1, mystery: 0, destroy: true }));
    assert_eq!(g.board[3][1], Some(cell(4)));
}

#[test]
fn exploding_returns_to_stable_without_touching_the_board() {
    let mut g = GameGrid::new();
    g.board[7][0] = Some(Cell { value: 1, mystery: 0, destroy: true });
    g.board[6][0] = Some(cell(2));
    g.state = GameState::Exploding;
    let before = g.board.clone();
    g.next();
    assert_eq!(g.state, GameState::Stable);
    assert_eq!(g.board, before);
}

#[test]
fn stable_waits_for_the_driver() {
    let mut g = GameGrid::new();
    g.init();
    let before = g.board.clone();
    g.next();
    g.next();
    assert_eq!(g.state, GameState::Stable);
    assert_eq!(g.board, before);
}

#[test]
fn end_is_terminal() {
    let mut g = GameGrid::new();
    g.init();
    g.state = GameState::End;
    let before = g.board.clone();
    for _ in 0..10 {
        g.next();
        assert_eq!(g.state, GameState::End);
        assert_eq!(g.board, before);
    }
}

#[test]
fn full_scenario_from_init() {
    let mut g = GameGrid::new();
    g.init();
    g.state = GameState::Falling;
    let mut calls = 0;
    while g.state == GameState::Falling {
        g.next();
        calls += 1;
        assert!(calls <= 8);
    }
    assert_eq!(g.state, GameState::Analyzing);
    // The cell from (3,3) landed on the stack of column 3; the cell from
    // (1,5) fell to the bottom.
    assert_eq!(g.board[6][3], Some(Cell { value: 2, mystery: 0, destroy: false }));
    assert_eq!(g.board[7][3], Some(Cell { value: 3, mystery: 2, destroy: false }));
    assert_eq!(g.board[7][5], Some(Cell { value: 6, mystery: 0, destroy: false }));
    assert_eq!(occupied(&g), 3);
    g.next();
    assert_eq!(g.state, GameState::Exploding);
    // Column 3 has height 2: the cell valued 2 is marked, the special cell
    // valued 3 and the cell valued 6 in column 5 (height 1) are not.
    assert_eq!(g.board[6][3], Some(Cell { value: 2, mystery: 0, destroy: true }));
    assert_eq!(g.board[7][3], Some(Cell { value: 3, mystery: 2, destroy: false }));
    assert_eq!(g.board[7][5], Some(Cell { value: 6, mystery: 0, destroy: false }));
    let before = g.board.clone();
    g.next();
    assert_eq!(g.state, GameState::Stable);
    assert_eq!(g.board, before);
}

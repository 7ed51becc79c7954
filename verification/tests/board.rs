use tictactoe::cell::{Cell, Player};
use tictactoe::grid::{GameOver, Grid};
use tictactoe::index::Index;

fn board(glyphs: [char; 9]) -> Grid {
    let cells: Vec<Cell> = glyphs
        .iter()
        .map(|g| match g {
            'X' => Cell::X,
            'O' => Cell::O,
            _ => Cell::Empty,
        })
        .collect();
    Grid::from_cells(&cells).expect("nine cells build a board")
}

#[test]
fn from_cells_needs_exactly_nine() {
    assert!(Grid::from_cells(&vec![]).is_none());
    assert!(Grid::from_cells(&vec![Cell::X; 8]).is_none());
    assert!(Grid::from_cells(&vec![Cell::X; 10]).is_none());
    assert!(Grid::from_cells(&vec![Cell::Empty; 9]).is_some());
}

#[test]
fn get_and_place() {
    let g = board([' '; 9]);
    assert_eq!(g.get(Index::I11), Cell::Empty);
    let h = g.place(Index::I11, Cell::X);
    assert_eq!(h.get(Index::I11), Cell::X);
    assert_eq!(g.get(Index::I11), Cell::Empty);
    for flat in 0..9 {
        let idx = Index::from_usize(flat).unwrap();
        if idx != Index::I11 {
            assert_eq!(h.get(idx), Cell::Empty);
        }
    }
}

#[test]
fn cells_reports_row_major() {
    let g = board(['X', 'O', ' ', ' ', 'X', ' ', ' ', ' ', 'O']);
    let cells = g.cells();
    assert_eq!(cells[0], Cell::X);
    assert_eq!(cells[1], Cell::O);
    assert_eq!(cells[2], Cell::Empty);
    assert_eq!(cells[4], Cell::X);
    assert_eq!(cells[8], Cell::O);
}

#[test]
fn count_cells_counts_each_value() {
    let g = board(['X', 'O', 'X', ' ', 'O', ' ', 'X', ' ', ' ']);
    assert_eq!(g.count_cells(), (3, 2, 4));
    assert_eq!(board([' '; 9]).count_cells(), (0, 0, 9));
}

#[test]
fn outcome_reports_single_line_winner() {
    // top row of X marks, exactly one completed line
    let g = board(['X', 'X', 'X', 'O', 'O', ' ', ' ', ' ', ' ']);
    assert_eq!(g.game_over(), Some(GameOver::X));
    // left column of O marks
    let h = board(['O', 'X', 'X', 'O', 'X', ' ', 'O', ' ', ' ']);
    assert_eq!(h.game_over(), Some(GameOver::O));
    // main diagonal of X marks
    let d = board(['X', 'O', 'O', ' ', 'X', ' ', ' ', ' ', 'X']);
    assert_eq!(d.game_over(), Some(GameOver::X));
}

#[test]
fn outcome_scans_lines_in_declaration_order() {
    // both the top row (line 0) and the bottom row (line 2) are
    // complete; the scan reports the first in declaration order
    let g = board(['X', 'X', 'X', ' ', ' ', ' ', 'O', 'O', 'O']);
    assert_eq!(g.game_over(), Some(GameOver::X));
    let h = board(['O', 'O', 'O', ' ', ' ', ' ', 'X', 'X', 'X']);
    assert_eq!(h.game_over(), Some(GameOver::O));
}

#[test]
fn outcome_in_progress_and_draw() {
    let partial = board(['X', 'O', ' ', ' ', ' ', ' ', ' ', ' ', ' ']);
    assert_eq!(partial.game_over(), None);
    assert_eq!(board([' '; 9]).game_over(), None);
    // fully marked, no completed line
    let drawn = board(['X', 'O', 'X', 'X', 'X', 'O', 'O', 'X', 'O']);
    assert_eq!(drawn.game_over(), Some(GameOver::Draw));
}

#[test]
fn full_board_draw_scenario_is_valid() {
    // five X marks, four O marks, no completed line
    let g = board(['X', 'O', 'X', 'X', 'X', 'O', 'O', 'X', 'O']);
    assert_eq!(g.count_cells(), (5, 4, 0));
    assert!(g.is_valid());
    assert_eq!(g.game_over(), Some(GameOver::Draw));
}

#[test]
fn validity_checks_mark_counts() {
    assert!(board([' '; 9]).is_valid());
    assert!(board(['X', ' ', ' ', ' ', ' ', ' ', ' ', ' ', ' ']).is_valid());
    // O cannot lead X
    assert!(!board(['O', ' ', ' ', ' ', ' ', ' ', ' ', ' ', ' ']).is_valid());
    // X cannot lead by two
    assert!(!board(['X', 'X', ' ', ' ', ' ', ' ', ' ', ' ', ' ']).is_valid());
}

#[test]
fn validity_checks_winner_counts() {
    // X won, so X must lead by one
    assert!(board(['X', 'X', 'X', 'O', 'O', ' ', ' ', ' ', ' ']).is_valid());
    assert!(!board(['X', 'X', 'X', 'O', 'O', ' ', ' ', ' ', 'O']).is_valid());
    // O won, so the counts must be equal
    assert!(board(['O', 'O', 'O', 'X', 'X', ' ', 'X', ' ', ' ']).is_valid());
    assert!(!board(['O', 'O', 'O', 'X', 'X', ' ', ' ', ' ', ' ']).is_valid());
}

#[test]
fn turn_alternates_with_counts() {
    let empty = board([' '; 9]);
    assert!(empty.is_x_turn());
    assert_eq!(empty.current_turn(), Cell::X);
    let after_one = board(['X', ' ', ' ', ' ', ' ', ' ', ' ', ' ', ' ']);
    assert!(!after_one.is_x_turn());
    assert_eq!(after_one.current_turn(), Cell::O);
    let after_two = board(['X', 'O', ' ', ' ', ' ', ' ', ' ', ' ', ' ']);
    assert_eq!(after_two.current_turn(), Cell::X);
}

#[test]
fn cell_glyphs() {
    assert_eq!(Cell::Empty.as_char(), ' ');
    assert_eq!(Cell::O.as_char(), 'O');
    assert_eq!(Cell::X.as_char(), 'X');
}

#[test]
fn player_marks_convert_to_cells() {
    assert_eq!(Cell::from(Player::X), Cell::X);
    assert_eq!(Cell::from(Player::O), Cell::O);
}

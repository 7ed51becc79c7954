use tictactoe::cell::Cell;
use tictactoe::dataset::TicTacToeBatcher;
use tictactoe::grid::Grid;

fn board(glyphs: [char; 9]) -> Grid {
    let cells: Vec<Cell> = glyphs
        .iter()
        .map(|g| match g {
            'X' => Cell::X,
            'O' => Cell::O,
            _ => Cell::Empty,
        })
        .collect();
    Grid::from_cells(&cells).expect("nine cells build a board")
}

#[test]
fn batch_labels_in_progress_boards() {
    let items = vec![
        // in progress: X to move, best move is top-left
        board([' '; 9]),
        // terminal: X has won, carries no label
        board(['X', 'X', 'X', 'O', 'O', ' ', ' ', ' ', ' ']),
        // in progress: O to move, best reply is the center
        board(['X', ' ', ' ', ' ', ' ', ' ', ' ', ' ', ' ']),
        // terminal: drawn, carries no label
        board(['X', 'O', 'X', 'X', 'X', 'O', 'O', 'X', 'O']),
    ];
    let (inputs, targets) = TicTacToeBatcher {}.batch(&items);
    assert_eq!(inputs.len(), 2);
    assert_eq!(targets.len(), 2);
    // empty board from X's perspective, solver opens top-left
    assert_eq!(inputs[0], vec![0i8; 9]);
    assert_eq!(targets[0], vec![1, 0, 0, 0, 0, 0, 0, 0, 0]);
    // one X mark seen from O's perspective, solver takes the center
    assert_eq!(inputs[1], vec![-1, 0, 0, 0, 0, 0, 0, 0, 0]);
    assert_eq!(targets[1], vec![0, 0, 0, 0, 1, 0, 0, 0, 0]);
}

#[test]
fn batch_of_terminal_boards_is_empty() {
    let items = vec![
        board(['X', 'X', 'X', 'O', 'O', ' ', ' ', ' ', ' ']),
        board(['X', 'O', 'X', 'X', 'X', 'O', 'O', 'X', 'O']),
    ];
    let (inputs, targets) = TicTacToeBatcher {}.batch(&items);
    assert!(inputs.is_empty());
    assert!(targets.is_empty());
}

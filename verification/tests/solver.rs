use tictactoe::cell::Cell;
use tictactoe::grid::{GameOver, Grid};
use tictactoe::index::Index;

fn board(glyphs: [char; 9]) -> Grid {
    let cells: Vec<Cell> = glyphs
        .iter()
        .map(|g| match g {
            'X' => Cell::X,
            'O' => Cell::O,
            _ => Cell::Empty,
        })
        .collect();
    Grid::from_cells(&cells).expect("nine cells build a board")
}

fn first_empty(g: &Grid) -> Option<Index> {
    for flat in 0..9 {
        let idx = Index::from_usize(flat).unwrap();
        if g.get(idx) == Cell::Empty {
            return Some(idx);
        }
    }
    None
}

fn last_empty(g: &Grid) -> Option<Index> {
    for flat in (0..9).rev() {
        let idx = Index::from_usize(flat).unwrap();
        if g.get(idx) == Cell::Empty {
            return Some(idx);
        }
    }
    None
}

#[test]
fn empty_board_game_value_is_draw() {
    // the game value of the empty board under optimal play by both
    // sides is a draw
    assert_eq!(board([' '; 9]).minimax(true), 0);
}

#[test]
fn best_move_is_deterministic() {
    let g = board(['X', 'O', ' ', ' ', 'X', ' ', ' ', ' ', ' ']);
    let first = g.find_best_move(Cell::X);
    let second = g.find_best_move(Cell::X);
    assert!(first.is_some());
    assert_eq!(first, second);
    let third = g.find_best_move(Cell::O);
    assert_eq!(third, g.find_best_move(Cell::O));
}

#[test]
fn empty_board_best_move_is_top_left() {
    // every opening move has game value zero; the tie-break keeps the
    // first coordinate in declaration order, not a central one
    let g = board([' '; 9]);
    assert_eq!(g.find_best_move(Cell::X), Some(Index::I00));
}

#[test]
fn blocking_move_is_forced() {
    // X threatens the top row; top-right is the only move that
    // prevents an immediate loss next ply
    let g = board(['X', 'X', ' ', ' ', ' ', ' ', ' ', ' ', ' ']);
    assert_eq!(g.find_best_move(Cell::O), Some(Index::I02));
}

#[test]
fn full_board_best_move_fails_explicitly() {
    let g = board(['X', 'O', 'X', 'X', 'X', 'O', 'O', 'X', 'O']);
    assert_eq!(g.find_best_move(Cell::X), None);
    assert_eq!(g.find_best_move(Cell::O), None);
}

#[test]
fn unmarked_mover_fails_explicitly() {
    let g = board([' '; 9]);
    assert_eq!(g.find_best_move(Cell::Empty), None);
}

#[test]
fn optimal_play_from_empty_board_draws() {
    // both sides follow the solver from the empty board: the game
    // must end in a draw
    let mut g = board([' '; 9]);
    while g.game_over().is_none() {
        let mover = g.current_turn();
        let mv = g.find_best_move(mover).expect("in-progress board has a move");
        g = g.place(mv, mover);
    }
    assert_eq!(g.game_over(), Some(GameOver::Draw));
}

#[test]
fn solver_never_loses_as_x() {
    // X follows the solver, O answers with a fixed non-optimal
    // strategy: O must never win
    for o_strategy in 0..2 {
        let mut g = board([' '; 9]);
        loop {
            match g.game_over() {
                Some(result) => {
                    assert_ne!(result, GameOver::O);
                    break;
                }
                None => {
                    let mover = g.current_turn();
                    let mv = if mover == Cell::X {
                        g.find_best_move(Cell::X).unwrap()
                    } else if o_strategy == 0 {
                        first_empty(&g).unwrap()
                    } else {
                        last_empty(&g).unwrap()
                    };
                    g = g.place(mv, mover);
                }
            }
        }
    }
}

#[test]
fn solver_never_loses_as_o() {
    // O follows the solver, X answers with a fixed non-optimal
    // strategy: X must never win
    for x_strategy in 0..2 {
        let mut g = board([' '; 9]);
        loop {
            match g.game_over() {
                Some(result) => {
                    assert_ne!(result, GameOver::X);
                    break;
                }
                None => {
                    let mover = g.current_turn();
                    let mv = if mover == Cell::O {
                        g.find_best_move(Cell::O).unwrap()
                    } else if x_strategy == 0 {
                        first_empty(&g).unwrap()
                    } else {
                        last_empty(&g).unwrap()
                    };
                    g = g.place(mv, mover);
                }
            }
        }
    }
}

#[test]
fn solver_takes_an_immediate_win() {
    // X can complete the top row at once; the winning move is optimal
    let g = board(['X', 'X', ' ', 'O', 'O', ' ', ' ', ' ', ' ']);
    let mv = g.find_best_move(Cell::X).unwrap();
    let after = g.place(mv, Cell::X);
    assert_eq!(after.game_over(), Some(GameOver::X));
}

#[test]
fn minimax_scores_terminal_boards() {
    let x_won = board(['X', 'X', 'X', 'O', 'O', ' ', ' ', ' ', ' ']);
    assert_eq!(x_won.minimax(false), 1);
    let o_won = board(['O', 'O', 'O', 'X', 'X', ' ', 'X', ' ', ' ']);
    assert_eq!(o_won.minimax(true), -1);
    let drawn = board(['X', 'O', 'X', 'X', 'X', 'O', 'O', 'X', 'O']);
    assert_eq!(drawn.minimax(true), 0);
}

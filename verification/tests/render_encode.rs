use tictactoe::cell::Cell;
use tictactoe::encode::encode_grid;
use tictactoe::grid::Grid;
use tictactoe::index::Index;

fn board(glyphs: [char; 9]) -> Grid {
    let cells: Vec<Cell> = glyphs
        .iter()
        .map(|g| match g {
            'X' => Cell::X,
            'O' => Cell::O,
            _ => Cell::Empty,
        })
        .collect();
    Grid::from_cells(&cells).expect("nine cells build a board")
}

#[test]
fn render_empty_board() {
    let expected = "+-+-+-+\n| | | |\n+-+-+-+\n| | | |\n+-+-+-+\n| | | |\n+-+-+-+\n\n";
    assert_eq!(board([' '; 9]).render(), expected);
}

#[test]
fn render_marked_board() {
    let g = board(['X', 'O', ' ', ' ', 'X', ' ', 'O', ' ', 'X']);
    let expected = "+-+-+-+\n|X|O| |\n+-+-+-+\n| |X| |\n+-+-+-+\n|O| |X|\n+-+-+-+\n\n";
    assert_eq!(g.render(), expected);
}

#[test]
fn encode_grid_planes() {
    let g = board(['X', 'O', ' ', ' ', 'X', ' ', 'O', ' ', 'X']);
    let planes = encode_grid(&g);
    assert_eq!(planes.len(), 18);
    // X plane, row-major
    assert_eq!(&planes[0..9], &[1, 0, 0, 0, 1, 0, 0, 0, 1]);
    // O plane, row-major
    assert_eq!(&planes[9..18], &[0, 1, 0, 0, 0, 0, 1, 0, 0]);
}

#[test]
fn encode_grid_empty_board_is_zero() {
    assert_eq!(encode_grid(&board([' '; 9])), vec![0u8; 18]);
}

#[test]
fn perspective_view_signs_cells() {
    let g = board(['X', 'O', ' ', ' ', 'X', ' ', 'O', ' ', 'X']);
    assert_eq!(
        g.perspective_view(Cell::X),
        vec![1, -1, 0, 0, 1, 0, -1, 0, 1]
    );
    assert_eq!(
        g.perspective_view(Cell::O),
        vec![-1, 1, 0, 0, -1, 0, 1, 0, -1]
    );
}

#[test]
fn one_hot_encode_marks_declaration_position() {
    assert_eq!(
        Index::I00.one_hot_encode(),
        vec![1, 0, 0, 0, 0, 0, 0, 0, 0]
    );
    assert_eq!(
        Index::I12.one_hot_encode(),
        vec![0, 0, 0, 0, 0, 1, 0, 0, 0]
    );
    assert_eq!(
        Index::I22.one_hot_encode(),
        vec![0, 0, 0, 0, 0, 0, 0, 0, 1]
    );
    for flat in 0..9 {
        let idx = Index::from_usize(flat).unwrap();
        let one_hot = idx.one_hot_encode();
        for (pos, v) in one_hot.iter().enumerate() {
            assert_eq!(*v, if pos == flat { 1 } else { 0 });
        }
    }
}

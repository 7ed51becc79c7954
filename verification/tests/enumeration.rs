use tictactoe::cell::Cell;
use tictactoe::grid::Grid;

#[test]
fn enumeration_count_is_golden() {
    // the number of structurally valid boards among the 19683 raw
    // assignments, fixed by the validity predicate
    assert_eq!(Grid::all().len(), 5556);
}

#[test]
fn enumeration_is_restartable() {
    // re-enumerating from scratch yields the identical sequence
    let first = Grid::all();
    let second = Grid::all();
    assert_eq!(first.len(), second.len());
    for (a, b) in first.iter().zip(second.iter()) {
        assert_eq!(a, b);
    }
}

#[test]
fn enumeration_yields_only_valid_boards() {
    for g in Grid::all() {
        assert!(g.is_valid());
    }
}

#[test]
fn enumeration_starts_at_the_empty_board() {
    let all = Grid::all();
    assert_eq!(all[0].cells(), &[Cell::Empty; 9]);
    // the next raw assignments in product order are skipped or kept by
    // validity alone: a single O is invalid, a single X is valid
    assert_eq!(
        all[1].cells(),
        &[
            Cell::Empty,
            Cell::Empty,
            Cell::Empty,
            Cell::Empty,
            Cell::Empty,
            Cell::Empty,
            Cell::Empty,
            Cell::Empty,
            Cell::X,
        ]
    );
}

#[test]
fn enumeration_counts_match_turn_split() {
    // every valid board has X leading by zero or one marks
    for g in Grid::all() {
        let (x_count, o_count, _) = g.count_cells();
        assert!(x_count == o_count || x_count == o_count + 1);
    }
}

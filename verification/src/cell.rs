use vstd::prelude::*;

verus! {

/// Occupancy of a single board cell: unmarked, or marked by one of the
/// two players.  `X` is the player who moves first.
#[derive(Debug, Clone, Copy, PartialEq, Eq, Structural)]
pub enum Cell {
    Empty,
    O,
    X,
}

/// One of the two players.  `X` always moves first.
#[derive(Debug, Clone, Copy, PartialEq, Eq, Structural)]
pub enum Player {
    X,
    O,
}

/// The one-character glyph that stands for a cell in a rendered board.
pub open spec fn cell_char(c: Cell) -> char {
    match c {
        Cell::Empty => ' ',
        Cell::O => 'O',
        Cell::X => 'X',
    }
}

/// The cell value that carries a player's mark.
pub open spec fn cell_of_player(p: Player) -> Cell {
    match p {
        Player::X => Cell::X,
        Player::O => Cell::O,
    }
}

impl Cell {
    /// The one-character glyph used when rendering a board.
    pub fn as_char(&self) -> (r: char)
        ensures
            r == cell_char(*self),
    {
        match self {
            Cell::Empty => ' ',
            Cell::O => 'O',
            Cell::X => 'X',
        }
    }
}

impl From<Player> for Cell {
    fn from(value: Player) -> (r: Cell) {
        match value {
            Player::O => Cell::O,
            Player::X => Cell::X,
        }
    }
}

impl vstd::std_specs::convert::FromSpecImpl<Player> for Cell {
    open spec fn obeys_from_spec() -> bool {
        true
    }

    open spec fn from_spec(t: Player) -> Cell {
        cell_of_player(t)
    }
}

} // verus!

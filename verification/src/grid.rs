use vstd::prelude::*;

use crate::cell::Cell;
use crate::index::{flat_of, line_of, line_at, Index};

verus! {

/// A full 9-cell board: one `Cell` per coordinate, stored flat in
/// row-major order.  A board is a plain value; placing a mark yields a
/// new board.
#[derive(Debug, Clone, Copy, PartialEq, Eq)]
pub struct Grid {
    pub cells: [Cell; 9],
}

/// How a finished game ended: a win for one of the players, or a draw.
#[derive(Debug, Clone, Copy, PartialEq, Eq, Structural)]
pub enum GameOver {
    X,
    O,
    Draw,
}

impl View for Grid {
    type V = Seq<Cell>;

    open spec fn view(&self) -> Seq<Cell> {
        self.cells@
    }
}

/// How many cells of a sequence hold the given value.
pub open spec fn count_cell(s: Seq<Cell>, c: Cell) -> nat
    decreases s.len(),
{
    if s.len() == 0 {
        0
    } else {
        count_cell(s.drop_last(), c) + if s.last() == c {
            1nat
        } else {
            0nat
        }
    }
}

/// Replacing one cell changes each count by what left and what came.
pub proof fn lemma_count_update(s: Seq<Cell>, i: int, v: Cell, c: Cell)
    requires
        0 <= i < s.len(),
    ensures
        count_cell(s.update(i, v), c) == count_cell(s, c) + (if v == c {
            1int
        } else {
            0int
        }) - (if s[i] == c {
            1int
        } else {
            0int
        }),
    decreases s.len(),
{
    if i == s.len() - 1 {
        assert(s.update(i, v).drop_last() =~= s.drop_last());
    } else {
        assert(s.update(i, v).drop_last() =~= s.drop_last().update(i, v));
        lemma_count_update(s.drop_last(), i, v, c);
    }
}

/// A count is positive exactly when some cell holds the value.
pub proof fn lemma_count_pos(s: Seq<Cell>, c: Cell)
    ensures
        count_cell(s, c) > 0 <==> exists|i: int| 0 <= i < s.len() && s[i] == c,
    decreases s.len(),
{
    if s.len() > 0 {
        lemma_count_pos(s.drop_last(), c);
        if count_cell(s, c) > 0 {
            if s.last() == c {
                assert(s[s.len() - 1] == c);
            } else {
                let i = choose|i: int| 0 <= i < s.drop_last().len() && s.drop_last()[i] == c;
                assert(s[i] == c);
            }
        }
        if exists|i: int| 0 <= i < s.len() && s[i] == c {
            let i = choose|i: int| 0 <= i < s.len() && s[i] == c;
            if i < s.len() - 1 {
                assert(s.drop_last()[i] == c);
            }
        }
    }
}

/// The winner of the k-th line: the player whose marks fill all three
/// of its cells, or `Empty` when the line is not uniformly marked.
pub open spec fn line_winner(s: Seq<Cell>, k: int) -> Cell {
    let (a, b, c) = line_of(k);
    let first = s[flat_of(a)];
    if first != Cell::Empty && s[flat_of(b)] == first && s[flat_of(c)] == first {
        first
    } else {
        Cell::Empty
    }
}

/// The first winning line at or after position k in the fixed scan
/// order, reported as its owning player; `Empty` when no line from k
/// on is complete.
pub open spec fn winner_from(s: Seq<Cell>, k: int) -> Cell
    decreases 8 - k,
{
    if k >= 8 {
        Cell::Empty
    } else if line_winner(s, k) != Cell::Empty {
        line_winner(s, k)
    } else {
        winner_from(s, k + 1)
    }
}

/// The winner of the board: the owner of the first complete line in
/// the fixed scan order, or `Empty` when no line is complete.
pub open spec fn winner_of(s: Seq<Cell>) -> Cell {
    winner_from(s, 0)
}

/// Whether every cell of the board is marked.
pub open spec fn is_full(s: Seq<Cell>) -> bool {
    forall|i: int| 0 <= i < s.len() ==> s[i] != Cell::Empty
}

/// The outcome of a board: the winner when a line is complete, a draw
/// when the board is full without a winner, in progress otherwise.
pub open spec fn outcome_of(s: Seq<Cell>) -> Option<GameOver> {
    if winner_of(s) == Cell::X {
        Some(GameOver::X)
    } else if winner_of(s) == Cell::O {
        Some(GameOver::O)
    } else if is_full(s) {
        Some(GameOver::Draw)
    } else {
        None
    }
}

/// The structural validity predicate: X leads O by zero or one marks,
/// a board won by X has one more X than O, and a board won by O has
/// equal counts.  This is a necessary condition for reachability by
/// legal alternating play, not a sufficient one.
pub open spec fn valid_board(s: Seq<Cell>) -> bool {
    let x = count_cell(s, Cell::X);
    let o = count_cell(s, Cell::O);
    &&& (x == o || x == o + 1)
    &&& (winner_of(s) == Cell::X ==> x == o + 1)
    &&& (winner_of(s) == Cell::O ==> x == o)
}

/// Whether X is the player to move: the counts are equal, because X
/// moves first and the players alternate.
pub open spec fn x_to_move(s: Seq<Cell>) -> bool {
    count_cell(s, Cell::X) == count_cell(s, Cell::O)
}

impl Grid {
    /// The number of cells on the board.
    pub const AREA: usize = 9;

    /// The number of rows, and of columns.
    pub const SIZE: usize = 3;

    /// The board with every cell unmarked.
    pub fn empty() -> (r: Grid)
        ensures
            r@ =~= Seq::new(9, |i: int| Cell::Empty),
    {
        Grid {
            cells: [
                Cell::Empty,
                Cell::Empty,
                Cell::Empty,
                Cell::Empty,
                Cell::Empty,
                Cell::Empty,
                Cell::Empty,
                Cell::Empty,
                Cell::Empty,
            ],
        }
    }

    /// A board built from exactly nine cells, in flat row-major order;
    /// `None` when fewer or more than nine are supplied.
    pub fn from_cells(cells: &Vec<Cell>) -> (r: Option<Grid>)
        ensures
            cells@.len() == 9 ==> (r matches Some(g) && g@ == cells@),
            cells@.len() != 9 ==> r is None,
    {
        if cells.len() != 9 {
            return None;
        }
        let mut g = Grid::empty();
        let mut i: usize = 0;
        while i < 9
            invariant
                i <= 9,
                cells@.len() == 9,
                forall|j: int| 0 <= j < i ==> g@[j] == cells@[j],
            decreases 9 - i,
        {
            g.cells[i] = cells[i];
            i += 1;
        }
        assert(g@ =~= cells@);
        Some(g)
    }

    /// The nine cells, flat in row-major order.
    pub fn cells(&self) -> (r: &[Cell; 9])
        ensures
            r@ == self@,
    {
        &self.cells
    }

    /// The cell at a flat position.
    pub(crate) fn cell_at(&self, i: usize) -> (r: Cell)
        requires
            i < 9,
        ensures
            r == self@[i as int],
    {
        self.cells[i]
    }

    /// The cell at a coordinate.
    pub fn get(&self, index: Index) -> (r: Cell)
        ensures
            r == self@[flat_of(index)],
    {
        proof {
            crate::index::lemma_flat_geometry(index);
        }
        self.cells[index.flat()]
    }

    /// A copy of this board with one cell replaced.
    pub fn place(&self, index: Index, cell: Cell) -> (r: Grid)
        ensures
            r@ == self@.update(flat_of(index), cell),
    {
        proof {
            crate::index::lemma_flat_geometry(index);
        }
        let mut g = *self;
        let f = index.flat();
        g.cells[f] = cell;
        g
    }

    /// A copy of this board with the cell at a flat position replaced.
    pub(crate) fn place_at(&self, i: usize, cell: Cell) -> (r: Grid)
        requires
            i < 9,
        ensures
            r@ == self@.update(i as int, cell),
    {
        let mut g = *self;
        g.cells[i] = cell;
        g
    }

    /// How many cells X, O, and nobody hold, in that order.
    pub fn count_cells(&self) -> (r: (usize, usize, usize))
        ensures
            r.0 == count_cell(self@, Cell::X),
            r.1 == count_cell(self@, Cell::O),
            r.2 == count_cell(self@, Cell::Empty),
            r.0 <= 9 && r.1 <= 9 && r.2 <= 9,
    {
        let mut x_count: usize = 0;
        let mut o_count: usize = 0;
        let mut empty_count: usize = 0;
        let mut i: usize = 0;
        while i < 9
            invariant
                i <= 9,
                self@.len() == 9,
                x_count == count_cell(self@.subrange(0, i as int), Cell::X),
                o_count == count_cell(self@.subrange(0, i as int), Cell::O),
                empty_count == count_cell(self@.subrange(0, i as int), Cell::Empty),
                x_count <= i && o_count <= i && empty_count <= i,
            decreases 9 - i,
        {
            proof {
                assert(self@.subrange(0, i + 1).drop_last() =~= self@.subrange(0, i as int));
            }
            match self.cell_at(i) {
                Cell::Empty => empty_count += 1,
                Cell::O => o_count += 1,
                Cell::X => x_count += 1,
            }
            i += 1;
        }
        proof {
            assert(self@.subrange(0, 9) =~= self@);
        }
        (x_count, o_count, empty_count)
    }

    /// The outcome query: the owner of the first complete line in the
    /// fixed catalog order, a draw on a full board with no complete
    /// line, or `None` while the game is still in progress.
    pub fn game_over(&self) -> (r: Option<GameOver>)
        ensures
            r == outcome_of(self@),
    {
        let mut k: usize = 0;
        while k < 8
            invariant
                k <= 8,
                winner_of(self@) == winner_from(self@, k as int),
            decreases 8 - k,
        {
            let (a, b, c) = line_at(k);
            let ca = self.get(a);
            if ca != Cell::Empty && self.get(b) == ca && self.get(c) == ca {
                if ca == Cell::X {
                    return Some(GameOver::X);
                } else {
                    return Some(GameOver::O);
                }
            }
            k += 1;
        }
        let mut i: usize = 0;
        while i < 9
            invariant
                i <= 9,
                self@.len() == 9,
                winner_of(self@) == Cell::Empty,
                forall|j: int| 0 <= j < i ==> self@[j] != Cell::Empty,
            decreases 9 - i,
        {
            if self.cell_at(i) == Cell::Empty {
                return None;
            }
            i += 1;
        }
        Some(GameOver::Draw)
    }

    /// The validity query of the structural reachability predicate.
    pub fn is_valid(&self) -> (r: bool)
        ensures
            r == valid_board(self@),
    {
        let (x_count, o_count, _empty_count) = self.count_cells();

        if x_count != o_count && x_count != o_count + 1 {
            return false;
        }

        match self.game_over() {
            Some(GameOver::X) => x_count == o_count + 1,
            Some(GameOver::O) => x_count == o_count,
            _ => true,
        }
    }

    /// Whether X is the player to move.  Meaningful only on a valid
    /// board; callers gate on `is_valid` first.
    pub fn is_x_turn(&self) -> (r: bool)
        ensures
            r == x_to_move(self@),
    {
        let (x_count, o_count, _empty_count) = self.count_cells();
        x_count == o_count
    }

    /// The mark of the player to move: X when the counts are equal, O
    /// when X leads by one.  Meaningful only on a valid board.
    pub fn current_turn(&self) -> (r: Cell)
        ensures
            r == if x_to_move(self@) {
                Cell::X
            } else {
                Cell::O
            },
    {
        if self.is_x_turn() {
            Cell::X
        } else {
            Cell::O
        }
    }
}

/// The line scan skips incomplete lines: when every line before k is
/// incomplete and line k is complete, the scan from j reports line k's
/// owner.
proof fn lemma_winner_from_found(s: Seq<Cell>, j: int, k: int)
    requires
        0 <= j <= k < 8,
        line_winner(s, k) != Cell::Empty,
        forall|m: int| j <= m < k ==> line_winner(s, m) == Cell::Empty,
    ensures
        winner_from(s, j) == line_winner(s, k),
    decreases k - j,
{
    if j < k {
        lemma_winner_from_found(s, j + 1, k);
    }
}

/// With no complete line at or after j, the scan from j finds nobody.
proof fn lemma_winner_from_none(s: Seq<Cell>, j: int)
    requires
        0 <= j <= 8,
        forall|m: int| j <= m < 8 ==> line_winner(s, m) == Cell::Empty,
    ensures
        winner_from(s, j) == Cell::Empty,
    decreases 8 - j,
{
    if j < 8 {
        lemma_winner_from_none(s, j + 1);
    }
}

/// Outcome determinism, winning case: a board whose only complete
/// line is line k is reported won by that line's owner.
pub proof fn lemma_single_line_outcome(s: Seq<Cell>, k: int)
    requires
        0 <= k < 8,
        line_winner(s, k) != Cell::Empty,
        forall|j: int| 0 <= j < 8 && j != k ==> line_winner(s, j) == Cell::Empty,
    ensures
        outcome_of(s) == (if line_winner(s, k) == Cell::X {
            Some(GameOver::X)
        } else {
            Some(GameOver::O)
        }),
{
    lemma_winner_from_found(s, 0, k);
}

/// Outcome determinism, undecided cases: a board with no complete
/// line is a draw exactly when it is fully marked, and otherwise
/// still in progress.
pub proof fn lemma_no_line_outcome(s: Seq<Cell>)
    requires
        forall|j: int| 0 <= j < 8 ==> line_winner(s, j) == Cell::Empty,
    ensures
        winner_of(s) == Cell::Empty,
        outcome_of(s) == (if is_full(s) {
            Some(GameOver::Draw)
        } else {
            None::<GameOver>
        }),
{
    lemma_winner_from_none(s, 0);
}

} // verus!

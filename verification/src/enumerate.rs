use vstd::prelude::*;

use crate::cell::Cell;
use crate::grid::{valid_board, Grid};

verus! {

/// Powers of three, the radix of a raw board assignment.
pub open spec fn pow3(n: nat) -> int
    decreases n,
{
    if n == 0 {
        1
    } else {
        3 * pow3((n - 1) as nat)
    }
}

/// Every power of three is positive.
pub proof fn lemma_pow3_pos(n: nat)
    ensures
        pow3(n) >= 1,
    decreases n,
{
    if n > 0 {
        lemma_pow3_pos((n - 1) as nat);
    }
}

/// The cell named by one base-3 digit, in the declaration order of
/// `Cell`: 0 unmarked, 1 for O, 2 for X.
pub open spec fn cell_of_digit(d: int) -> Cell {
    if d == 0 {
        Cell::Empty
    } else if d == 1 {
        Cell::O
    } else {
        Cell::X
    }
}

/// The n-th raw assignment of the full Cartesian product of cell
/// values over the nine coordinates: the nine base-3 digits of n,
/// most significant digit first.
pub open spec fn assignment_of(n: int) -> Seq<Cell> {
    Seq::new(9, |i: int| cell_of_digit((n / pow3((8 - i) as nat)) % 3))
}

/// All structurally valid raw assignments with code below n, in
/// ascending code order.
pub open spec fn valid_boards_below(n: int) -> Seq<Seq<Cell>>
    decreases n,
{
    if n <= 0 {
        Seq::empty()
    } else if valid_board(assignment_of(n - 1)) {
        valid_boards_below(n - 1).push(assignment_of(n - 1))
    } else {
        valid_boards_below(n - 1)
    }
}

impl Grid {
    /// Every structurally valid board, in the fixed enumeration
    /// order: the full Cartesian product of cell values over the nine
    /// coordinates — 19683 raw assignments, most significant
    /// coordinate first — filtered by the validity predicate.
    /// Re-enumerating yields the identical sequence every time.
    pub fn all() -> (r: Vec<Grid>)
        ensures
            r@.map_values(|g: Grid| g@) == valid_boards_below(19683),
            forall|k: int| 0 <= k < r@.len() ==> valid_board(r@[k]@),
    {
        let mut out: Vec<Grid> = Vec::new();
        let mut n: usize = 0;
        while n < 19683
            invariant
                n <= 19683,
                out@.map_values(|g: Grid| g@) == valid_boards_below(n as int),
                forall|k: int| 0 <= k < out@.len() ==> valid_board(out@[k]@),
            decreases 19683 - n,
        {
            let g = Self::assignment_grid(n);
            if g.is_valid() {
                out.push(g);
                proof {
                    assert(out@.map_values(|g: Grid| g@) =~= valid_boards_below(n + 1));
                }
            } else {
                proof {
                    assert(out@.map_values(|g: Grid| g@) =~= valid_boards_below(n + 1));
                }
            }
            n += 1;
        }
        out
    }

    /// The board of one raw assignment code.
    fn assignment_grid(n: usize) -> (r: Grid)
        requires
            n < 19683,
        ensures
            r@ == assignment_of(n as int),
    {
        let mut cv: Vec<Cell> = Vec::new();
        let mut p: usize = 6561;
        let mut i: usize = 0;
        proof {
            assert(pow3(8) == 6561) by {
                reveal_with_fuel(pow3, 9);
            }
        }
        while i < 9
            invariant
                i <= 9,
                n < 19683,
                i < 9 ==> p == pow3((8 - i) as nat),
                cv@.len() == i,
                forall|j: int| 0 <= j < i ==> cv@[j] == assignment_of(n as int)[j],
            decreases 9 - i,
        {
            proof {
                lemma_pow3_pos((8 - i) as nat);
            }
            let d = (n / p) % 3;
            let c = if d == 0 {
                Cell::Empty
            } else if d == 1 {
                Cell::O
            } else {
                Cell::X
            };
            cv.push(c);
            if i < 8 {
                proof {
                    assert(pow3((8 - i) as nat) == 3 * pow3((7 - i) as nat));
                    lemma_pow3_pos((7 - i) as nat);
                }
                p = p / 3;
            }
            i += 1;
        }
        match Grid::from_cells(&cv) {
            Some(g) => {
                proof {
                    assert(g@ =~= assignment_of(n as int));
                }
                g
            },
            None => vstd::pervasive::unreached(),
        }
    }
}

} // verus!

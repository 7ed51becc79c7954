use vstd::prelude::*;

use crate::cell::Cell;
use crate::grid::Grid;
use crate::index::{flat_of, Index};

verus! {

/// One entry of the two-plane encoding: 1 on the X plane for an
/// X-marked cell, 1 on the O plane for an O-marked cell, 0 elsewhere.
pub open spec fn plane_bit(c: Cell, p: int) -> u8 {
    if (p == 0 && c == Cell::X) || (p == 1 && c == Cell::O) {
        1u8
    } else {
        0u8
    }
}

/// A board as two same-shaped 0/1 planes over the grid, flattened:
/// the 9 row-major entries of the X plane, then the 9 of the O plane.
pub fn encode_grid(grid: &Grid) -> (r: Vec<u8>)
    ensures
        r@.len() == 18,
        forall|t: int| 0 <= t < 18 ==> r@[t] == plane_bit(grid@[t % 9], t / 9),
{
    let mut r: Vec<u8> = Vec::new();
    let mut t: usize = 0;
    while t < 18
        invariant
            t <= 18,
            r@.len() == t,
            forall|u: int| 0 <= u < t ==> r@[u] == plane_bit(grid@[u % 9], u / 9),
        decreases 18 - t,
    {
        let p = t / 9;
        let ci = t % 9;
        let c = grid.cell_at(ci);
        let bit: u8 = if (p == 0 && c == Cell::X) || (p == 1 && c == Cell::O) {
            1
        } else {
            0
        };
        r.push(bit);
        t += 1;
    }
    r
}

/// One entry of the single signed plane: +1 for the perspective
/// player's cells, -1 for the opponent's, 0 for unmarked cells.
pub open spec fn perspective_value(c: Cell, perspective: Cell) -> i8 {
    let opponent = if perspective == Cell::X {
        Cell::O
    } else {
        Cell::X
    };
    if c == perspective {
        1i8
    } else if c == opponent {
        -1i8
    } else {
        0i8
    }
}

impl Grid {
    /// A board as a single signed plane, flattened row-major: +1 for
    /// the perspective player's cells, -1 for the opponent's, 0 for
    /// unmarked cells.
    pub fn perspective_view(&self, perspective: Cell) -> (r: Vec<i8>)
        ensures
            r@.len() == 9,
            forall|t: int| 0 <= t < 9 ==> r@[t] == perspective_value(self@[t], perspective),
    {
        let opponent = if perspective == Cell::X {
            Cell::O
        } else {
            Cell::X
        };
        let mut r: Vec<i8> = Vec::new();
        let mut t: usize = 0;
        while t < 9
            invariant
                t <= 9,
                r@.len() == t,
                opponent == if perspective == Cell::X {
                    Cell::O
                } else {
                    Cell::X
                },
                forall|u: int| 0 <= u < t ==> r@[u] == perspective_value(self@[u], perspective),
            decreases 9 - t,
        {
            let c = self.cell_at(t);
            let v: i8 = if c == perspective {
                1
            } else if c == opponent {
                -1
            } else {
                0
            };
            r.push(v);
            t += 1;
        }
        r
    }
}

impl Index {
    /// A coordinate as a one-hot vector over the nine positions: 1 at
    /// the coordinate's flat declaration position, 0 elsewhere.
    pub fn one_hot_encode(self) -> (r: Vec<u8>)
        ensures
            r@.len() == 9,
            forall|t: int| 0 <= t < 9 ==> r@[t] == if t == flat_of(self) {
                1u8
            } else {
                0u8
            },
    {
        let f = self.flat();
        let mut r: Vec<u8> = Vec::new();
        let mut t: usize = 0;
        while t < 9
            invariant
                t <= 9,
                f == flat_of(self),
                r@.len() == t,
                forall|u: int| 0 <= u < t ==> r@[u] == if u == flat_of(self) {
                    1u8
                } else {
                    0u8
                },
            decreases 9 - t,
        {
            let v: u8 = if t == f {
                1
            } else {
                0
            };
            r.push(v);
            t += 1;
        }
        r
    }
}

} // verus!

use vstd::prelude::*;

verus! {

/// One of the nine board locations, named by its (row, column) pair.
/// The declaration order is the flat order 0..9: row-major, top-left
/// first.  This order is observable: it is the scan order of the solver
/// and of the enumerator.
#[derive(Debug, Clone, Copy, PartialEq, Eq, Structural)]
pub enum Index {
    I00,
    I01,
    I02,
    I10,
    I11,
    I12,
    I20,
    I21,
    I22,
}

/// The flat declaration position of a coordinate, in 0..9.
pub open spec fn flat_of(i: Index) -> int {
    match i {
        Index::I00 => 0,
        Index::I01 => 1,
        Index::I02 => 2,
        Index::I10 => 3,
        Index::I11 => 4,
        Index::I12 => 5,
        Index::I20 => 6,
        Index::I21 => 7,
        Index::I22 => 8,
    }
}

/// The row of a coordinate, in 0..3.
pub open spec fn row_of(i: Index) -> int {
    match i {
        Index::I00 => 0,
        Index::I01 => 0,
        Index::I02 => 0,
        Index::I10 => 1,
        Index::I11 => 1,
        Index::I12 => 1,
        Index::I20 => 2,
        Index::I21 => 2,
        Index::I22 => 2,
    }
}

/// The column of a coordinate, in 0..3.
pub open spec fn col_of(i: Index) -> int {
    match i {
        Index::I00 => 0,
        Index::I01 => 1,
        Index::I02 => 2,
        Index::I10 => 0,
        Index::I11 => 1,
        Index::I12 => 2,
        Index::I20 => 0,
        Index::I21 => 1,
        Index::I22 => 2,
    }
}

/// The coordinate at a flat declaration position.  Positions outside
/// 0..9 are mapped to the first coordinate; contracts always guard the
/// argument.
pub open spec fn index_at(n: int) -> Index {
    if n == 1 {
        Index::I01
    } else if n == 2 {
        Index::I02
    } else if n == 3 {
        Index::I10
    } else if n == 4 {
        Index::I11
    } else if n == 5 {
        Index::I12
    } else if n == 6 {
        Index::I20
    } else if n == 7 {
        Index::I21
    } else if n == 8 {
        Index::I22
    } else {
        Index::I00
    }
}

/// A coordinate's flat position, row and column determine each other:
/// the flat position is `3 * row + column`, and `index_at` inverts
/// `flat_of`.
pub proof fn lemma_flat_geometry(i: Index)
    ensures
        flat_of(i) == 3 * row_of(i) + col_of(i),
        0 <= flat_of(i) < 9,
        index_at(flat_of(i)) == i,
{
}

/// Round trip: every in-range (row, column) pair names exactly one
/// coordinate, and that coordinate reports the same pair back.
pub proof fn lemma_row_column_round_trip(row: int, column: int)
    requires
        0 <= row < 3,
        0 <= column < 3,
    ensures
        row_of(index_at(3 * row + column)) == row,
        col_of(index_at(3 * row + column)) == column,
{
}

impl Index {
    /// The flat declaration position of this coordinate.
    pub fn flat(&self) -> (r: usize)
        ensures
            r == flat_of(*self),
    {
        match self {
            Index::I00 => 0,
            Index::I01 => 1,
            Index::I02 => 2,
            Index::I10 => 3,
            Index::I11 => 4,
            Index::I12 => 5,
            Index::I20 => 6,
            Index::I21 => 7,
            Index::I22 => 8,
        }
    }

    /// The coordinate at a flat position, or `None` for any position
    /// outside 0..9.  Out-of-range positions are rejected, never
    /// clamped.
    pub fn from_usize(x: usize) -> (r: Option<Index>)
        ensures
            x < 9 ==> r == Some(index_at(x as int)),
            x >= 9 ==> r is None,
    {
        match x {
            0 => Some(Index::I00),
            1 => Some(Index::I01),
            2 => Some(Index::I02),
            3 => Some(Index::I10),
            4 => Some(Index::I11),
            5 => Some(Index::I12),
            6 => Some(Index::I20),
            7 => Some(Index::I21),
            8 => Some(Index::I22),
            _ => None,
        }
    }

    /// The coordinate at a (row, column) pair, or `None` whenever the
    /// row or the column lies outside 0..3.
    pub fn from_row_column(row: usize, column: usize) -> (r: Option<Index>)
        ensures
            row < 3 && column < 3 ==> r == Some(index_at(3 * row + column)),
            !(row < 3 && column < 3) ==> r is None,
    {
        match (row, column) {
            (0, 0) => Some(Index::I00),
            (0, 1) => Some(Index::I01),
            (0, 2) => Some(Index::I02),
            (1, 0) => Some(Index::I10),
            (1, 1) => Some(Index::I11),
            (1, 2) => Some(Index::I12),
            (2, 0) => Some(Index::I20),
            (2, 1) => Some(Index::I21),
            (2, 2) => Some(Index::I22),
            _ => None,
        }
    }

    /// The (row, column) pair of this coordinate; total, and the exact
    /// inverse of `from_row_column`.
    pub fn row_column(&self) -> (r: (usize, usize))
        ensures
            r.0 == row_of(*self),
            r.1 == col_of(*self),
    {
        match self {
            Index::I00 => (0, 0),
            Index::I01 => (0, 1),
            Index::I02 => (0, 2),
            Index::I10 => (1, 0),
            Index::I11 => (1, 1),
            Index::I12 => (1, 2),
            Index::I20 => (2, 0),
            Index::I21 => (2, 1),
            Index::I22 => (2, 2),
        }
    }
}

/// The k-th winning line, for k in 0..8: the three rows, then the
/// three columns, then the two diagonals, in that fixed order.  The
/// order is observable: outcome queries scan lines in this order.
pub open spec fn line_of(k: int) -> (Index, Index, Index) {
    if k == 0 {
        (Index::I00, Index::I01, Index::I02)
    } else if k == 1 {
        (Index::I10, Index::I11, Index::I12)
    } else if k == 2 {
        (Index::I20, Index::I21, Index::I22)
    } else if k == 3 {
        (Index::I00, Index::I10, Index::I20)
    } else if k == 4 {
        (Index::I01, Index::I11, Index::I21)
    } else if k == 5 {
        (Index::I02, Index::I12, Index::I22)
    } else if k == 6 {
        (Index::I00, Index::I11, Index::I22)
    } else {
        (Index::I20, Index::I11, Index::I02)
    }
}

/// The k-th winning line of the fixed catalog.
pub fn line_at(k: usize) -> (r: (Index, Index, Index))
    requires
        k < 8,
    ensures
        r == line_of(k as int),
{
    match k {
        0 => (Index::I00, Index::I01, Index::I02),
        1 => (Index::I10, Index::I11, Index::I12),
        2 => (Index::I20, Index::I21, Index::I22),
        3 => (Index::I00, Index::I10, Index::I20),
        4 => (Index::I01, Index::I11, Index::I21),
        5 => (Index::I02, Index::I12, Index::I22),
        6 => (Index::I00, Index::I11, Index::I22),
        _ => (Index::I20, Index::I11, Index::I02),
    }
}

/// The whole winning-line catalog, as an ordered sequence of eight
/// coordinate triples.
pub fn lines() -> (r: Vec<(Index, Index, Index)>)
    ensures
        r@.len() == 8,
        forall|k: int| 0 <= k < 8 ==> r@[k] == line_of(k),
{
    let mut r: Vec<(Index, Index, Index)> = Vec::new();
    let mut k: usize = 0;
    while k < 8
        invariant
            k <= 8,
            r@.len() == k,
            forall|j: int| 0 <= j < k ==> r@[j] == line_of(j),
        decreases 8 - k,
    {
        r.push(line_at(k));
        k += 1;
    }
    r
}

/// The flat position of a (row, column) pair in a row-major grid of
/// the given width.
pub fn serialize_index(row: usize, column: usize, width: usize) -> (r: usize)
    requires
        row * width + column <= usize::MAX,
    ensures
        r == row * width + column,
{
    row * width + column
}

/// The (row, column) pair of a flat position in a row-major grid of
/// the given width.
pub fn deserialize_index(index: usize, width: usize) -> (r: (usize, usize))
    requires
        width > 0,
    ensures
        r.0 == index / width,
        r.1 == index % width,
{
    (index / width, index % width)
}

} // verus!

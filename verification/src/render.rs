use vstd::prelude::*;
use vstd::string::StringExecFns;

use crate::cell::{cell_char, Cell};
use crate::grid::Grid;

verus! {

/// One separator line of a rendered board.
pub open spec fn sep_line() -> Seq<char> {
    seq!['+', '-', '+', '-', '+', '-', '+', '\n']
}

/// One row line of a rendered board: the three cell glyphs of row r,
/// each between vertical bars.
pub open spec fn row_line(s: Seq<Cell>, r: int) -> Seq<char> {
    seq![
        '|',
        cell_char(s[3 * r]),
        '|',
        cell_char(s[3 * r + 1]),
        '|',
        cell_char(s[3 * r + 2]),
        '|',
        '\n',
    ]
}

/// The full rendering of a board: four separator lines interleaved
/// with the three row lines, and a trailing blank line.
pub open spec fn rendered(s: Seq<Cell>) -> Seq<char> {
    sep_line() + row_line(s, 0) + sep_line() + row_line(s, 1) + sep_line() + row_line(s, 2)
        + sep_line() + seq!['\n']
}

/// The one-character string of a cell's glyph.
fn cell_str(c: Cell) -> (r: &'static str)
    ensures
        r@ == seq![cell_char(c)],
{
    proof {
        reveal_strlit(" ");
        reveal_strlit("O");
        reveal_strlit("X");
        assert(" "@ =~= seq![' ']);
        assert("O"@ =~= seq!['O']);
        assert("X"@ =~= seq!['X']);
    }
    match c {
        Cell::Empty => " ",
        Cell::O => "O",
        Cell::X => "X",
    }
}

impl Grid {
    /// Appends one rendered row line to the sink.
    fn render_row(&self, out: &mut String, r: usize)
        requires
            r < 3,
        ensures
            final(out)@ == old(out)@ + row_line(self@, r as int),
    {
        proof {
            reveal_strlit("|");
            reveal_strlit("\n");
            assert("|"@ =~= seq!['|']);
            assert("\n"@ =~= seq!['\n']);
        }
        out.append("|");
        out.append(cell_str(self.cell_at(3 * r)));
        out.append("|");
        out.append(cell_str(self.cell_at(3 * r + 1)));
        out.append("|");
        out.append(cell_str(self.cell_at(3 * r + 2)));
        out.append("|");
        out.append("\n");
        proof {
            assert(out@ =~= old(out)@ + row_line(self@, r as int));
        }
    }

    /// The textual rendering of this board: "+-+-+-+" separator lines
    /// interleaved with "|c|c|c|" row lines, one glyph per cell, and a
    /// trailing blank line.
    pub fn render(&self) -> (r: String)
        ensures
            r@ == rendered(self@),
    {
        proof {
            reveal_strlit("+-+-+-+\n");
            reveal_strlit("\n");
            assert("+-+-+-+\n"@ =~= sep_line());
            assert("\n"@ =~= seq!['\n']);
        }
        let mut out = String::new();
        out.append("+-+-+-+\n");
        self.render_row(&mut out, 0);
        out.append("+-+-+-+\n");
        self.render_row(&mut out, 1);
        out.append("+-+-+-+\n");
        self.render_row(&mut out, 2);
        out.append("+-+-+-+\n");
        out.append("\n");
        proof {
            assert(out@ =~= rendered(self@));
        }
        out
    }
}

} // verus!

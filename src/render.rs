//! The text of a frame: two characters per cell, one line per row.

use crate::engine::GameOfLife;
use crate::rules::{height, width, CellState, Grid};
use vstd::prelude::*;
use vstd::string::StringExecFns;

verus! {

/// The two characters that draw a cell: full blocks for a live cell, spaces for
/// a dead one.
pub open spec fn glyph(c: CellState) -> Seq<char> {
    if c == CellState::Alive {
        seq!['\u{2588}', '\u{2588}']
    } else {
        seq![' ', ' ']
    }
}

/// The glyphs of a row, left to right.
pub open spec fn row_text(row: Seq<CellState>) -> Seq<char>
    decreases row.len(),
{
    if row.len() == 0 {
        Seq::empty()
    } else {
        row_text(row.drop_last()) + glyph(row.last())
    }
}

/// The rows of a grid, top to bottom, each ended by a newline.
pub open spec fn grid_text(g: Grid) -> Seq<char>
    decreases g.len(),
{
    if g.len() == 0 {
        Seq::empty()
    } else {
        grid_text(g.drop_last()) + row_text(g.last()) + seq!['\n']
    }
}

/// Executable form of `glyph`.
pub fn cell_glyph(c: CellState) -> (s: &'static str)
    ensures
        s@ == glyph(c),
{
    if c == CellState::Alive {
        proof {
            reveal_strlit("\u{2588}\u{2588}");
        }
        "\u{2588}\u{2588}"
    } else {
        proof {
            reveal_strlit("  ");
        }
        "  "
    }
}

impl GameOfLife {
    /// The current grid as text, in row-major order: each cell drawn by its glyph,
    /// each row ended by a newline.
    pub fn render(&self) -> (s: String)
        requires
            self.wf(),
        ensures
            s@ == grid_text(self@),
    {
        let h = self.height();
        let w = self.width();
        let mut s = String::new();
        let mut i: usize = 0;
        while i < h
            invariant
                self.wf(),
                h == height(self@),
                w == width(self@),
                i <= h,
                s@ == grid_text(self@.take(i as int)),
            decreases h - i,
        {
            assert(self@[i as int].len() == w);
            let ghost row = self@[i as int];
            let ghost before = s@;
            let mut j: usize = 0;
            while j < w
                invariant
                    self.wf(),
                    h == height(self@),
                    w == width(self@),
                    i < h,
                    j <= w,
                    row == self@[i as int],
                    row.len() == w,
                    s@ == before + row_text(row.take(j as int)),
                decreases w - j,
            {
                s.append(cell_glyph(self.cell(i, j)));
                assert(row.take(j + 1).drop_last() =~= row.take(j as int));
                assert(before + row_text(row.take(j + 1)) =~= before + row_text(row.take(j as int))
                    + glyph(row[j as int]));
                j = j + 1;
            }
            proof {
                reveal_strlit("\n");
            }
            s.append("\n");
            assert(row.take(w as int) =~= row);
            assert(self@.take(i + 1).drop_last() =~= self@.take(i as int));
            assert(grid_text(self@.take(i + 1)) =~= before + row_text(row) + seq!['\n']);
            i = i + 1;
        }
        assert(self@.take(h as int) =~= self@);
        s
    }
}

} // verus!

//! The compositor: a pure mapping from the grid to a flat character
//! buffer of the same row-major shape, recomputed every frame.

use vstd::prelude::*;
use crate::cellular::{CellValue, Grid};

verus! {

/// The character one cell is displayed as: blank for Empty, the four
/// block-shade glyphs (solid down to light) for steam levels 4 through 1,
/// the character itself for a scene cell. A steam level outside 1 through
/// 4 displays as a blank and never becomes an error.
pub open spec fn cell_char(v: CellValue) -> char {
    match v {
        CellValue::Empty => ' ',
        CellValue::Steam(level) => if level == 4 {
            '\u{2588}'
        } else if level == 3 {
            '\u{2593}'
        } else if level == 2 {
            '\u{2592}'
        } else if level == 1 {
            '\u{2591}'
        } else {
            ' '
        },
        CellValue::Scene(c) => c,
    }
}

/// The whole frame: the display character of every cell, in grid order.
pub open spec fn render_spec(g: Grid) -> Seq<char> {
    Seq::new(g.cells@.len(), |k: int| cell_char(g.cells@[k].value))
}

/// The display character of one cell value.
pub fn cell_display_char(v: CellValue) -> (c: char)
    ensures
        c == cell_char(v),
{
    match v {
        CellValue::Empty => ' ',
        CellValue::Steam(level) => if level == 4 {
            '\u{2588}'
        } else if level == 3 {
            '\u{2593}'
        } else if level == 2 {
            '\u{2592}'
        } else if level == 1 {
            '\u{2591}'
        } else {
            ' '
        },
        CellValue::Scene(c) => c,
    }
}

/// Composites the grid into a character buffer of the same row-major
/// shape. The mapping is pure: the result is a function of the grid's
/// cell values alone, and the grid itself is only read.
pub fn render(grid: &Grid) -> (buf: Vec<char>)
    ensures
        buf@ == render_spec(*grid),
{
    let n: usize = grid.cells.len();
    let mut buf: Vec<char> = Vec::new();
    let mut k: usize = 0;
    while k < n
        invariant
            n == grid.cells@.len(),
            k <= n,
            buf@.len() == k,
            forall|m: int| 0 <= m < k ==> #[trigger] buf@[m] == cell_char(grid.cells@[m].value),
        decreases n - k,
    {
        buf.push(cell_display_char(grid.cells[k].value));
        k = k + 1;
    }
    proof {
        assert(buf@ =~= render_spec(*grid));
    }
    buf
}

/// Law: rendering is pure. Two grids with the same cell values — whatever
/// their coordinate metadata — composite to the same character buffer, so
/// rendering the same grid twice gives the same frame both times.
pub proof fn lemma_render_pure(g1: Grid, g2: Grid)
    requires
        g1.cells@.len() == g2.cells@.len(),
        forall|k: int|
            0 <= k < g1.cells@.len() ==> (#[trigger] g1.cells@[k]).value == g2.cells@[k].value,
    ensures
        render_spec(g1) == render_spec(g2),
{
    assert(render_spec(g1) =~= render_spec(g2));
}

} // verus!

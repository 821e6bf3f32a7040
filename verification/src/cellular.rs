//! The grid model and the steam automaton.
//!
//! A grid is a row-major vector of cells, each holding either nothing, a
//! steam puff with an intensity level, or a fixed scene character. Each tick
//! the automaton lets every interior steam cell write a (possibly decayed)
//! copy of itself into the cell one row above, which makes the steam rise.

use vstd::prelude::*;
use vstd::arithmetic::div_mod::lemma_fundamental_div_mod_converse;

verus! {

/// What one grid cell holds. Meaningful steam levels are 1 through 4; any
/// other level is carried along untouched and displays as a blank.
#[derive(Debug, Clone, Copy, PartialEq, Eq, Structural)]
pub enum CellValue {
    Empty,
    Steam(i8),
    Scene(char),
}

/// One cell of the grid together with its own (column, row) coordinates.
/// The coordinates are redundant with the cell's position in the grid; a
/// well-formed grid keeps them in agreement.
#[derive(Debug, Clone, Copy, PartialEq, Eq, Structural)]
pub struct Cell {
    pub value: CellValue,
    pub x: i32,
    pub y: i32,
}

impl Cell {
    pub fn new(value: CellValue, x: i32, y: i32) -> (c: Cell)
        ensures
            c.value == value,
            c.x == x,
            c.y == y,
    {
        Cell { value, x, y }
    }

    pub fn update_value(&mut self, new_value: CellValue)
        ensures
            final(self).value == new_value,
            final(self).x == old(self).x,
            final(self).y == old(self).y,
    {
        self.value = new_value;
    }
}

/// The per-cell transition rule. With `decay` unset a value is kept as it
/// is; with `decay` set a steam level drops one step and level 1 vanishes.
/// Empty cells, scene cells, and steam levels outside 1 through 4 pass
/// through unchanged either way.
pub open spec fn steam_step(v: CellValue, decay: bool) -> CellValue {
    match v {
        CellValue::Steam(level) => if !decay {
            v
        } else if level == 4 {
            CellValue::Steam(3)
        } else if level == 3 {
            CellValue::Steam(2)
        } else if level == 2 {
            CellValue::Steam(1)
        } else if level == 1 {
            CellValue::Empty
        } else {
            v
        },
        _ => v,
    }
}

/// Applies the per-cell transition rule once.
pub fn steam_transition(v: CellValue, decay: bool) -> (r: CellValue)
    ensures
        r == steam_step(v, decay),
{
    match v {
        CellValue::Steam(level) => if !decay {
            v
        } else if level == 4 {
            CellValue::Steam(3)
        } else if level == 3 {
            CellValue::Steam(2)
        } else if level == 2 {
            CellValue::Steam(1)
        } else if level == 1 {
            CellValue::Empty
        } else {
            v
        },
        _ => v,
    }
}

/// Row-major index arithmetic: the index of (row, col) lies inside the
/// grid and decomposes back into the same row and column.
pub proof fn lemma_row_major_index(row: int, col: int, width: int, height: int)
    requires
        0 <= row < height,
        0 <= col < width,
    ensures
        0 <= row * width + col < width * height,
        (row * width + col) % width == col,
        (row * width + col) / width == row,
{
    assert(0 <= row * width + col < width * height) by (nonlinear_arith)
        requires
            0 <= row < height,
            0 <= col < width,
    ;
    lemma_fundamental_div_mod_converse(row * width + col, width, row, col);
}

/// The grid: a fixed width-by-height field of cells in row-major order,
/// created once from the scene text and stepped by the automaton each tick.
pub struct Grid {
    pub width: usize,
    pub height: usize,
    pub cells: Vec<Cell>,
}

impl Grid {
    /// Well-formedness: the cell vector holds exactly width * height
    /// entries, the dimensions fit the coordinate type, and every cell
    /// records its own column and row.
    pub open spec fn wf(&self) -> bool {
        &&& self.cells@.len() == self.width * self.height
        &&& self.width * self.height <= usize::MAX
        &&& self.width <= 0x7fff_ffff
        &&& self.height <= 0x7fff_ffff
        &&& forall|k: int| 0 <= k < self.cells@.len() ==> {
            &&& (#[trigger] self.cells@[k]).x as int == k % (self.width as int)
            &&& self.cells@[k].y as int == k / (self.width as int)
        }
    }

    /// A fresh all-empty grid of the given dimensions.
    pub fn new(width: usize, height: usize) -> (g: Grid)
        requires
            width * height <= usize::MAX,
            width <= 0x7fff_ffff,
            height <= 0x7fff_ffff,
        ensures
            g.wf(),
            g.width == width,
            g.height == height,
            forall|k: int| 0 <= k < g.cells@.len() ==> (#[trigger] g.cells@[k]).value
                == CellValue::Empty,
    {
        let mut cells: Vec<Cell> = Vec::new();
        let mut row: usize = 0;
        while row < height
            invariant
                row <= height,
                width * height <= usize::MAX,
                width <= 0x7fff_ffff,
                height <= 0x7fff_ffff,
                cells@.len() == row * width,
                forall|k: int| 0 <= k < cells@.len() ==> {
                    &&& (#[trigger] cells@[k]).value == CellValue::Empty
                    &&& cells@[k].x as int == k % (width as int)
                    &&& cells@[k].y as int == k / (width as int)
                },
            decreases height - row,
        {
            let mut col: usize = 0;
            while col < width
                invariant
                    row < height,
                    col <= width,
                    width * height <= usize::MAX,
                    width <= 0x7fff_ffff,
                    height <= 0x7fff_ffff,
                    cells@.len() == row * width + col,
                    forall|k: int| 0 <= k < cells@.len() ==> {
                        &&& (#[trigger] cells@[k]).value == CellValue::Empty
                        &&& cells@[k].x as int == k % (width as int)
                        &&& cells@[k].y as int == k / (width as int)
                    },
                decreases width - col,
            {
                proof {
                    lemma_row_major_index(row as int, col as int, width as int, height as int);
                }
                cells.push(Cell { value: CellValue::Empty, x: col as i32, y: row as i32 });
                col = col + 1;
            }
            row = row + 1;
            proof {
                assert(row * width == (row - 1) * width + width) by (nonlinear_arith);
            }
        }
        proof {
            assert(height * width == width * height) by (nonlinear_arith);
        }
        Grid { width, height, cells }
    }

    /// The cell at the given row and column.
    pub fn cell_at(&self, row: usize, col: usize) -> (c: Cell)
        requires
            self.wf(),
            row < self.height,
            col < self.width,
        ensures
            c == self.cells@[row as int * self.width as int + col as int],
    {
        proof {
            lemma_row_major_index(row as int, col as int, self.width as int, self.height as int);
        }
        self.cells[row * self.width + col]
    }

    /// Replaces the value of the cell at the given row and column; the
    /// cell's coordinates are kept.
    pub fn set_value(&mut self, row: usize, col: usize, value: CellValue)
        requires
            old(self).wf(),
            row < old(self).height,
            col < old(self).width,
        ensures
            final(self).wf(),
            final(self).width == old(self).width,
            final(self).height == old(self).height,
            final(self).cells@ == old(self).cells@.update(
                row as int * old(self).width as int + col as int,
                Cell {
                    value,
                    x: old(self).cells@[row as int * old(self).width as int + col as int].x,
                    y: old(self).cells@[row as int * old(self).width as int + col as int].y,
                },
            ),
    {
        proof {
            lemma_row_major_index(row as int, col as int, self.width as int, self.height as int);
        }
        let idx: usize = row * self.width + col;
        let prev = self.cells[idx];
        self.cells.set(idx, Cell { value, x: prev.x, y: prev.y });
    }
}

/// The cell at index `k` after scene text is laid over a grid of the given
/// width: where line `row` has a character for column `col`, the cell
/// becomes that scene character (coordinates kept); everywhere else —
/// short lines, few lines — the cell keeps its previous value.
pub open spec fn scene_cell(cells: Seq<Cell>, width: int, lines: Seq<Seq<char>>, k: int) -> Cell {
    let row = k / width;
    let col = k % width;
    if row < lines.len() && col < lines[row].len() {
        Cell { value: CellValue::Scene(lines[row][col]), x: cells[k].x, y: cells[k].y }
    } else {
        cells[k]
    }
}

impl Grid {
    /// Lays scene text over the grid, one line per row, one character per
    /// column, from the top left. Lines and characters beyond the grid's
    /// edge are ignored; cells no character reaches keep their value.
    pub fn apply_scene(&mut self, lines: &Vec<Vec<char>>)
        requires
            old(self).wf(),
        ensures
            final(self).wf(),
            final(self).width == old(self).width,
            final(self).height == old(self).height,
            final(self).cells@.len() == old(self).cells@.len(),
            forall|k: int| 0 <= k < old(self).cells@.len() ==> #[trigger] final(self).cells@[k]
                == scene_cell(old(self).cells@, old(self).width as int, lines.deep_view(), k),
    {
        let w: usize = self.width;
        let h: usize = self.height;
        let n: usize = self.cells.len();
        let mut cells: Vec<Cell> = Vec::new();
        let mut k: usize = 0;
        while k < n
            invariant
                *self == *old(self),
                old(self).wf(),
                w == old(self).width,
                h == old(self).height,
                n == old(self).cells@.len(),
                k <= n,
                cells@.len() == k,
                forall|m: int| 0 <= m < k ==> #[trigger] cells@[m]
                    == scene_cell(old(self).cells@, w as int, lines.deep_view(), m),
            decreases n - k,
        {
            proof {
                assert(w > 0) by (nonlinear_arith)
                    requires
                        k < n,
                        n == w * h,
                ;
            }
            let row: usize = k / w;
            let col: usize = k % w;
            let cur = self.cells[k];
            let mut value = cur.value;
            if row < lines.len() {
                let line = &lines[row];
                if col < line.len() {
                    value = CellValue::Scene(line[col]);
                }
            }
            proof {
                let ki = k as int;
                let wi = w as int;
                let dv = lines.deep_view();
                assert(dv.len() == lines@.len());
                if 0 <= ki / wi < lines@.len() {
                    assert(dv[ki / wi] == lines@[ki / wi].deep_view());
                    assert(dv[ki / wi].len() == lines@[ki / wi]@.len());
                    if 0 <= ki % wi < dv[ki / wi].len() {
                        assert(dv[ki / wi][ki % wi] == lines@[ki / wi]@[ki % wi]);
                    }
                }
                assert(Cell { value, x: cur.x, y: cur.y }
                    == scene_cell(old(self).cells@, wi, dv, ki));
            }
            cells.push(Cell { value, x: cur.x, y: cur.y });
            k = k + 1;
        }
        self.cells = cells;
    }
}

/// Whether the cell at index `k` is overwritten this tick: true exactly
/// when the cell one row below it (same column) is an interior steam cell.
/// Interior means rows 1 through height - 2 and columns 1 through
/// width - 2; the border never acts and is never wrapped around.
pub open spec fn written_from_below(g: Grid, k: int) -> bool {
    let w = g.width as int;
    let h = g.height as int;
    let row = k / w;
    let col = k % w;
    &&& row + 1 <= h - 2
    &&& 1 <= col <= w - 2
    &&& g.cells@[k + w].value is Steam
}

/// The value the cell at index `k` holds after one tick, given one decay
/// draw per cell: the (possibly decayed) steam value rising from the cell
/// below, or its own old value if nothing rises into it.
pub open spec fn stepped_value(g: Grid, decays: Seq<bool>, k: int) -> CellValue {
    if written_from_below(g, k) {
        steam_step(g.cells@[k + g.width as int].value, decays[k + g.width as int])
    } else {
        g.cells@[k].value
    }
}

/// Whether `res` is the grid `g` advanced by one tick under the given
/// decay draws: same shape, same coordinates, every value stepped.
pub open spec fn is_step_of(g: Grid, decays: Seq<bool>, res: Grid) -> bool {
    &&& res.width == g.width
    &&& res.height == g.height
    &&& res.cells@.len() == g.cells@.len()
    &&& forall|k: int| 0 <= k < g.cells@.len() ==> {
        &&& (#[trigger] res.cells@[k]).value == stepped_value(g, decays, k)
        &&& res.cells@[k].x == g.cells@[k].x
        &&& res.cells@[k].y == g.cells@[k].y
    }
}

/// One tick of the automaton under the given decay draws, one draw per
/// cell: every cell above an interior steam cell receives that cell's
/// stepped value, every other cell is copied unchanged. The source grid
/// is left as it was.
pub fn update_with(grid: &Grid, decays: &Vec<bool>) -> (res: Grid)
    requires
        grid.wf(),
        decays@.len() == grid.cells@.len(),
    ensures
        res.wf(),
        is_step_of(*grid, decays@, res),
{
    let w: usize = grid.width;
    let h: usize = grid.height;
    let n: usize = grid.cells.len();
    let mut cells: Vec<Cell> = Vec::new();
    let mut k: usize = 0;
    while k < n
        invariant
            grid.wf(),
            decays@.len() == grid.cells@.len(),
            w == grid.width,
            h == grid.height,
            n == grid.cells@.len(),
            k <= n,
            cells@.len() == k,
            forall|m: int| 0 <= m < k ==> {
                &&& (#[trigger] cells@[m]).value == stepped_value(*grid, decays@, m)
                &&& cells@[m].x == grid.cells@[m].x
                &&& cells@[m].y == grid.cells@[m].y
            },
        decreases n - k,
    {
        proof {
            assert(w > 0) by (nonlinear_arith)
                requires
                    k < n,
                    n == w * h,
            ;
        }
        let row: usize = k / w;
        let col: usize = k % w;
        let cur = grid.cells[k];
        let mut value = cur.value;
        if h >= 3 && row <= h - 3 && col >= 1 && col <= w - 2 {
            proof {
                vstd::arithmetic::div_mod::lemma_fundamental_div_mod(k as int, w as int);
                assert(k as int == (w as int) * (row as int) + col as int);
                assert(k + w == (row as int + 1) * (w as int) + col as int) by (nonlinear_arith)
                    requires
                        k as int == (w as int) * (row as int) + col as int,
                ;
                lemma_row_major_index(row as int + 1, col as int, w as int, h as int);
            }
            let below = grid.cells[k + w];
            if let CellValue::Steam(_) = below.value {
                value = steam_transition(below.value, decays[k + w]);
            }
        }
        proof {
            assert(value == stepped_value(*grid, decays@, k as int));
        }
        cells.push(Cell { value, x: cur.x, y: cur.y });
        k = k + 1;
    }
    Grid { width: w, height: h, cells }
}

/// Relies on rand::random::<bool>: one draw from rand's StandardUniform
/// distribution on bool, a fair coin from the thread-local generator.
/// Nothing is promised of the outcome.
#[verifier::external_body]
fn coin() -> bool {
    rand::random::<bool>()
}

/// One tick of the automaton driven by fresh random draws, one independent
/// draw per cell. Whatever the draws came out as, the result is the grid
/// stepped under some sequence of them.
pub fn update(grid: &Grid) -> (res: Grid)
    requires
        grid.wf(),
    ensures
        res.wf(),
        exists|decays: Seq<bool>|
            decays.len() == grid.cells@.len() && #[trigger] is_step_of(*grid, decays, res),
{
    let n: usize = grid.cells.len();
    let mut decays: Vec<bool> = Vec::new();
    let mut k: usize = 0;
    while k < n
        invariant
            decays@.len() == k,
            k <= n,
        decreases n - k,
    {
        decays.push(coin());
        k = k + 1;
    }
    let res = update_with(grid, &decays);
    proof {
        assert(decays@.len() == grid.cells@.len() && is_step_of(*grid, decays@, res));
    }
    res
}

/// Law: the transition rule is the identity on Empty and Scene values;
/// the automaton never alters them, it only ever copies them along.
pub proof fn lemma_steam_step_scene_empty(v: CellValue, decay: bool)
    requires
        !(v is Steam),
    ensures
        steam_step(v, decay) == v,
{
}

/// Law: steam never intensifies. One application of the transition rule
/// keeps a steam level or lowers it — level 1 may become Empty — and it
/// never produces a scene character; every other value passes through.
pub proof fn lemma_steam_step_non_increasing(v: CellValue, decay: bool)
    ensures
        match v {
            CellValue::Steam(level) => match steam_step(v, decay) {
                CellValue::Steam(new_level) => new_level <= level,
                CellValue::Empty => true,
                CellValue::Scene(_) => false,
            },
            _ => steam_step(v, decay) == v,
        },
{
}

/// Law: one tick never changes a cell in column 0, in the last column, or
/// in the last row. A rising write lands one row above an interior source,
/// so none of these cells is ever a target. (The top row is not among
/// them: steam in row 1 writes into row 0.)
pub proof fn lemma_step_keeps_border(g: Grid, decays: Seq<bool>)
    requires
        g.wf(),
        3 <= g.width,
        3 <= g.height,
        decays.len() == g.cells@.len(),
    ensures
        forall|k: int|
            0 <= k < g.cells@.len() && (k % (g.width as int) == 0 || k % (g.width as int)
                == g.width - 1 || k / (g.width as int) == g.height - 1)
                ==> #[trigger] stepped_value(g, decays, k) == g.cells@[k].value,
{
}

/// Law: the top row is unchanged by a tick as long as row 1 holds no steam
/// in the interior columns. (Without that hypothesis it can change: steam
/// at row 1, column 1 of a 3-by-3 grid writes its stepped value into the
/// cell at row 0, column 1.)
pub proof fn lemma_step_keeps_top_row(g: Grid, decays: Seq<bool>)
    requires
        g.wf(),
        3 <= g.width,
        3 <= g.height,
        decays.len() == g.cells@.len(),
        forall|col: int|
            1 <= col <= g.width - 2 ==> !((#[trigger] g.cells@[g.width + col]).value is Steam),
    ensures
        forall|k: int|
            0 <= k < g.width ==> #[trigger] stepped_value(g, decays, k) == g.cells@[k].value,
{
    assert forall|k: int| 0 <= k < g.width implies #[trigger] stepped_value(g, decays, k)
        == g.cells@[k].value by {
        let wi = g.width as int;
        lemma_fundamental_div_mod_converse(k, wi, 0, k);
        assert(k / wi == 0 && k % wi == k);
        if written_from_below(g, k) {
            assert(g.cells@[wi + k].value is Steam);
            assert(false);
        }
    }
}

/// Law: a cell that changes over a tick got its new value from the
/// interior steam cell directly below it, stepped once; above Empty cells,
/// Scene cells, and the border, every cell is copied unchanged.
pub proof fn lemma_step_changes_only_above_steam(g: Grid, decays: Seq<bool>, k: int)
    requires
        g.wf(),
        decays.len() == g.cells@.len(),
        0 <= k < g.cells@.len(),
    ensures
        stepped_value(g, decays, k) != g.cells@[k].value ==> {
            &&& k + g.width < g.cells@.len()
            &&& g.cells@[k + g.width as int].value is Steam
            &&& stepped_value(g, decays, k) == steam_step(
                g.cells@[k + g.width as int].value,
                decays[k + g.width as int],
            )
        },
{
    if written_from_below(g, k) {
        let wi = g.width as int;
        let hi = g.height as int;
        vstd::arithmetic::div_mod::lemma_fundamental_div_mod(k, wi);
        assert(k + wi < wi * hi) by (nonlinear_arith)
            requires
                wi > 0,
                k == wi * (k / wi) + k % wi,
                k / wi + 1 <= hi - 2,
                0 <= k % wi < wi,
        ;
    }
}

} // verus!

//! The window surface model.
//!
//! A window is a rows-by-cols backing buffer of glyphs together with its
//! origin on the screen. Erasing blanks the buffer, printing writes a run
//! of characters (optionally colored) at a position after a bounds check,
//! and a frame is drawn as the composited character grid followed by one
//! fixed help line. Flushing the buffer to a real terminal is left to the
//! unverified shell around the crate.

use vstd::prelude::*;

verus! {

/// The raw codes terminals hand back for the arrow keys.
#[derive(Debug, Clone, Copy, PartialEq, Eq, Structural)]
pub enum ArrowKeys {
    Up,
    Down,
    Right,
    Left,
}

impl ArrowKeys {
    /// The raw code of this arrow key.
    pub open spec fn code_spec(&self) -> i32 {
        match self {
            ArrowKeys::Up => 65,
            ArrowKeys::Down => 66,
            ArrowKeys::Right => 67,
            ArrowKeys::Left => 68,
        }
    }

    pub fn code(&self) -> (c: i32)
        ensures
            c == self.code_spec(),
    {
        match self {
            ArrowKeys::Up => 65,
            ArrowKeys::Down => 66,
            ArrowKeys::Right => 67,
            ArrowKeys::Left => 68,
        }
    }
}

/// The eight-value base palette.
#[derive(Debug, Clone, Copy, PartialEq, Eq, Structural)]
pub enum Color {
    Black,
    Red,
    Green,
    Yellow,
    Blue,
    Magenta,
    Cyan,
    White,
}

impl Color {
    /// The palette index of this color.
    pub open spec fn index_spec(&self) -> i16 {
        match self {
            Color::Black => 0,
            Color::Red => 1,
            Color::Green => 2,
            Color::Yellow => 3,
            Color::Blue => 4,
            Color::Magenta => 5,
            Color::Cyan => 6,
            Color::White => 7,
        }
    }

    pub fn index(&self) -> (i: i16)
        ensures
            i == self.index_spec(),
    {
        match self {
            Color::Black => 0,
            Color::Red => 1,
            Color::Green => 2,
            Color::Yellow => 3,
            Color::Blue => 4,
            Color::Magenta => 5,
            Color::Cyan => 6,
            Color::White => 7,
        }
    }
}

/// A foreground/background pair from the base palette, applied for the
/// duration of one print.
#[derive(Debug, Clone, Copy, PartialEq, Eq, Structural)]
pub struct ColorPair {
    pub foreground: Color,
    pub background: Color,
}

impl ColorPair {
    pub fn new(foreground: Color, background: Color) -> (p: ColorPair)
        ensures
            p.foreground == foreground,
            p.background == background,
    {
        ColorPair { foreground, background }
    }
}

/// A print failed because it fell outside the surface bounds.
#[derive(Debug, Clone, Copy, PartialEq, Eq, Structural)]
pub enum RenderError {
    OutOfBounds,
}

/// One buffer cell: a character and the color it was printed with, if any.
#[derive(Debug, Clone, Copy)]
pub struct Glyph {
    pub ch: char,
    pub color: Option<ColorPair>,
}

/// The glyph an erased cell holds.
pub open spec fn blank_glyph() -> Glyph {
    Glyph { ch: ' ', color: None }
}

/// The color a print stores into the cells it writes.
pub open spec fn stored_color(color_pair: Option<&ColorPair>) -> Option<ColorPair> {
    match color_pair {
        Some(p) => Some(*p),
        None => None,
    }
}

/// Whether a print of `len` characters starting at (x, y) lies inside a
/// rows-by-cols surface.
pub open spec fn print_fits(rows: int, cols: int, x: int, y: int, len: int) -> bool {
    &&& 0 <= x
    &&& 0 <= y
    &&& y < rows
    &&& x + len <= cols
}

/// The window: a rows-by-cols backing buffer of glyphs in row-major order,
/// plus the origin it is meant to occupy on the screen.
pub struct Window {
    pub rows: usize,
    pub cols: usize,
    pub x: i32,
    pub y: i32,
    pub buffer: Vec<Glyph>,
}

impl Window {
    /// Well-formedness: the buffer holds exactly rows * cols glyphs and
    /// the dimensions fit the coordinate type.
    pub open spec fn wf(&self) -> bool {
        &&& self.buffer@.len() == self.rows * self.cols
        &&& self.rows * self.cols <= usize::MAX
        &&& self.rows <= 0x7fff_ffff
        &&& self.cols <= 0x7fff_ffff
    }

    /// A fresh, blank surface of the given size at the given origin.
    pub fn new(rows: usize, cols: usize, x: i32, y: i32) -> (w: Window)
        requires
            rows * cols <= usize::MAX,
            rows <= 0x7fff_ffff,
            cols <= 0x7fff_ffff,
        ensures
            w.wf(),
            w.rows == rows,
            w.cols == cols,
            w.x == x,
            w.y == y,
            forall|k: int| 0 <= k < w.buffer@.len() ==> #[trigger] w.buffer@[k] == blank_glyph(),
    {
        let n: usize = rows * cols;
        let mut buffer: Vec<Glyph> = Vec::new();
        let mut k: usize = 0;
        while k < n
            invariant
                k <= n,
                buffer@.len() == k,
                forall|m: int| 0 <= m < k ==> #[trigger] buffer@[m] == blank_glyph(),
            decreases n - k,
        {
            buffer.push(Glyph { ch: ' ', color: None });
            k = k + 1;
        }
        Window { rows, cols, x, y, buffer }
    }

    /// Clears the backing buffer to blanks; nothing reaches the screen
    /// until the buffer is flushed.
    pub fn erase(&mut self)
        requires
            old(self).wf(),
        ensures
            final(self).wf(),
            final(self).rows == old(self).rows,
            final(self).cols == old(self).cols,
            final(self).x == old(self).x,
            final(self).y == old(self).y,
            final(self).buffer@.len() == old(self).buffer@.len(),
            forall|k: int|
                0 <= k < final(self).buffer@.len()
                    ==> #[trigger] final(self).buffer@[k] == blank_glyph(),
    {
        let n: usize = self.buffer.len();
        let mut k: usize = 0;
        while k < n
            invariant
                self.rows == old(self).rows,
                self.cols == old(self).cols,
                self.x == old(self).x,
                self.y == old(self).y,
                old(self).wf(),
                n == self.buffer@.len(),
                self.buffer@.len() == old(self).buffer@.len(),
                k <= n,
                forall|m: int| 0 <= m < k ==> #[trigger] self.buffer@[m] == blank_glyph(),
            decreases n - k,
        {
            self.buffer[k] = Glyph { ch: ' ', color: None };
            k = k + 1;
        }
    }

    /// Writes `text` at column x, row y of the backing buffer, coloring it
    /// with `color_pair` if one is given. Fails — and leaves the buffer
    /// untouched — exactly when the run does not fit the surface.
    pub fn print(&mut self, x: i32, y: i32, text: &Vec<char>, color_pair: Option<&ColorPair>) -> (r:
        Result<(), RenderError>)
        requires
            old(self).wf(),
        ensures
            final(self).wf(),
            final(self).rows == old(self).rows,
            final(self).cols == old(self).cols,
            final(self).x == old(self).x,
            final(self).y == old(self).y,
            final(self).buffer@.len() == old(self).buffer@.len(),
            r is Ok <==> print_fits(
                old(self).rows as int,
                old(self).cols as int,
                x as int,
                y as int,
                text@.len() as int,
            ),
            r is Err ==> r == Result::<(), RenderError>::Err(RenderError::OutOfBounds)
                && final(self).buffer@ == old(self).buffer@,
            r is Ok ==> forall|k: int|
                0 <= k < old(self).buffer@.len() ==> #[trigger] final(self).buffer@[k] == {
                    let base = y as int * old(self).cols as int + x as int;
                    if base <= k < base + text@.len() {
                        Glyph { ch: text@[k - base], color: stored_color(color_pair) }
                    } else {
                        old(self).buffer@[k]
                    }
                },
    {
        if x < 0 || y < 0 {
            return Err(RenderError::OutOfBounds);
        }
        let ux: usize = x as usize;
        let uy: usize = y as usize;
        if uy >= self.rows || ux > self.cols || text.len() > self.cols - ux {
            return Err(RenderError::OutOfBounds);
        }
        proof {
            assert(uy * self.cols + self.cols <= self.rows * self.cols) by (nonlinear_arith)
                requires
                    uy < self.rows,
            ;
        }
        let base: usize = uy * self.cols + ux;
        let color: Option<ColorPair> = match color_pair {
            Some(p) => Some(*p),
            None => None,
        };
        let mut i: usize = 0;
        while i < text.len()
            invariant
                old(self).wf(),
                self.rows == old(self).rows,
                self.cols == old(self).cols,
                self.x == old(self).x,
                self.y == old(self).y,
                self.buffer@.len() == old(self).buffer@.len(),
                base == uy * self.cols + ux,
                uy < self.rows,
                ux + text@.len() <= self.cols,
                base + text@.len() <= self.buffer@.len(),
                color == stored_color(color_pair),
                i <= text@.len(),
                forall|k: int|
                    0 <= k < self.buffer@.len() ==> #[trigger] self.buffer@[k] == (if base <= k
                        < base + i {
                        Glyph { ch: text@[k - base as int], color: stored_color(color_pair) }
                    } else {
                        old(self).buffer@[k]
                    }),
            decreases text@.len() - i,
        {
            self.buffer[base + i] = Glyph { ch: text[i], color };
            i = i + 1;
        }
        Ok(())
    }

    /// Draws a border of '|' glyphs along the right-hand edge; fails only
    /// on a zero-width surface that still has rows to border.
    pub fn draw_border(&mut self) -> (r: Result<(), RenderError>)
        requires
            old(self).wf(),
        ensures
            final(self).wf(),
            final(self).rows == old(self).rows,
            final(self).cols == old(self).cols,
            final(self).x == old(self).x,
            final(self).y == old(self).y,
            final(self).buffer@.len() == old(self).buffer@.len(),
            r is Ok <==> (old(self).cols >= 1 || old(self).rows == 0),
            r is Err ==> final(self).buffer@ == old(self).buffer@,
            r is Ok ==> forall|k: int|
                0 <= k < old(self).buffer@.len() ==> #[trigger] final(self).buffer@[k] == (if k % (
                old(self).cols as int) == old(self).cols - 1 {
                    Glyph { ch: '|', color: None }
                } else {
                    old(self).buffer@[k]
                }),
    {
        let rows: usize = self.rows;
        let cols: usize = self.cols;
        if rows == 0 {
            proof {
                assert(self.buffer@.len() == 0) by (nonlinear_arith)
                    requires
                        self.buffer@.len() == rows * cols,
                        rows == 0,
                ;
            }
            return Ok(());
        }
        if cols == 0 {
            return Err(RenderError::OutOfBounds);
        }
        let mut row: usize = 0;
        while row < rows
            invariant
                old(self).wf(),
                self.rows == old(self).rows,
                self.cols == old(self).cols,
                self.x == old(self).x,
                self.y == old(self).y,
                self.buffer@.len() == old(self).buffer@.len(),
                rows == self.rows,
                cols == self.cols,
                cols >= 1,
                row <= rows,
                forall|k: int|
                    0 <= k < self.buffer@.len() ==> #[trigger] self.buffer@[k] == (if k % (
                    cols as int) == cols - 1 && k / (cols as int) < row {
                        Glyph { ch: '|', color: None }
                    } else {
                        old(self).buffer@[k]
                    }),
            decreases rows - row,
        {
            proof {
                crate::cellular::lemma_row_major_index(
                    row as int,
                    cols as int - 1,
                    cols as int,
                    rows as int,
                );
            }
            let idx: usize = row * cols + (cols - 1);
            self.buffer[idx] = Glyph { ch: '|', color: None };
            proof {
                assert forall|k: int| 0 <= k < self.buffer@.len() implies #[trigger] self.buffer@[k]
                    == (if k % (cols as int) == cols - 1 && k / (cols as int) < row + 1 {
                    Glyph { ch: '|', color: None }
                } else {
                    old(self).buffer@[k]
                }) by {
                    if k != idx && k % (cols as int) == cols - 1 && k / (cols as int) == row as int {
                        vstd::arithmetic::div_mod::lemma_fundamental_div_mod(k, cols as int);
                        assert(k == cols as int * (row as int) + (cols as int - 1));
                        assert(k == idx) by (nonlinear_arith)
                            requires
                                k == cols as int * (row as int) + (cols as int - 1),
                                idx == row as int * (cols as int) + (cols as int - 1),
                        ;
                    }
                }
            }
            row = row + 1;
        }
        proof {
            assert forall|k: int| 0 <= k < self.buffer@.len() implies #[trigger] (k / (
            cols as int)) < rows as int by {
                vstd::arithmetic::div_mod::lemma_multiply_divide_lt(k, cols as int, rows as int);
                assert(k < cols as int * rows as int) by (nonlinear_arith)
                    requires
                        k < self.buffer@.len(),
                        self.buffer@.len() == rows * cols,
                ;
            }
        }
        Ok(())
    }

    /// The character currently at the given column and row of the backing buffer.
    pub fn char_at(&self, x: usize, y: usize) -> (c: char)
        requires
            self.wf(),
            x < self.cols,
            y < self.rows,
        ensures
            c == self.buffer@[y as int * self.cols as int + x as int].ch,
    {
        proof {
            crate::cellular::lemma_row_major_index(
                y as int,
                x as int,
                self.cols as int,
                self.rows as int,
            );
            assert(self.cols * self.rows == self.rows * self.cols) by (nonlinear_arith);
        }
        self.buffer[y * self.cols + x].ch
    }

    /// The color stored at column x, row y of the backing buffer, if any.
    pub fn color_at(&self, x: usize, y: usize) -> (c: Option<ColorPair>)
        requires
            self.wf(),
            x < self.cols,
            y < self.rows,
        ensures
            c == self.buffer@[y as int * self.cols as int + x as int].color,
    {
        proof {
            crate::cellular::lemma_row_major_index(
                y as int,
                x as int,
                self.cols as int,
                self.rows as int,
            );
            assert(self.cols * self.rows == self.rows * self.cols) by (nonlinear_arith);
        }
        self.buffer[y * self.cols + x].color
    }

    /// Reports the surface dimensions through the two out-parameters.
    pub fn getmaxyx(&self, y: &mut i32, x: &mut i32)
        requires
            self.wf(),
        ensures
            *final(y) == self.rows as i32,
            *final(x) == self.cols as i32,
    {
        *y = self.rows as i32;
        *x = self.cols as i32;
    }

    pub fn get_x(&self) -> (x: i32)
        ensures
            x == self.x,
    {
        self.x
    }

    pub fn get_y(&self) -> (y: i32)
        ensures
            y == self.y,
    {
        self.y
    }

    pub fn set_x(&mut self, x: i32)
        ensures
            (*final(self) == Window { x, ..*old(self) }),
    {
        self.x = x;
    }

    pub fn set_y(&mut self, y: i32)
        ensures
            (*final(self) == Window { y, ..*old(self) }),
    {
        self.y = y;
    }

    /// Moves the origin right by `x` columns (left if negative).
    pub fn inc_x(&mut self, x: i32)
        requires
            i32::MIN <= old(self).x + x <= i32::MAX,
        ensures
            (*final(self) == Window { x: (old(self).x + x) as i32, ..*old(self) }),
    {
        self.x = self.x + x;
    }

    /// Moves the origin down by `y` rows (up if negative).
    pub fn inc_y(&mut self, y: i32)
        requires
            i32::MIN <= old(self).y + y <= i32::MAX,
        ensures
            (*final(self) == Window { y: (old(self).y + y) as i32, ..*old(self) }),
    {
        self.y = self.y + y;
    }

    pub fn get_rows(&self) -> (rows: i32)
        requires
            self.wf(),
        ensures
            rows == self.rows as i32,
    {
        self.rows as i32
    }

    pub fn get_cols(&self) -> (cols: i32)
        requires
            self.wf(),
        ensures
            cols == self.cols as i32,
    {
        self.cols as i32
    }
}

/// The fixed help line shown under the frame.
pub open spec fn help_line() -> Seq<char> {
    "q: Quit, a: increase timeout, s: decrease timeout"@
}

/// The help line as a character vector.
pub fn help_text() -> (t: Vec<char>)
    ensures
        t@ == help_line(),
{
    let s = "q: Quit, a: increase timeout, s: decrease timeout";
    proof {
        reveal_strlit("q: Quit, a: increase timeout, s: decrease timeout");
    }
    let n: usize = s.unicode_len();
    let mut t: Vec<char> = Vec::new();
    let mut i: usize = 0;
    while i < n
        invariant
            n == s@.len(),
            i <= n,
            t@ =~= s@.subrange(0, i as int),
        decreases n - i,
    {
        t.push(s.get_char(i));
        i = i + 1;
    }
    proof {
        assert(t@ =~= s@);
    }
    t
}

/// The glyph at index `k` after one frame is drawn over a surface that
/// held `buf`: the frame's own character inside the nrows-by-ncols grid,
/// the help line on the row right below the grid, the old glyph elsewhere.
pub open spec fn drawn_glyph(
    buf: Seq<Glyph>,
    cols: int,
    chars: Seq<char>,
    nrows: int,
    ncols: int,
    k: int,
) -> Glyph {
    let row = k / cols;
    let col = k % cols;
    if row < nrows && col < ncols {
        Glyph { ch: chars[row * ncols + col], color: None }
    } else if row == nrows && col < help_line().len() {
        Glyph { ch: help_line()[col], color: None }
    } else {
        buf[k]
    }
}

/// Writes one frame into the window: the composited nrows-by-ncols
/// character grid, one character per cell from the top left, then the
/// fixed help line on the row below it. Fails — and leaves the buffer
/// untouched — exactly when the grid plus help line do not fit.
#[verifier::loop_isolation(false)]
pub fn draw(window: &mut Window, chars: &Vec<char>, nrows: usize, ncols: usize) -> (r: Result<
    (),
    RenderError,
>)
    requires
        old(window).wf(),
        chars.len() == nrows * ncols,
    ensures
        final(window).wf(),
        final(window).rows == old(window).rows,
        final(window).cols == old(window).cols,
        final(window).x == old(window).x,
        final(window).y == old(window).y,
        final(window).buffer@.len() == old(window).buffer@.len(),
        r is Ok <==> (nrows < old(window).rows && ncols <= old(window).cols && help_line().len()
            <= old(window).cols),
        r is Err ==> r == Result::<(), RenderError>::Err(RenderError::OutOfBounds)
            && final(window).buffer@ == old(window).buffer@,
        r is Ok ==> forall|k: int|
            0 <= k < old(window).buffer@.len() ==> #[trigger] final(window).buffer@[k]
                == drawn_glyph(
                old(window).buffer@,
                old(window).cols as int,
                chars@,
                nrows as int,
                ncols as int,
                k,
            ),
{
    let rows: usize = window.rows;
    let cols: usize = window.cols;
    let help = help_text();
    if !(nrows < rows && ncols <= cols && help.len() <= cols) {
        return Err(RenderError::OutOfBounds);
    }
    let ghost cols_i = cols as int;
    let ghost nrows_i = nrows as int;
    let ghost ncols_i = ncols as int;
    let mut row: usize = 0;
    while row < nrows
        invariant
            row <= nrows,
            window.rows == old(window).rows,
            window.cols == old(window).cols,
            window.x == old(window).x,
            window.y == old(window).y,
            window.buffer@.len() == old(window).buffer@.len(),
            forall|k: int|
                0 <= k < window.buffer@.len() ==> #[trigger] window.buffer@[k] == (if k / cols_i
                    < row as int && k % cols_i < ncols_i {
                    Glyph { ch: chars@[(k / cols_i) * ncols_i + k % cols_i], color: None }
                } else {
                    old(window).buffer@[k]
                }),
        decreases nrows - row,
    {
        let mut col: usize = 0;
        while col < ncols
            invariant
                row < nrows,
                col <= ncols,
                window.rows == old(window).rows,
                window.cols == old(window).cols,
                window.x == old(window).x,
                window.y == old(window).y,
                window.buffer@.len() == old(window).buffer@.len(),
                forall|k: int|
                    0 <= k < window.buffer@.len() ==> #[trigger] window.buffer@[k] == (if (k
                        / cols_i < row as int && k % cols_i < ncols_i) || (k / cols_i == row as int
                        && k % cols_i < col as int) {
                        Glyph { ch: chars@[(k / cols_i) * ncols_i + k % cols_i], color: None }
                    } else {
                        old(window).buffer@[k]
                    }),
            decreases ncols - col,
        {
            proof {
                crate::cellular::lemma_row_major_index(row as int, col as int, ncols_i, nrows_i);
                assert(ncols_i * nrows_i == nrows_i * ncols_i) by (nonlinear_arith);
                crate::cellular::lemma_row_major_index(
                    row as int,
                    col as int,
                    cols_i,
                    window.rows as int,
                );
            }
            let ghost prev = window.buffer@;
            let ghost idx = row as int * cols_i + col as int;
            let mut one: Vec<char> = Vec::new();
            one.push(chars[row * ncols + col]);
            let res = window.print(col as i32, row as i32, &one, None);
            match res {
                Ok(()) => {},
                Err(e) => {
                    proof {
                        assert(false);
                    }
                    return Err(e);
                },
            }
            proof {
                assert forall|k: int| 0 <= k < window.buffer@.len() implies #[trigger] window
                    .buffer@[k] == (if (k / cols_i < row as int && k % cols_i < ncols_i) || (k
                    / cols_i == row as int && k % cols_i < col as int + 1) {
                    Glyph { ch: chars@[(k / cols_i) * ncols_i + k % cols_i], color: None }
                } else {
                    old(window).buffer@[k]
                }) by {
                    if k == idx {
                        assert(window.buffer@[k] == Glyph { ch: one@[0], color: None });
                        assert(one@[0] == chars@[row as int * ncols_i + col as int]);
                        assert(k / cols_i == row as int && k % cols_i == col as int);
                    } else {
                        assert(window.buffer@[k] == prev[k]);
                        if k / cols_i == row as int && k % cols_i == col as int {
                            vstd::arithmetic::div_mod::lemma_fundamental_div_mod(k, cols_i);
                            assert(k == cols_i * (row as int) + col as int);
                            assert(k == idx) by (nonlinear_arith)
                                requires
                                    k == cols_i * (row as int) + col as int,
                                    idx == row as int * cols_i + col as int,
                            ;
                        }
                    }
                }
            }
            col = col + 1;
        }
        row = row + 1;
    }
    let mut col: usize = 0;
    while col < help.len()
        invariant
            col <= help@.len(),
            window.rows == old(window).rows,
            window.cols == old(window).cols,
            window.x == old(window).x,
            window.y == old(window).y,
            window.buffer@.len() == old(window).buffer@.len(),
            forall|k: int|
                0 <= k < window.buffer@.len() ==> #[trigger] window.buffer@[k] == (if k / cols_i
                    < nrows_i && k % cols_i < ncols_i {
                    Glyph { ch: chars@[(k / cols_i) * ncols_i + k % cols_i], color: None }
                } else if k / cols_i == nrows_i && k % cols_i < col as int {
                    Glyph { ch: help_line()[k % cols_i], color: None }
                } else {
                    old(window).buffer@[k]
                }),
        decreases help@.len() - col,
    {
        proof {
            crate::cellular::lemma_row_major_index(
                nrows_i,
                col as int,
                cols_i,
                window.rows as int,
            );
        }
        let ghost prev = window.buffer@;
        let ghost idx = nrows_i * cols_i + col as int;
        let mut one: Vec<char> = Vec::new();
        one.push(help[col]);
        let res = window.print(col as i32, nrows as i32, &one, None);
        match res {
            Ok(()) => {},
            Err(e) => {
                proof {
                    assert(false);
                }
                return Err(e);
            },
        }
        proof {
            assert forall|k: int| 0 <= k < window.buffer@.len() implies #[trigger] window.buffer@[k]
                == (if k / cols_i < nrows_i && k % cols_i < ncols_i {
                Glyph { ch: chars@[(k / cols_i) * ncols_i + k % cols_i], color: None }
            } else if k / cols_i == nrows_i && k % cols_i < col as int + 1 {
                Glyph { ch: help_line()[k % cols_i], color: None }
            } else {
                old(window).buffer@[k]
            }) by {
                if k == idx {
                    assert(window.buffer@[k] == Glyph { ch: one@[0], color: None });
                    assert(one@[0] == help_line()[col as int]);
                    assert(k / cols_i == nrows_i && k % cols_i == col as int);
                } else {
                    assert(window.buffer@[k] == prev[k]);
                    if k / cols_i == nrows_i && k % cols_i == col as int {
                        vstd::arithmetic::div_mod::lemma_fundamental_div_mod(k, cols_i);
                        assert(k == cols_i * nrows_i + col as int);
                        assert(k == idx) by (nonlinear_arith)
                            requires
                                k == cols_i * nrows_i + col as int,
                                idx == nrows_i * cols_i + col as int,
                        ;
                    }
                }
            }
        }
        col = col + 1;
    }
    Ok(())
}

} // verus!

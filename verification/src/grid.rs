//! The grid state machine: a fixed-size rectangular buffer of cells and one
//! cursor, which every operation keeps inside the grid's bounds.
//!
//! The grid applies print and cursor-motion operations; erase operations are
//! decoded into events by the interpreter but are not yet wired into grid
//! mutation, and printing past the bottom line overwrites the bottom line in
//! place rather than scrolling. Both are named extension points of this core,
//! not oversights.

use crate::attr::{default_attrs, Attributes};
use crate::digits::{dec_rep, push_decimal};
use vstd::prelude::*;
use vstd::string::StringExecFns;

verus! {

/// One grid position: a character and the attribute snapshot it was printed
/// with. Cells are overwritten wholesale on print, never partially mutated.
#[derive(Clone, Copy, Debug, PartialEq, Eq, Structural)]
pub struct Cell {
    pub character: char,
    pub attrs: Attributes,
}

/// The cell a fresh grid is filled with: a space with default attributes.
pub open spec fn default_cell() -> Cell {
    Cell { character: ' ', attrs: default_attrs() }
}

impl Default for Cell {
    fn default() -> (c: Cell)
        ensures
            c == default_cell(),
    {
        Cell { character: ' ', attrs: Attributes::default() }
    }
}

/// A zero-based `(row, col)` coordinate into the owning grid.
#[derive(Clone, Copy, Debug, PartialEq, Eq, Structural)]
pub struct Cursor {
    pub row: usize,
    pub col: usize,
}

impl Default for Cursor {
    fn default() -> (c: Cursor)
        ensures
            c == (Cursor { row: 0, col: 0 }),
    {
        Cursor { row: 0, col: 0 }
    }
}

/// The mathematical value of a [`Terminal`]: its dimensions, its cursor, and
/// its cells as one row-major sequence of length `rows * cols`.
pub struct GridV {
    pub rows: int,
    pub cols: int,
    pub row: int,
    pub col: int,
    pub cells: Seq<Cell>,
}

impl GridV {
    /// Well-formedness: at least one row and one column, a cell for every
    /// position, and — the standing invariant every operation maintains —
    /// the cursor strictly inside the bounds.
    pub open spec fn wf(self) -> bool {
        &&& 1 <= self.rows
        &&& 1 <= self.cols
        &&& self.cells.len() == self.rows * self.cols
        &&& 0 <= self.row < self.rows
        &&& 0 <= self.col < self.cols
    }

    /// The cell at row `r`, column `c`.
    pub open spec fn cell(self, r: int, c: int) -> Cell {
        self.cells[r * self.cols + c]
    }
}

/// What printing one character does: the cell under the cursor is replaced
/// by `Cell { ch, attrs }`, then the cursor advances one column; reaching
/// the right edge wraps it to column 0 of the next row, and falling off the
/// bottom pins it at the last row (no scrolling in this core).
pub open spec fn grid_print(g: GridV, ch: char, attrs: Attributes) -> GridV {
    let g2 = GridV { cells: g.cells.update(g.row * g.cols + g.col, Cell { character: ch, attrs }), ..g };
    if g.col + 1 < g.cols {
        GridV { col: g.col + 1, ..g2 }
    } else if g.row + 1 < g.rows {
        GridV { row: g.row + 1, col: 0, ..g2 }
    } else {
        GridV { row: g.rows - 1, col: 0, ..g2 }
    }
}

/// Printing a sequence of characters, left to right.
pub open spec fn grid_print_seq(g: GridV, chars: Seq<char>, attrs: Attributes) -> GridV
    decreases chars.len(),
{
    if chars.len() == 0 {
        g
    } else {
        grid_print_seq(grid_print(g, chars[0], attrs), chars.drop_first(), attrs)
    }
}

/// One axis of absolute positioning: the protocol's 1-based coordinate,
/// where 0 is treated as 1, converted to 0-based and clamped to the axis.
pub open spec fn clamp_axis(v: u16, dim: int) -> int {
    let v1: int = if v == 0 {
        1
    } else {
        v as int
    };
    if v1 - 1 < dim - 1 {
        v1 - 1
    } else {
        dim - 1
    }
}

/// What absolute positioning does: each axis independently per
/// [`clamp_axis`]; the cells do not change.
pub open spec fn grid_set_cursor(g: GridV, row: u16, col: u16) -> GridV {
    GridV { row: clamp_axis(row, g.rows), col: clamp_axis(col, g.cols), ..g }
}

/// Relative motion up: subtract, saturating at row 0.
pub open spec fn grid_cursor_up(g: GridV, n: u16) -> GridV {
    GridV { row: if n as int <= g.row { g.row - (n as int) } else { 0 }, ..g }
}

/// Relative motion down: add, clamping at the last row.
pub open spec fn grid_cursor_down(g: GridV, n: u16) -> GridV {
    GridV { row: if g.row + (n as int) < g.rows { g.row + (n as int) } else { g.rows - 1 }, ..g }
}

/// Relative motion right: add, clamping at the last column.
pub open spec fn grid_cursor_forward(g: GridV, n: u16) -> GridV {
    GridV { col: if g.col + (n as int) < g.cols { g.col + (n as int) } else { g.cols - 1 }, ..g }
}

/// Relative motion left: subtract, saturating at column 0.
pub open spec fn grid_cursor_back(g: GridV, n: u16) -> GridV {
    GridV { col: if n as int <= g.col { g.col - (n as int) } else { 0 }, ..g }
}

/// The characters of row `r`, attributes discarded.
pub open spec fn row_chars(g: GridV, r: int) -> Seq<char> {
    Seq::new(g.cols as nat, |c: int| g.cell(r, c).character)
}

/// The first `upto` rows rendered as newline-terminated lines.
pub open spec fn render_rows(g: GridV, upto: int) -> Seq<char>
    decreases upto,
{
    if upto <= 0 {
        Seq::empty()
    } else {
        render_rows(g, upto - 1) + row_chars(g, upto - 1).push('\n')
    }
}

/// The plain-text snapshot of the whole grid: characters only, row-major,
/// one newline-terminated line per row.
pub open spec fn render_spec(g: GridV) -> Seq<char> {
    render_rows(g, g.rows)
}

/// The characters standing for the cell at `(r, c)` in the debug overlay:
/// the cell under the cursor is wrapped in bracket markers.
pub open spec fn debug_cell_chars(g: GridV, r: int, c: int) -> Seq<char> {
    if r == g.row && c == g.col {
        seq!['[', g.cell(r, c).character, ']']
    } else {
        seq![g.cell(r, c).character]
    }
}

/// The first `upto` cells of row `r` in the debug overlay.
pub open spec fn debug_row_chars(g: GridV, r: int, upto: int) -> Seq<char>
    decreases upto,
{
    if upto <= 0 {
        Seq::empty()
    } else {
        debug_row_chars(g, r, upto - 1) + debug_cell_chars(g, r, upto - 1)
    }
}

/// The first `upto` rows of the debug overlay.
pub open spec fn debug_rows(g: GridV, upto: int) -> Seq<char>
    decreases upto,
{
    if upto <= 0 {
        Seq::empty()
    } else {
        debug_rows(g, upto - 1) + debug_row_chars(g, upto - 1, g.cols).push('\n')
    }
}

/// The debug overlay: every row with the cursor's cell bracketed, then a
/// trailing line reporting the cursor coordinates.
pub open spec fn debug_render_spec(g: GridV) -> Seq<char> {
    debug_rows(g, g.rows) + "Cursor: row="@ + dec_rep(g.row) + " col="@ + dec_rep(g.col) + seq![
        '\n',
    ]
}

/// A fixed `rows x cols` grid of cells and exactly one cursor. The grid owns
/// its cells; the cursor is a coordinate into it. Dimensions are fixed for
/// the lifetime of the instance (resizing is out of scope).
pub struct Terminal {
    pub grid: Vec<Cell>,
    pub cursor: Cursor,
    pub rows: usize,
    pub cols: usize,
}

impl View for Terminal {
    type V = GridV;

    open spec fn view(&self) -> GridV {
        GridV {
            rows: self.rows as int,
            cols: self.cols as int,
            row: self.cursor.row as int,
            col: self.cursor.col as int,
            cells: self.grid@,
        }
    }
}

impl Terminal {
    /// The row-major index of the cell at `(r, c)`.
    fn cell_index(&self, r: usize, c: usize) -> (idx: usize)
        requires
            self@.wf(),
            r < self.rows,
            c < self.cols,
        ensures
            idx == r * (self@.cols) + c,
            idx < self@.cells.len(),
    {
        // The cell count is a vector length, so it fits in a usize.
        let len = self.grid.len();
        proof {
            assert(len == self@.cells.len());
            let g = self@;
            assert(0 <= (r as int) * g.cols + c && (r as int) * g.cols + c < g.rows * g.cols
                && (r as int) * g.cols <= g.rows * g.cols) by (nonlinear_arith)
                requires
                    0 <= (r as int),
                    (r as int) < g.rows,
                    0 <= (c as int),
                    (c as int) < g.cols,
                    1 <= g.cols,
            ;
        }
        r * self.cols + c
    }

    /// Creates a grid of `rows * cols` default cells with the cursor at
    /// `(0, 0)`. A zero-sized grid cannot satisfy the cursor-in-bounds
    /// invariant, so both dimensions are required to be at least 1 (and the
    /// cell count must be addressable).
    pub fn new(cols: usize, rows: usize) -> (t: Terminal)
        requires
            1 <= cols,
            1 <= rows,
            rows * cols <= usize::MAX,
        ensures
            t@.wf(),
            t@.rows == rows,
            t@.cols == cols,
            t@.row == 0,
            t@.col == 0,
            forall|i: int| 0 <= i < rows * cols ==> t@.cells[i] == default_cell(),
    {
        let n = rows * cols;
        let mut grid: Vec<Cell> = Vec::new();
        let mut i: usize = 0;
        while i < n
            invariant
                i <= n,
                grid@.len() == i,
                forall|j: int| 0 <= j < i ==> grid@[j] == default_cell(),
            decreases n - i,
        {
            grid.push(Cell::default());
            i = i + 1;
        }
        Terminal { grid, cursor: Cursor { row: 0, col: 0 }, rows, cols }
    }

    /// Writes `Cell { ch, attrs }` at the cursor and advances it, wrapping
    /// at the right edge and pinning at the bottom line, per [`grid_print`].
    /// This is the single place character data enters the grid.
    pub fn print(&mut self, ch: char, attrs: Attributes)
        requires
            old(self)@.wf(),
        ensures
            final(self)@ == grid_print(old(self)@, ch, attrs),
            final(self)@.wf(),
    {
        let idx = self.cell_index(self.cursor.row, self.cursor.col);
        self.grid[idx] = Cell { character: ch, attrs };
        if self.cursor.col + 1 < self.cols {
            self.cursor.col = self.cursor.col + 1;
        } else if self.cursor.row + 1 < self.rows {
            self.cursor.row = self.cursor.row + 1;
            self.cursor.col = 0;
        } else {
            self.cursor.row = self.rows - 1;
            self.cursor.col = 0;
        }
    }

    /// Moves the cursor to the protocol's 1-based coordinates, treating 0 as
    /// 1 and clamping each axis independently, per [`grid_set_cursor`].
    /// Out-of-range requests clamp silently; they never error.
    pub fn set_cursor_position(&mut self, row: u16, col: u16)
        requires
            old(self)@.wf(),
        ensures
            final(self)@ == grid_set_cursor(old(self)@, row, col),
            final(self)@.wf(),
    {
        let r1: u16 = if row == 0 {
            1
        } else {
            row
        };
        let c1: u16 = if col == 0 {
            1
        } else {
            col
        };
        let r0 = (r1 - 1) as usize;
        let c0 = (c1 - 1) as usize;
        self.cursor.row = if r0 < self.rows - 1 {
            r0
        } else {
            self.rows - 1
        };
        self.cursor.col = if c0 < self.cols - 1 {
            c0
        } else {
            self.cols - 1
        };
    }

    /// Moves the cursor up by `n`, saturating at row 0.
    pub fn cursor_up(&mut self, n: u16)
        requires
            old(self)@.wf(),
        ensures
            final(self)@ == grid_cursor_up(old(self)@, n),
            final(self)@.wf(),
    {
        let n = n as usize;
        if n <= self.cursor.row {
            self.cursor.row = self.cursor.row - n;
        } else {
            self.cursor.row = 0;
        }
    }

    /// Moves the cursor down by `n`, clamping at the last row.
    pub fn cursor_down(&mut self, n: u16)
        requires
            old(self)@.wf(),
        ensures
            final(self)@ == grid_cursor_down(old(self)@, n),
            final(self)@.wf(),
    {
        let n = n as usize;
        if n < self.rows - self.cursor.row {
            self.cursor.row = self.cursor.row + n;
        } else {
            self.cursor.row = self.rows - 1;
        }
    }

    /// Moves the cursor right by `n`, clamping at the last column.
    pub fn cursor_forward(&mut self, n: u16)
        requires
            old(self)@.wf(),
        ensures
            final(self)@ == grid_cursor_forward(old(self)@, n),
            final(self)@.wf(),
    {
        let n = n as usize;
        if n < self.cols - self.cursor.col {
            self.cursor.col = self.cursor.col + n;
        } else {
            self.cursor.col = self.cols - 1;
        }
    }

    /// Moves the cursor left by `n`, saturating at column 0.
    pub fn cursor_back(&mut self, n: u16)
        requires
            old(self)@.wf(),
        ensures
            final(self)@ == grid_cursor_back(old(self)@, n),
            final(self)@.wf(),
    {
        let n = n as usize;
        if n <= self.cursor.col {
            self.cursor.col = self.cursor.col - n;
        } else {
            self.cursor.col = 0;
        }
    }

    /// The grid's characters only, row-major, one newline-terminated line
    /// per row: a lossy plain-text snapshot, attributes discarded.
    pub fn render_to_string(&self) -> (out: String)
        requires
            self@.wf(),
        ensures
            out@ == render_spec(self@),
    {
        let ghost g = self@;
        let mut out = String::new();
        let mut r: usize = 0;
        while r < self.rows
            invariant
                g == self@,
                g.wf(),
                r <= self.rows,
                out@ == render_rows(g, r as int),
            decreases self.rows - r,
        {
            let mut c: usize = 0;
            while c < self.cols
                invariant
                    g == self@,
                    g.wf(),
                    r < self.rows,
                    c <= self.cols,
                    out@ == render_rows(g, r as int) + row_chars(g, r as int).take(c as int),
                decreases self.cols - c,
            {
                let idx = self.cell_index(r, c);
                out.push(self.grid[idx].character);
                proof {
                    assert(row_chars(g, r as int).take(c as int).push(g.cell(r as int, c as int).character)
                        =~= row_chars(g, r as int).take(c as int + 1));
                    assert(out@ =~= render_rows(g, r as int) + row_chars(g, r as int).take(
                        c as int + 1,
                    ));
                }
                c = c + 1;
            }
            out.push('\n');
            proof {
                assert(row_chars(g, r as int).take(g.cols) =~= row_chars(g, r as int));
                assert(out@ =~= render_rows(g, r as int) + row_chars(g, r as int).push('\n'));
                assert(out@ =~= render_rows(g, r as int + 1));
            }
            r = r + 1;
        }
        out
    }

    /// Like [`Terminal::render_to_string`], but the cell under the cursor is
    /// wrapped in bracket markers and a trailing line reports the numeric
    /// cursor coordinates — intended for test assertions and diagnostics.
    pub fn debug_render(&self) -> (out: String)
        requires
            self@.wf(),
        ensures
            out@ == debug_render_spec(self@),
    {
        let ghost g = self@;
        let mut out = String::new();
        let mut r: usize = 0;
        while r < self.rows
            invariant
                g == self@,
                g.wf(),
                r <= self.rows,
                out@ == debug_rows(g, r as int),
            decreases self.rows - r,
        {
            let mut c: usize = 0;
            while c < self.cols
                invariant
                    g == self@,
                    g.wf(),
                    r < self.rows,
                    c <= self.cols,
                    out@ == debug_rows(g, r as int) + debug_row_chars(g, r as int, c as int),
                decreases self.cols - c,
            {
                let idx = self.cell_index(r, c);
                let ch = self.grid[idx].character;
                if r == self.cursor.row && c == self.cursor.col {
                    out.push('[');
                    out.push(ch);
                    out.push(']');
                } else {
                    out.push(ch);
                }
                proof {
                    assert(out@ =~= debug_rows(g, r as int) + debug_row_chars(
                        g,
                        r as int,
                        c as int + 1,
                    ));
                }
                c = c + 1;
            }
            out.push('\n');
            proof {
                assert(out@ =~= debug_rows(g, r as int + 1));
            }
            r = r + 1;
        }
        out.append("Cursor: row=");
        push_decimal(&mut out, self.cursor.row);
        out.append(" col=");
        push_decimal(&mut out, self.cursor.col);
        out.push('\n');
        proof {
            assert(out@ =~= debug_render_spec(g));
        }
        out
    }
}

/// Printing one character does not change the dimensions and keeps the grid
/// well-formed.
pub proof fn lemma_print_wf(g: GridV, ch: char, attrs: Attributes)
    requires
        g.wf(),
    ensures
        grid_print(g, ch, attrs).wf(),
        grid_print(g, ch, attrs).rows == g.rows,
        grid_print(g, ch, attrs).cols == g.cols,
{
    assert(0 <= g.row * g.cols + g.col < g.rows * g.cols) by (nonlinear_arith)
        requires
            0 <= g.row,
            g.row < g.rows,
            0 <= g.col,
            g.col < g.cols,
            1 <= g.cols,
    ;
}

/// Filling the rest of a row advances the cursor to the start of the next
/// row, or pins it at the start of the last row.
proof fn lemma_fill_row(g: GridV, chars: Seq<char>, attrs: Attributes)
    requires
        g.wf(),
        chars.len() >= 1,
        g.col + chars.len() == g.cols,
    ensures
        ({
            let g2 = grid_print_seq(g, chars, attrs);
            &&& g2.wf()
            &&& g2.rows == g.rows
            &&& g2.cols == g.cols
            &&& g2.col == 0
            &&& g2.row == if g.row + 1 < g.rows {
                g.row + 1
            } else {
                g.rows - 1
            }
        }),
    decreases chars.len(),
{
    reveal_with_fuel(grid_print_seq, 2);
    let g1 = grid_print(g, chars[0], attrs);
    lemma_print_wf(g, chars[0], attrs);
    if chars.len() == 1 {
        assert(chars.drop_first().len() == 0);
    } else {
        lemma_fill_row(g1, chars.drop_first(), attrs);
    }
}

/// Wrap law: printing exactly `cols` characters into a row whose cursor
/// stands at column 0 leaves the cursor at `(row + 1, 0)`, or pinned at
/// `(rows - 1, 0)` when the row was already the last.
pub proof fn lemma_wrap(g: GridV, chars: Seq<char>, attrs: Attributes)
    requires
        g.wf(),
        g.col == 0,
        chars.len() == g.cols,
    ensures
        grid_print_seq(g, chars, attrs).col == 0,
        grid_print_seq(g, chars, attrs).row == if g.row + 1 < g.rows {
            g.row + 1
        } else {
            g.rows - 1
        },
{
    lemma_fill_row(g, chars, attrs);
}

/// Clamp law, first half: the home requests `(0, 0)` and `(1, 1)` position
/// the cursor identically (a 0 coordinate is treated as 1).
pub proof fn lemma_set_cursor_home(g: GridV)
    requires
        g.wf(),
    ensures
        grid_set_cursor(g, 0, 0) == grid_set_cursor(g, 1, 1),
{
}

/// Clamp law, second half: requests at or beyond the dimensions clamp to
/// the bottom-right cell.
pub proof fn lemma_set_cursor_clamps(g: GridV, row: u16, col: u16)
    requires
        g.wf(),
        g.rows <= row as int,
        g.cols <= col as int,
    ensures
        grid_set_cursor(g, row, col).row == g.rows - 1,
        grid_set_cursor(g, row, col).col == g.cols - 1,
{
}

} // verus!

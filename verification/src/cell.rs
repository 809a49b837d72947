//! Cells, rows and the mathematical view of a row.

use vstd::prelude::*;
use crate::color::Color;

verus! {

/// One grid position: the character shown and the pen it was written with.
#[derive(Clone, Copy, Debug, PartialEq, Eq, Structural)]
pub struct Cell {
    pub c: char,
    pub fg: Color,
    pub bg: Color,
    pub bold: bool,
    pub dim: bool,
}

/// The cell of an erased position: a space in the default colours.
pub open spec fn blank_cell() -> Cell {
    Cell { c: ' ', fg: Color::Foreground, bg: Color::Background, bold: false, dim: false }
}

/// Whether a character counts as empty when trailing cells are trimmed.
pub open spec fn is_blank_char(c: char) -> bool {
    c == ' ' || c == '\0'
}

impl Cell {
    /// The cell of an erased position.
    pub fn blank() -> (r: Cell)
        ensures
            r == blank_cell(),
    {
        Cell { c: ' ', fg: Color::Foreground, bg: Color::Background, bold: false, dim: false }
    }

    /// Whether the cell shows a space or nothing.
    pub fn is_blank(&self) -> (r: bool)
        ensures
            r == is_blank_char(self.c),
    {
        self.c == ' ' || self.c == '\0'
    }
}

impl Default for Cell {
    fn default() -> (r: Cell)
        ensures
            r == blank_cell(),
    {
        Cell::blank()
    }
}

/// A row as contracts see it: its cells and whether it continues on the next row.
pub struct Line {
    pub cells: Seq<Cell>,
    pub wrapped: bool,
}

/// `n` copies of `cell`.
pub open spec fn fill(n: int, cell: Cell) -> Seq<Cell> {
    Seq::new(n as nat, |i: int| cell)
}

/// An erased row of `n` cells that ends its logical line.
pub open spec fn blank_line(n: int) -> Line {
    Line { cells: fill(n, blank_cell()), wrapped: false }
}

/// `n` erased rows of `cols` cells each.
pub open spec fn blank_lines(n: int, cols: int) -> Seq<Line> {
    Seq::new(n as nat, |i: int| blank_line(cols))
}

/// A row of the grid or of the scrollback.
#[derive(Debug)]
pub struct Row {
    pub cells: Vec<Cell>,
    pub wrapped: bool,
}

impl View for Row {
    type V = Line;

    open spec fn view(&self) -> Line {
        Line { cells: self.cells@, wrapped: self.wrapped }
    }
}

/// The views of a sequence of rows.
pub open spec fn lines_of(rows: Seq<Row>) -> Seq<Line> {
    Seq::new(rows.len(), |i: int| rows[i]@)
}

impl Row {
    /// A row of `cols` copies of `blank` that ends its logical line.
    pub fn new(cols: usize, blank: &Cell) -> (r: Row)
        ensures
            r@ == (Line { cells: fill(cols as int, *blank), wrapped: false }),
    {
        let r = Row { cells: vec![*blank; cols], wrapped: false };
        assert(r.cells@ =~= fill(cols as int, *blank));
        r
    }
}

impl Clone for Row {
    fn clone(&self) -> (r: Row)
        ensures
            r@ == self@,
    {
        let mut cells: Vec<Cell> = Vec::new();
        let mut i: usize = 0;
        while i < self.cells.len()
            invariant
                i <= self.cells.len(),
                cells@ == self.cells@.take(i as int),
            decreases self.cells.len() - i,
        {
            cells.push(self.cells[i]);
            i += 1;
        }
        assert(self.cells@.take(self.cells.len() as int) == self.cells@);
        Row { cells, wrapped: self.wrapped }
    }
}

} // verus!

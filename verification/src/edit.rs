//! Writing characters, erasing, and inserting and deleting cells in a row.

use vstd::prelude::*;
use crate::cell::{blank_cell, blank_line, blank_lines, fill, lines_of, Cell, Line, Row};
use crate::scroll::lemma_scroll_wf;
use crate::state::{uniform, Cursor, Screen, TerminalState};

verus! {

/// `cells` with the positions `a .. b` erased.
pub open spec fn blank_span(cells: Seq<Cell>, a: int, b: int) -> Seq<Cell> {
    Seq::new(
        cells.len(),
        |i: int|
            if a <= i < b {
                blank_cell()
            } else {
                cells[i]
            },
    )
}

/// `cells` with `n` cells taken out at `col`: what lay to the right moves
/// left and erased cells fill up the end.
pub open spec fn cells_deleted(cells: Seq<Cell>, col: int, n: int) -> Seq<Cell> {
    Seq::new(
        cells.len(),
        |i: int|
            if i < col {
                cells[i]
            } else if i + n < cells.len() {
                cells[i + n]
            } else {
                blank_cell()
            },
    )
}

/// `cells` with `n` erased cells put in at `col`: what lay there moves right
/// and what is pushed past the end is lost.
pub open spec fn cells_inserted(cells: Seq<Cell>, col: int, n: int) -> Seq<Cell> {
    Seq::new(
        cells.len(),
        |i: int|
            if i < col {
                cells[i]
            } else if i - n >= col {
                cells[i - n]
            } else {
                blank_cell()
            },
    )
}

/// The row erased from `col` on; it then ends its logical line.
pub open spec fn erased_from(line: Line, col: int) -> Line {
    Line { cells: blank_span(line.cells, col, line.cells.len() as int), wrapped: false }
}

/// The row erased up to and including `col`. If that is all of it, it then
/// ends its logical line.
pub open spec fn erased_to(line: Line, col: int) -> Line {
    Line {
        cells: blank_span(line.cells, 0, col + 1),
        wrapped: line.wrapped && col + 1 < line.cells.len(),
    }
}

/// `g` with the cells of row `y` replaced.
pub open spec fn with_cells(g: Seq<Line>, y: int, cells: Seq<Cell>) -> Seq<Line> {
    g.update(y, Line { cells, wrapped: g[y].wrapped })
}

/// The grid after erasing part of the display around row `y`, column `col`:
/// from there to the end (`mode` 0), from the start to there (1), or all of
/// it (2 and 3). Rows erased whole end their logical line, and so does a row
/// that is erased from some column on. Any other mode erases nothing.
pub open spec fn display_erased(g: Seq<Line>, y: int, col: int, mode: int, cols: int) -> Seq<
    Line,
> {
    if mode == 0 {
        Seq::new(
            g.len(),
            |r: int|
                if r < y {
                    g[r]
                } else if r == y {
                    erased_from(g[r], col)
                } else {
                    blank_line(cols)
                },
        )
    } else if mode == 1 {
        Seq::new(
            g.len(),
            |r: int|
                if r < y {
                    blank_line(cols)
                } else if r == y {
                    erased_to(g[r], col)
                } else {
                    g[r]
                },
        )
    } else if mode == 2 || mode == 3 {
        blank_lines(g.len() as int, cols)
    } else {
        g
    }
}

/// The grid after erasing part of row `y` around column `col`: from there on
/// (`mode` 0), up to there (1), or all of it (2). Any other mode erases
/// nothing.
pub open spec fn line_erased(g: Seq<Line>, y: int, col: int, mode: int, cols: int) -> Seq<Line> {
    if mode == 0 {
        g.update(y, erased_from(g[y], col))
    } else if mode == 1 {
        g.update(y, erased_to(g[y], col))
    } else if mode == 2 {
        g.update(y, blank_line(cols))
    } else {
        g
    }
}

impl Screen {
    /// The cell that the pen writes for `c`.
    pub open spec fn inked(self, c: char) -> Cell {
        Cell { c, fg: self.pen.fg, bg: self.pen.bg, bold: self.pen.bold, dim: self.pen.dim }
    }

    /// The screen with the cells of the cursor's row replaced.
    pub open spec fn with_row_cells(self, cells: Seq<Cell>) -> Screen {
        Screen { grid: with_cells(self.grid, self.cursor.y, cells), ..self }
    }

    /// The screen with the cursor's row replaced.
    pub open spec fn with_row(self, line: Line) -> Screen {
        Screen { grid: self.grid.update(self.cursor.y, line), ..self }
    }

    /// Erases part of the display around the cursor and asks for a redraw.
    pub open spec fn erase_in_display(self, mode: int) -> Screen {
        Screen {
            grid: display_erased(self.grid, self.cursor.y, self.column(), mode, self.cols),
            ..self.dirtied()
        }
    }

    /// Erases part of the cursor's row and asks for a redraw.
    pub open spec fn erase_in_line(self, mode: int) -> Screen {
        Screen {
            grid: line_erased(self.grid, self.cursor.y, self.column(), mode, self.cols),
            ..self.dirtied()
        }
    }

    /// Forgets the history and erases the screen, cursor to the top left.
    pub open spec fn clear_scrollback_and_screen(self) -> Screen {
        Screen {
            grid: blank_lines(self.rows, self.cols),
            scrollback: Seq::empty(),
            cursor: Cursor { x: 0, y: 0, wrap_pending: false },
            ..self.dirtied().reset_scroll()
        }
    }

    /// `n` cells go from the cursor's row at the cursor; a pending wrap
    /// leaves the row as it is.
    pub open spec fn delete_chars(self, n: int) -> Screen {
        self.with_row_cells(cells_deleted(self.grid[self.cursor.y].cells, self.column(), n))
    }

    /// `n` erased cells come into the cursor's row at the cursor, and a
    /// redraw is asked for.
    pub open spec fn insert_chars(self, n: int) -> Screen {
        self.with_row_cells(
            cells_inserted(self.grid[self.cursor.y].cells, self.column(), n),
        ).dirtied()
    }

    /// `n` cells of the cursor's row are erased from the cursor on.
    pub open spec fn erase_chars(self, n: int) -> Screen {
        self.with_row_cells(
            blank_span(self.grid[self.cursor.y].cells, self.column(), self.column() + n),
        )
    }

    /// What a pending wrap turns into when the next character arrives: with
    /// auto-wrap the row is marked as continued and the cursor moves to the
    /// start of the next row; without, the cursor stays on the last column.
    pub open spec fn settle_wrap(self) -> Screen {
        if !self.cursor.wrap_pending {
            self
        } else if !self.modes.auto_wrap {
            self.at_column(self.cols - 1)
        } else {
            self.with_row(
                Line { cells: self.grid[self.cursor.y].cells, wrapped: true },
            ).at_column(0).newline()
        }
    }

    /// The cursor's cell takes `c` in the pen's look. In insert mode the rest
    /// of the row first moves one cell to the right.
    pub open spec fn write_cell(self, c: char) -> Screen {
        let cells = self.grid[self.cursor.y].cells;
        let moved = if self.modes.insert_mode {
            cells_inserted(cells, self.cursor.x, 1)
        } else {
            cells
        };
        self.with_row_cells(moved.update(self.cursor.x, self.inked(c)))
    }

    /// Writes `c` at the cursor and moves on by one column. Output brings the
    /// view back to the live screen unless the user holds it in the history.
    pub open spec fn put_char(self, c: char) -> Screen {
        let s = if self.viewport.user_scrolled {
            self.touched()
        } else {
            self.touched().reset_scroll()
        };
        let w = s.settle_wrap().write_cell(c);
        w.at_column(w.cursor.x + 1)
    }
}

/// Erases `cells[a .. b]`.
fn blank_cells(cells: &mut Vec<Cell>, a: usize, b: usize)
    requires
        b <= old(cells).len(),
    ensures
        final(cells)@ == blank_span(old(cells)@, a as int, b as int),
{
    let blank = Cell::blank();
    let mut i: usize = a;
    while i < b
        invariant
            b <= cells.len(),
            cells.len() == old(cells).len(),
            a <= i,
            i <= b || i == a,
            blank == blank_cell(),
            forall|j: int| 0 <= j < cells.len() ==> cells@[j] == (if a <= j < i {
                blank_cell()
            } else {
                old(cells)@[j]
            }),
        decreases b - i,
    {
        cells[i] = blank;
        i += 1;
    }
    assert(cells@ =~= blank_span(old(cells)@, a as int, b as int));
}

/// Takes `n` cells out of `cells` at `col`.
fn delete_cells(cells: &mut Vec<Cell>, col: usize, n: usize)
    ensures
        final(cells)@ == cells_deleted(old(cells)@, col as int, n as int),
{
    let blank = Cell::blank();
    let len = cells.len();
    let mut i: usize = col;
    while i < len
        invariant
            len == cells.len(),
            cells.len() == old(cells).len(),
            col <= i,
            blank == blank_cell(),
            forall|j: int| 0 <= j < i && j < len ==> cells@[j] == cells_deleted(
                old(cells)@,
                col as int,
                n as int,
            )[j],
            forall|j: int| i <= j < len ==> cells@[j] == old(cells)@[j],
        decreases len - i,
    {
        if n < len - i {
            let moved = cells[i + n];
            cells[i] = moved;
        } else {
            cells[i] = blank;
        }
        i += 1;
    }
    assert(cells@ =~= cells_deleted(old(cells)@, col as int, n as int));
}

/// Puts `n` erased cells into `cells` at `col`.
fn insert_cells(cells: &mut Vec<Cell>, col: usize, n: usize)
    ensures
        final(cells)@ == cells_inserted(old(cells)@, col as int, n as int),
{
    let blank = Cell::blank();
    let len = cells.len();
    let mut i: usize = len;
    while i > col
        invariant
            len == cells.len(),
            cells.len() == old(cells).len(),
            i <= len,
            blank == blank_cell(),
            forall|j: int| i <= j < len ==> cells@[j] == cells_inserted(
                old(cells)@,
                col as int,
                n as int,
            )[j],
            forall|j: int| 0 <= j < i && j < len ==> cells@[j] == old(cells)@[j],
        decreases i,
    {
        i -= 1;
        if i - col >= n {
            let moved = cells[i - n];
            cells[i] = moved;
        } else {
            cells[i] = blank;
        }
    }
    assert(cells@ =~= cells_inserted(old(cells)@, col as int, n as int));
}

/// Erases rows `a .. b` of `grid` whole.
fn blank_rows_between(grid: &mut Vec<Row>, a: usize, b: usize, cols: usize)
    requires
        b <= old(grid).len(),
    ensures
        final(grid).len() == old(grid).len(),
        lines_of(final(grid)@) == Seq::new(
            old(grid).len() as nat,
            |r: int|
                if a <= r < b {
                    blank_line(cols as int)
                } else {
                    lines_of(old(grid)@)[r]
                },
        ),
{
    let blank = Cell::blank();
    let mut i: usize = a;
    while i < b
        invariant
            b <= grid.len(),
            grid.len() == old(grid).len(),
            a <= i,
            i <= b || i == a,
            blank == blank_cell(),
            forall|j: int| 0 <= j < grid.len() ==> (#[trigger] grid@[j])@ == (if a <= j < i {
                blank_line(cols as int)
            } else {
                old(grid)@[j]@
            }),
        decreases b - i,
    {
        grid[i] = Row::new(cols, &blank);
        i += 1;
    }
    assert(lines_of(grid@) =~= Seq::new(
        old(grid).len() as nat,
        |r: int|
            if a <= r < b {
                blank_line(cols as int)
            } else {
                lines_of(old(grid)@)[r]
            },
    ));
}

/// Erased rows have the width they were made with.
pub proof fn lemma_blank_lines_uniform(n: int, cols: int)
    requires
        0 <= n,
        0 <= cols,
    ensures
        uniform(blank_lines(n, cols), cols),
        blank_lines(n, cols).len() == n,
{
}

/// Erasing keeps the screen's invariant.
pub proof fn lemma_erase_wf(s: Screen, mode: int)
    requires
        s.wf(),
    ensures
        s.erase_in_display(mode).wf(),
        s.erase_in_line(mode).wf(),
        s.clear_scrollback_and_screen().wf(),
{
    let d = s.erase_in_display(mode);
    assert forall|i: int| 0 <= i < d.grid.len() implies (#[trigger] d.grid[i]).cells.len()
        == d.cols by {
        assert(s.grid[i].cells.len() == s.cols);
    }
    let l = s.erase_in_line(mode);
    assert forall|i: int| 0 <= i < l.grid.len() implies (#[trigger] l.grid[i]).cells.len()
        == l.cols by {
        assert(s.grid[i].cells.len() == s.cols);
    }
}

/// Erasing the whole display twice leaves the same screen as erasing it
/// once.
pub proof fn lemma_erase_display_idempotent(s: Screen)
    requires
        s.wf(),
    ensures
        s.erase_in_display(2).erase_in_display(2) == s.erase_in_display(2),
        s.erase_in_display(2).grid == blank_lines(s.rows, s.cols),
        s.erase_in_display(2).cursor == s.cursor,
{
    let once = s.erase_in_display(2);
    assert(once.grid.len() == s.rows);
    assert(once.erase_in_display(2).grid == once.grid);
    assert(once.erase_in_display(2).signals == once.signals);
}

/// Editing the cells of the cursor's row keeps the screen's invariant.
pub proof fn lemma_row_edit_wf(s: Screen, cells: Seq<Cell>)
    requires
        s.wf(),
        cells.len() == s.cols,
    ensures
        s.with_row_cells(cells).wf(),
        s.with_row(Line { cells, wrapped: true }).wf(),
        s.with_row(Line { cells, wrapped: false }).wf(),
{
    let a = s.with_row_cells(cells);
    assert forall|i: int| 0 <= i < a.grid.len() implies (#[trigger] a.grid[i]).cells.len()
        == a.cols by {
        assert(s.grid[i].cells.len() == s.cols);
    }
    let b = s.with_row(Line { cells, wrapped: true });
    assert forall|i: int| 0 <= i < b.grid.len() implies (#[trigger] b.grid[i]).cells.len()
        == b.cols by {
        assert(s.grid[i].cells.len() == s.cols);
    }
    let c = s.with_row(Line { cells, wrapped: false });
    assert forall|i: int| 0 <= i < c.grid.len() implies (#[trigger] c.grid[i]).cells.len()
        == c.cols by {
        assert(s.grid[i].cells.len() == s.cols);
    }
}

fn erase_display_rows(grid: &mut Vec<Row>, y: usize, col: usize, mode: u16, cols: usize)
    requires
        y < old(grid).len(),
        col <= cols,
        uniform(lines_of(old(grid)@), cols as int),
    ensures
        lines_of(final(grid)@) == display_erased(
            lines_of(old(grid)@),
            y as int,
            col as int,
            mode as int,
            cols as int,
        ),
{
    let rows = grid.len();
    let ghost g0 = lines_of(grid@);
    assert(g0[y as int].cells.len() == cols);
    if mode == 0 {
        blank_cells(&mut grid[y].cells, col, cols);
        grid[y].wrapped = false;
        blank_rows_between(grid, y + 1, rows, cols);
        assert(lines_of(grid@) =~= display_erased(
            g0,
            y as int,
            col as int,
            mode as int,
            cols as int,
        ));
    } else if mode == 1 {
        let upto: usize = if col < cols {
            col + 1
        } else {
            cols
        };
        blank_cells(&mut grid[y].cells, 0, upto);
        if upto == cols {
            grid[y].wrapped = false;
        }
        assert(grid@[y as int].cells@ =~= blank_span(g0[y as int].cells, 0, col + 1));
        blank_rows_between(grid, 0, y, cols);
        assert(lines_of(grid@) =~= display_erased(
            g0,
            y as int,
            col as int,
            mode as int,
            cols as int,
        ));
    } else if mode == 2 || mode == 3 {
        blank_rows_between(grid, 0, rows, cols);
        assert(lines_of(grid@) =~= display_erased(
            g0,
            y as int,
            col as int,
            mode as int,
            cols as int,
        ));
    }
}

fn erase_line_cells(grid: &mut Vec<Row>, y: usize, col: usize, mode: u16, cols: usize)
    requires
        y < old(grid).len(),
        col <= cols,
        uniform(lines_of(old(grid)@), cols as int),
    ensures
        lines_of(final(grid)@) == line_erased(
            lines_of(old(grid)@),
            y as int,
            col as int,
            mode as int,
            cols as int,
        ),
{
    let ghost g0 = lines_of(grid@);
    assert(g0[y as int].cells.len() == cols);
    if mode == 0 {
        blank_cells(&mut grid[y].cells, col, cols);
        grid[y].wrapped = false;
    } else if mode == 1 {
        let upto: usize = if col < cols {
            col + 1
        } else {
            cols
        };
        blank_cells(&mut grid[y].cells, 0, upto);
        if upto == cols {
            grid[y].wrapped = false;
        }
        assert(grid@[y as int].cells@ =~= blank_span(g0[y as int].cells, 0, col + 1));
    } else if mode == 2 {
        blank_cells(&mut grid[y].cells, 0, cols);
        grid[y].wrapped = false;
        assert(grid@[y as int].cells@ =~= blank_line(cols as int).cells);
    }
    assert(lines_of(grid@) =~= line_erased(g0, y as int, col as int, mode as int, cols as int));
}

/// Takes `n` cells out of row `y` at `col`.
fn delete_in_row(grid: &mut Vec<Row>, y: usize, col: usize, n: usize)
    requires
        y < old(grid).len(),
    ensures
        lines_of(final(grid)@) == with_cells(
            lines_of(old(grid)@),
            y as int,
            cells_deleted(lines_of(old(grid)@)[y as int].cells, col as int, n as int),
        ),
{
    delete_cells(&mut grid[y].cells, col, n);
    assert(lines_of(grid@) =~= with_cells(
        lines_of(old(grid)@),
        y as int,
        cells_deleted(lines_of(old(grid)@)[y as int].cells, col as int, n as int),
    ));
}

/// Puts `n` erased cells into row `y` at `col`.
fn insert_in_row(grid: &mut Vec<Row>, y: usize, col: usize, n: usize)
    requires
        y < old(grid).len(),
    ensures
        lines_of(final(grid)@) == with_cells(
            lines_of(old(grid)@),
            y as int,
            cells_inserted(lines_of(old(grid)@)[y as int].cells, col as int, n as int),
        ),
{
    insert_cells(&mut grid[y].cells, col, n);
    assert(lines_of(grid@) =~= with_cells(
        lines_of(old(grid)@),
        y as int,
        cells_inserted(lines_of(old(grid)@)[y as int].cells, col as int, n as int),
    ));
}

/// Erases `n` cells of row `y` from `col` on.
fn erase_in_row(grid: &mut Vec<Row>, y: usize, col: usize, n: usize, cols: usize)
    requires
        y < old(grid).len(),
        col <= cols,
        uniform(lines_of(old(grid)@), cols as int),
    ensures
        lines_of(final(grid)@) == with_cells(
            lines_of(old(grid)@),
            y as int,
            blank_span(lines_of(old(grid)@)[y as int].cells, col as int, col + n),
        ),
{
    let ghost g0 = lines_of(grid@);
    assert(g0[y as int].cells.len() == cols);
    let end: usize = if n < cols - col {
        col + n
    } else {
        cols
    };
    blank_cells(&mut grid[y].cells, col, end);
    assert(grid@[y as int].cells@ =~= blank_span(g0[y as int].cells, col as int, col + n));
    assert(lines_of(grid@) =~= with_cells(
        g0,
        y as int,
        blank_span(g0[y as int].cells, col as int, col + n),
    ));
}

/// Writes `cell` at column `x` of row `y`, moving the rest of the row one
/// cell to the right first if `insert` is set.
fn write_in_row(grid: &mut Vec<Row>, y: usize, x: usize, cell: Cell, insert: bool)
    requires
        y < old(grid).len(),
        x < old(grid)@[y as int].cells.len(),
    ensures
        lines_of(final(grid)@) == with_cells(
            lines_of(old(grid)@),
            y as int,
            (if insert {
                cells_inserted(lines_of(old(grid)@)[y as int].cells, x as int, 1)
            } else {
                lines_of(old(grid)@)[y as int].cells
            }).update(x as int, cell),
        ),
{
    let ghost g0 = lines_of(grid@);
    if insert {
        insert_cells(&mut grid[y].cells, x, 1);
    }
    grid[y].cells[x] = cell;
    assert(lines_of(grid@) =~= with_cells(
        g0,
        y as int,
        (if insert {
            cells_inserted(g0[y as int].cells, x as int, 1)
        } else {
            g0[y as int].cells
        }).update(x as int, cell),
    ));
}

/// Marks row `y` as continued on the next row.
fn mark_wrapped(grid: &mut Vec<Row>, y: usize)
    requires
        y < old(grid).len(),
    ensures
        lines_of(final(grid)@) == lines_of(old(grid)@).update(
            y as int,
            Line { cells: lines_of(old(grid)@)[y as int].cells, wrapped: true },
        ),
{
    grid[y].wrapped = true;
    assert(lines_of(grid@) =~= lines_of(old(grid)@).update(
        y as int,
        Line { cells: lines_of(old(grid)@)[y as int].cells, wrapped: true },
    ));
}

/// Writing a character keeps the screen's invariant, step by step.
pub proof fn lemma_put_char_wf(s: Screen, c: char)
    requires
        s.wf(),
    ensures
        s.settle_wrap().wf(),
        s.write_cell(c).wf(),
        s.put_char(c).wf(),
{
    let y = s.cursor.y;
    assert(s.grid[y].cells.len() == s.cols);
    lemma_row_edit_wf(s, s.grid[y].cells);
    let marked = s.with_row(Line { cells: s.grid[y].cells, wrapped: true }).at_column(0);
    lemma_scroll_wf(marked, 1);
    assert(s.settle_wrap().wf());
    lemma_write_cell_wf(s, c);
    let t = if s.viewport.user_scrolled {
        s.touched()
    } else {
        s.touched().reset_scroll()
    };
    assert(t.wf());
    let ty = t.cursor.y;
    assert(t.grid[ty].cells.len() == t.cols);
    lemma_row_edit_wf(t, t.grid[ty].cells);
    let tm = t.with_row(Line { cells: t.grid[ty].cells, wrapped: true }).at_column(0);
    lemma_scroll_wf(tm, 1);
    assert(t.settle_wrap().wf());
    lemma_write_cell_wf(t.settle_wrap(), c);
}

/// Writing into the cursor's cell keeps the screen's invariant.
pub proof fn lemma_write_cell_wf(s: Screen, c: char)
    requires
        s.wf(),
    ensures
        s.write_cell(c).wf(),
{
    let cells = s.grid[s.cursor.y].cells;
    assert(cells.len() == s.cols);
    let moved = if s.modes.insert_mode {
        cells_inserted(cells, s.cursor.x, 1)
    } else {
        cells
    };
    lemma_row_edit_wf(s, moved.update(s.cursor.x, s.inked(c)));
}

impl TerminalState {
    pub(crate) fn settle_wrap(&mut self)
        requires
            old(self).wf(),
        ensures
            final(self)@ == old(self)@.settle_wrap(),
            final(self).wf(),
    {
        proof {
            lemma_put_char_wf(self@, ' ');
        }
        if self.wrap_pending {
            if !self.modes.auto_wrap {
                self.wrap_pending = false;
            } else {
                let y = self.cursor_y as usize;
                proof {
                    assert(self@.grid[y as int].cells.len() == self@.cols);
                    lemma_row_edit_wf(self@, self@.grid[y as int].cells);
                }
                mark_wrapped(&mut self.grid, y);
                self.set_column(0);
                self.newline();
            }
        }
    }

    pub(crate) fn write_cell(&mut self, c: char)
        requires
            old(self).wf(),
        ensures
            final(self)@ == old(self)@.write_cell(c),
            final(self).wf(),
    {
        proof {
            lemma_write_cell_wf(self@, c);
        }
        let y = self.cursor_y as usize;
        let x = self.cursor_x as usize;
        let cell = Cell { c, fg: self.pen.fg, bg: self.pen.bg, bold: self.pen.bold, dim: self.pen.dim };
        let insert = self.modes.insert_mode;
        assert(self@.grid[y as int].cells.len() == self@.cols);
        write_in_row(&mut self.grid, y, x, cell, insert);
    }

    /// Writes `c` at the cursor in the pen's look and moves the cursor on by
    /// one column. A character that arrives while a wrap is pending goes to
    /// the start of the next row with auto-wrap, and over the last column
    /// without it.
    pub fn put_char(&mut self, c: char)
        requires
            old(self).wf(),
        ensures
            final(self)@ == old(self)@.put_char(c),
            final(self).wf(),
    {
        self.cursor_moved();
        if !self.user_scrolled {
            self.reset_scroll();
        }
        self.settle_wrap();
        self.write_cell(c);
        let x = self.cursor_x;
        self.set_column(x + 1);
    }

    /// Erases part of the display: from the cursor to the end (`mode` 0), from
    /// the start to the cursor (1), or all of it (2 and 3). Any other mode
    /// erases nothing.
    pub fn erase_in_display(&mut self, mode: u16)
        requires
            old(self).wf(),
        ensures
            final(self)@ == old(self)@.erase_in_display(mode as int),
            final(self).wf(),
    {
        proof {
            lemma_erase_wf(self@, mode as int);
        }
        let y = self.cursor_y as usize;
        let cols = self.cols as usize;
        let col = self.column() as usize;
        self.dirty = true;
        erase_display_rows(&mut self.grid, y, col, mode, cols);
    }

    /// Erases part of the cursor's row: from the cursor on (`mode` 0), up to
    /// the cursor (1), or all of it (2). Any other mode erases nothing.
    pub fn erase_in_line(&mut self, mode: u16)
        requires
            old(self).wf(),
        ensures
            final(self)@ == old(self)@.erase_in_line(mode as int),
            final(self).wf(),
    {
        proof {
            lemma_erase_wf(self@, mode as int);
        }
        let y = self.cursor_y as usize;
        let cols = self.cols as usize;
        let col = self.column() as usize;
        self.dirty = true;
        erase_line_cells(&mut self.grid, y, col, mode, cols);
    }

    /// Forgets the history and erases the screen, cursor to the top left.
    pub fn clear_scrollback_and_screen(&mut self)
        requires
            old(self).wf(),
        ensures
            final(self)@ == old(self)@.clear_scrollback_and_screen(),
            final(self).wf(),
    {
        proof {
            lemma_erase_wf(self@, 0);
        }
        self.dirty = true;
        self.scrollback.clear();
        self.reset_scroll();
        let rows = self.rows as usize;
        let cols = self.cols as usize;
        blank_rows_between(&mut self.grid, 0, rows, cols);
        self.cursor_x = 0;
        self.cursor_y = 0;
        self.wrap_pending = false;
        assert(self@.grid =~= blank_lines(rows as int, cols as int));
        assert(self@.scrollback =~= Seq::empty());
    }

    /// Takes `n` cells out of the cursor's row at the cursor.
    pub fn delete_chars(&mut self, n: u16)
        requires
            old(self).wf(),
        ensures
            final(self)@ == old(self)@.delete_chars(n as int),
            final(self).wf(),
    {
        let y = self.cursor_y as usize;
        let col = self.column() as usize;
        proof {
            lemma_row_edit_wf(
                self@,
                cells_deleted(self@.grid[y as int].cells, col as int, n as int),
            );
        }
        delete_in_row(&mut self.grid, y, col, n as usize);
    }

    /// Puts `n` erased cells into the cursor's row at the cursor.
    pub fn insert_chars(&mut self, n: u16)
        requires
            old(self).wf(),
        ensures
            final(self)@ == old(self)@.insert_chars(n as int),
            final(self).wf(),
    {
        let y = self.cursor_y as usize;
        let col = self.column() as usize;
        proof {
            lemma_row_edit_wf(
                self@,
                cells_inserted(self@.grid[y as int].cells, col as int, n as int),
            );
            lemma_row_edit_wf(
                self@.dirtied(),
                cells_inserted(self@.grid[y as int].cells, col as int, n as int),
            );
        }
        insert_in_row(&mut self.grid, y, col, n as usize);
        self.dirty = true;
    }

    /// Erases `n` cells of the cursor's row from the cursor on.
    pub fn erase_chars(&mut self, n: u16)
        requires
            old(self).wf(),
        ensures
            final(self)@ == old(self)@.erase_chars(n as int),
            final(self).wf(),
    {
        let y = self.cursor_y as usize;
        let cols = self.cols as usize;
        let col = self.column() as usize;
        proof {
            lemma_row_edit_wf(
                self@,
                blank_span(self@.grid[y as int].cells, col as int, col + n),
            );
        }
        erase_in_row(&mut self.grid, y, col, n as usize, cols);
    }
}

} // verus!

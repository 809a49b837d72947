//! Changing the size of the screen: re-wrapping on the primary screen,
//! cutting and padding on the alternate screen.

use std::collections::VecDeque;
use vstd::prelude::*;
use crate::cell::{blank_cell, blank_line, blank_lines, lines_of, Cell, Line, Row};
use crate::reflow::{
    lemma_reflow_uniform, lines_before, locate, reflow, reflow_rows, run_cells, skip_lines,
    walk_cells, Spot,
};
use crate::scroll::last_n;
use crate::state::{max_int, min_int, uniform, Cursor, Kept, KeptScreen, Screen, TerminalState};
use crate::view::line_is_blank;

verus! {

/// A row cut or padded to `w` cells.
pub open spec fn resized_row(line: Line, w: int) -> Line {
    Line {
        cells: Seq::new(
            w as nat,
            |j: int|
                if j < line.cells.len() {
                    line.cells[j]
                } else {
                    blank_cell()
                },
        ),
        wrapped: line.wrapped,
    }
}

/// The first `r` rows of `g`, each cut or padded to `w` cells, with erased
/// rows added if `g` has fewer.
pub open spec fn resized_rows(g: Seq<Line>, w: int, r: int) -> Seq<Line> {
    Seq::new(
        r as nat,
        |i: int|
            if i < g.len() {
                resized_row(g[i], w)
            } else {
                blank_line(w)
            },
    )
}

/// `g` without the blank rows at its end that can go: rows go while there
/// are more than `nr` and the last one is blank and lies below row `cy`.
pub open spec fn trim_bottom(g: Seq<Line>, nr: int, cy: int) -> Seq<Line>
    decreases g.len(),
{
    if g.len() > nr && g.len() > 0 && line_is_blank(g.last()) && g.len() > cy + 1 {
        trim_bottom(g.drop_last(), nr, cy)
    } else {
        g
    }
}

/// How many rows of `g` are too many for `nr` rows.
pub open spec fn excess(g: Seq<Line>, nr: int) -> int {
    max_int(g.len() - nr, 0)
}

impl Screen {
    /// The grid re-wrapped to `new_cols`, or as it is if the width stays.
    pub open spec fn rewrapped_grid(self, new_cols: int) -> Seq<Line> {
        if new_cols != self.cols {
            reflow(self.grid, new_cols)
        } else {
            self.grid
        }
    }

    /// The scrollback re-wrapped to `new_cols`, or as it is if the width stays.
    pub open spec fn rewrapped_history(self, new_cols: int) -> Seq<Line> {
        if new_cols != self.cols {
            reflow(self.scrollback, new_cols)
        } else {
            self.scrollback
        }
    }

    /// Where the cursor lies in the re-wrapped grid: as many logical lines
    /// down and as many cells into its logical line as before.
    pub open spec fn rewrapped_spot(self, new_cols: int) -> Spot {
        if new_cols != self.cols {
            locate(
                reflow(self.grid, new_cols),
                lines_before(self.grid, self.cursor.y),
                run_cells(self.grid, self.cursor.y) + self.column(),
                new_cols,
            )
        } else {
            Spot { row: self.cursor.y, col: self.column() }
        }
    }

    /// The primary screen at a new size. A new width re-wraps grid and
    /// scrollback. Then the grid is brought to `new_rows` rows: blank rows
    /// below the cursor go first, what is still too much moves from the top
    /// into the scrollback, and erased rows fill up what is missing. The
    /// scroll region becomes the whole screen and the view returns to it.
    pub open spec fn resize_primary(self, new_cols: int, new_rows: int) -> Screen {
        let spot = self.rewrapped_spot(new_cols);
        let g = trim_bottom(self.rewrapped_grid(new_cols), new_rows, spot.row);
        let over = excess(g, new_rows);
        Screen {
            cols: new_cols,
            rows: new_rows,
            grid: g.skip(over) + blank_lines(max_int(new_rows - g.len(), 0), new_cols),
            scrollback: last_n(
                self.rewrapped_history(new_cols) + g.take(over),
                self.scrollback_limit,
            ),
            cursor: Cursor {
                x: min_int(spot.col, new_cols - 1),
                y: min_int(max_int(spot.row - over, 0), new_rows - 1),
                wrap_pending: false,
            },
            scroll_top: 0,
            scroll_bottom: new_rows - 1,
            ..self.reset_scroll().dirtied()
        }
    }

    /// The alternate screen at a new size: nothing is re-wrapped, every row
    /// is cut or padded, here and on the primary screen that is set aside.
    pub open spec fn resize_alt(self, new_cols: int, new_rows: int) -> Screen {
        Screen {
            cols: new_cols,
            rows: new_rows,
            grid: resized_rows(self.grid, new_cols, new_rows),
            scrollback: resized_rows(self.scrollback, new_cols, self.scrollback.len() as int),
            kept: match self.kept {
                Some(k) => Some(
                    Kept { grid: resized_rows(k.grid, new_cols, new_rows), cursor: k.cursor },
                ),
                None => None,
            },
            cursor: Cursor {
                x: min_int(self.column(), new_cols - 1),
                y: min_int(self.cursor.y, new_rows - 1),
                wrap_pending: false,
            },
            scroll_top: 0,
            scroll_bottom: new_rows - 1,
            ..self.reset_scroll().dirtied()
        }
    }

    /// The screen at a new size; unchanged if the size is the same.
    pub open spec fn resize(self, new_cols: int, new_rows: int) -> Screen {
        if new_cols == self.cols && new_rows == self.rows {
            self
        } else if self.in_alt_screen() {
            self.resize_alt(new_cols, new_rows)
        } else {
            self.resize_primary(new_cols, new_rows)
        }
    }
}

proof fn lemma_trim_bottom_shape(g: Seq<Line>, nr: int, cy: int, cols: int)
    requires
        uniform(g, cols),
    ensures
        uniform(trim_bottom(g, nr, cy), cols),
        trim_bottom(g, nr, cy).len() <= g.len(),
        trim_bottom(g, nr, cy) == g.take(trim_bottom(g, nr, cy).len() as int),
        g.len() > cy ==> trim_bottom(g, nr, cy).len() > cy,
    decreases g.len(),
{
    if g.len() > nr && g.len() > 0 && line_is_blank(g.last()) && g.len() > cy + 1 {
        let h = g.drop_last();
        assert forall|i: int| 0 <= i < h.len() implies (#[trigger] h[i]).cells.len() == cols by {
            assert(h[i] == g[i]);
        }
        lemma_trim_bottom_shape(h, nr, cy, cols);
        let t = trim_bottom(h, nr, cy);
        assert(t =~= g.take(t.len() as int));
    } else {
        assert(g =~= g.take(g.len() as int));
    }
}

/// A history cut back to its limit is within the limit and keeps its rows'
/// width.
proof fn lemma_last_n_bound(x: Seq<Line>, limit: int, cols: int)
    requires
        0 <= limit,
        uniform(x, cols),
    ensures
        uniform(last_n(x, limit), cols),
        last_n(x, limit).len() <= limit,
{
    let kept = last_n(x, limit);
    assert forall|i: int| 0 <= i < kept.len() implies (#[trigger] kept[i]).cells.len() == cols by {
        if x.len() > limit {
            assert(kept[i] == x[x.len() - limit + i]);
        }
    }
}

proof fn lemma_walk_cells_bound(g: Seq<Line>, i: int, remaining: int, w: int)
    requires
        0 <= i,
        0 <= remaining,
        w >= 1,
    ensures
        0 <= walk_cells(g, i, remaining, w).row,
        g.len() > 0 ==> walk_cells(g, i, remaining, w).row < g.len(),
        0 <= walk_cells(g, i, remaining, w).col < w,
    decreases g.len() - i,
{
    if 0 <= i < g.len() {
        if remaining < g[i].cells.len() || !g[i].wrapped {
        } else {
            lemma_walk_cells_bound(g, i + 1, remaining - g[i].cells.len(), w);
        }
    }
}

proof fn lemma_skip_lines_bound(g: Seq<Line>, i: int, ll: int, idx: int)
    requires
        0 <= i <= g.len(),
    ensures
        i <= skip_lines(g, i, ll, idx) <= g.len(),
    decreases g.len() - i,
{
    if 0 <= i < g.len() && ll < idx {
        lemma_skip_lines_bound(
            g,
            i + 1,
            if g[i].wrapped {
                ll
            } else {
                ll + 1
            },
            idx,
        );
    }
}

proof fn lemma_run_cells_bound(g: Seq<Line>, r: int, cols: int)
    requires
        0 <= r <= g.len(),
        0 <= cols,
        uniform(g, cols),
    ensures
        0 <= run_cells(g, r) <= r * cols,
        0 <= lines_before(g, r) <= r,
    decreases r,
{
    if r > 0 {
        lemma_run_cells_bound(g, r - 1, cols);
        assert(g[r - 1].cells.len() == cols);
        assert((r - 1) * cols + cols == r * cols) by (nonlinear_arith);
        assert(0 <= r * cols) by (nonlinear_arith)
            requires
                0 <= r,
                0 <= cols,
        ;
    }
}

/// Resizing keeps the screen's invariant.
pub proof fn lemma_resize_wf(s: Screen, new_cols: int, new_rows: int)
    requires
        s.wf(),
        1 <= new_cols <= u16::MAX,
        1 <= new_rows <= u16::MAX,
    ensures
        s.resize(new_cols, new_rows).wf(),
{
    lemma_reflow_uniform(s.grid, new_cols);
    lemma_reflow_uniform(s.scrollback, new_cols);
    let spot = s.rewrapped_spot(new_cols);
    let g1 = s.rewrapped_grid(new_cols);
    assert(uniform(g1, new_cols));
    lemma_trim_bottom_shape(g1, new_rows, spot.row, new_cols);
    let g = trim_bottom(g1, new_rows, spot.row);
    let over = excess(g, new_rows);
    let pad = blank_lines(max_int(new_rows - g.len(), 0), new_cols);
    let grid = g.skip(over) + pad;
    assert forall|i: int| 0 <= i < grid.len() implies (#[trigger] grid[i]).cells.len()
        == new_cols by {
        if i < g.len() - over {
            assert(grid[i] == g[i + over]);
        } else {
            assert(grid[i] == pad[i - (g.len() - over)]);
        }
    }
    let h1 = s.rewrapped_history(new_cols);
    let h = h1 + g.take(over);
    assert forall|i: int| 0 <= i < h.len() implies (#[trigger] h[i]).cells.len() == new_cols by {
        if i < h1.len() {
            assert(h[i] == h1[i]);
        } else {
            assert(h[i] == g[i - h1.len()]);
        }
    }
    lemma_last_n_bound(h, s.scrollback_limit, new_cols);
    if new_cols != s.cols {
        lemma_run_cells_bound(s.grid, s.cursor.y, s.cols);
        lemma_skip_lines_bound(g1, 0, 0, lines_before(s.grid, s.cursor.y));
        lemma_walk_cells_bound(
            g1,
            skip_lines(g1, 0, 0, lines_before(s.grid, s.cursor.y)),
            run_cells(s.grid, s.cursor.y) + s.column(),
            new_cols,
        );
    }
    if !s.in_alt_screen() {
        assert(s.resize_primary(new_cols, new_rows).wf());
    }
    let a = s.resize_alt(new_cols, new_rows);
    assert(a.wf());
}

/// Cuts or pads `cells` to `w` cells.
fn resize_cells(cells: &mut Vec<Cell>, w: usize)
    ensures
        final(cells)@ == resized_row(Line { cells: old(cells)@, wrapped: false }, w as int).cells,
{
    let blank = Cell::blank();
    cells.truncate(w);
    while cells.len() < w
        invariant
            blank == blank_cell(),
            cells.len() <= w,
            forall|j: int|
                0 <= j < cells.len() ==> cells@[j] == (if j < old(cells).len() {
                    old(cells)@[j]
                } else {
                    blank_cell()
                }),
            cells.len() >= min_int(old(cells).len() as int, w as int),
        decreases w - cells.len(),
    {
        cells.push(blank);
    }
    assert(cells@ =~= resized_row(Line { cells: old(cells)@, wrapped: false }, w as int).cells);
}

/// Brings `grid` to `r` rows of `w` cells by cutting and padding.
fn resize_rows(grid: &mut Vec<Row>, w: usize, r: usize)
    ensures
        lines_of(final(grid)@) == resized_rows(lines_of(old(grid)@), w as int, r as int),
{
    let ghost g0 = lines_of(grid@);
    let blank = Cell::blank();
    grid.truncate(r);
    let kept = grid.len();
    let mut i: usize = 0;
    while i < kept
        invariant
            kept == grid.len(),
            kept <= r,
            kept == min_int(g0.len() as int, r as int),
            i <= kept,
            forall|j: int| 0 <= j < i ==> (#[trigger] grid@[j])@ == resized_row(g0[j], w as int),
            forall|j: int| i <= j < kept ==> (#[trigger] grid@[j])@ == g0[j],
        decreases kept - i,
    {
        resize_cells(&mut grid[i].cells, w);
        assert(grid@[i as int]@.cells =~= resized_row(g0[i as int], w as int).cells);
        i += 1;
    }
    while grid.len() < r
        invariant
            blank == blank_cell(),
            kept == min_int(g0.len() as int, r as int),
            kept <= grid.len() <= r,
            forall|j: int| 0 <= j < kept ==> (#[trigger] grid@[j])@ == resized_row(g0[j], w as int),
            forall|j: int| kept <= j < grid.len() ==> (#[trigger] grid@[j])@ == blank_line(w as int),
        decreases r - grid.len(),
    {
        grid.push(Row::new(w, &blank));
    }
    assert(lines_of(grid@) =~= resized_rows(g0, w as int, r as int));
}

/// Cuts or pads every row of `history` to `w` cells.
fn resize_history(history: &mut VecDeque<Row>, w: usize)
    ensures
        lines_of(final(history)@) == resized_rows(
            lines_of(old(history)@),
            w as int,
            old(history)@.len() as int,
        ),
{
    let ghost h0 = lines_of(history@);
    let n = history.len();
    let mut i: usize = 0;
    while i < n
        invariant
            i <= n,
            n == h0.len(),
            history.len() == n,
            forall|j: int|
                0 <= j < n - i ==> (#[trigger] history@[j])@ == h0[i + j],
            forall|j: int|
                n - i <= j < n ==> (#[trigger] history@[j])@ == resized_row(
                    h0[j - (n - i)],
                    w as int,
                ),
        decreases n - i,
    {
        let front = history.pop_front();
        let mut row = front.unwrap();
        let ghost line = row@;
        resize_cells(&mut row.cells, w);
        assert(row@.cells =~= resized_row(line, w as int).cells);
        history.push_back(row);
        i += 1;
    }
    assert(lines_of(history@) =~= resized_rows(h0, w as int, n as int));
}

/// The logical line of row `row` and the offset of column `col` in it.
fn logical_position(grid: &Vec<Row>, row: usize, col: usize, cols: usize) -> (r: (usize, u64))
    requires
        row < grid.len(),
        grid.len() <= u16::MAX,
        col <= cols <= u16::MAX,
        uniform(lines_of(grid@), cols as int),
    ensures
        r.0 == lines_before(lines_of(grid@), row as int),
        r.1 == run_cells(lines_of(grid@), row as int) + col,
{
    let ghost g = lines_of(grid@);
    let mut idx: usize = 0;
    let mut cells: u64 = 0;
    let mut i: usize = 0;
    while i < row
        invariant
            i <= row < grid.len(),
            grid.len() <= u16::MAX,
            cols <= u16::MAX,
            g == lines_of(grid@),
            uniform(g, cols as int),
            idx == lines_before(g, i as int),
            cells == run_cells(g, i as int),
            idx <= i,
            cells <= i * 65535,
        decreases row - i,
    {
        assert(g[i as int].cells.len() == cols);
        if grid[i].wrapped {
            cells = cells + grid[i].cells.len() as u64;
        } else {
            idx += 1;
            cells = 0;
        }
        i += 1;
    }
    (idx, cells + col as u64)
}

/// Where the cursor lies in a grid that has been re-wrapped to `w` cells,
/// if it was at offset `offset` of logical line `idx` before.
fn locate_cursor(grid: &Vec<Row>, idx: usize, offset: u64, w: u16) -> (r: (usize, u16))
    requires
        w >= 1,
    ensures
        r.0 == locate(lines_of(grid@), idx as int, offset as int, w as int).row,
        r.1 == locate(lines_of(grid@), idx as int, offset as int, w as int).col,
{
    let ghost g = lines_of(grid@);
    let mut ll: usize = 0;
    let mut i: usize = 0;
    while i < grid.len() && ll < idx
        invariant
            i <= grid.len(),
            ll <= i,
            g == lines_of(grid@),
            skip_lines(g, i as int, ll as int, idx as int) == skip_lines(g, 0, 0, idx as int),
        decreases grid.len() - i,
    {
        if !grid[i].wrapped {
            ll += 1;
        }
        i += 1;
    }
    let mut remaining: u64 = offset;
    while i < grid.len()
        invariant
            i <= grid.len(),
            w >= 1,
            g == lines_of(grid@),
            walk_cells(g, i as int, remaining as int, w as int) == locate(
                g,
                idx as int,
                offset as int,
                w as int,
            ),
        decreases grid.len() - i,
    {
        let len = grid[i].cells.len();
        if remaining < len as u64 || !grid[i].wrapped {
            let col: u16 = if remaining < (w - 1) as u64 {
                remaining as u16
            } else {
                w - 1
            };
            return (i, col);
        }
        remaining = remaining - len as u64;
        i += 1;
    }
    let last: usize = if grid.len() > 0 {
        grid.len() - 1
    } else {
        0
    };
    (last, 0)
}

/// Takes the blank rows off the end of `grid` that can go.
fn trim_blank_bottom(grid: &mut Vec<Row>, nr: usize, cy: usize)
    ensures
        lines_of(final(grid)@) == trim_bottom(lines_of(old(grid)@), nr as int, cy as int),
{
    let ghost g0 = lines_of(grid@);
    loop
        invariant
            trim_bottom(lines_of(grid@), nr as int, cy as int) == trim_bottom(
                g0,
                nr as int,
                cy as int,
            ),
        ensures
            lines_of(grid@) == trim_bottom(g0, nr as int, cy as int),
        decreases grid.len(),
    {
        let len = grid.len();
        if len > nr && len > 0 && len - 1 > cy && grid[len - 1].is_blank() {
            let ghost before = lines_of(grid@);
            assert(before.last() == grid@[len - 1]@);
            let _ = grid.pop();
            assert(lines_of(grid@) =~= before.drop_last());
        } else {
            proof {
                if len > 0 {
                    assert(lines_of(grid@).last() == grid@[len - 1]@);
                }
            }
            break ;
        }
    }
}

/// Moves rows from the top of `grid` to the end of `history` until `grid`
/// has no more than `nr` rows.
fn shed_top(grid: &mut Vec<Row>, history: &mut VecDeque<Row>, nr: usize)
    ensures
        lines_of(final(grid)@) == lines_of(old(grid)@).skip(excess(lines_of(old(grid)@), nr as int)),
        lines_of(final(history)@) == lines_of(old(history)@) + lines_of(old(grid)@).take(
            excess(lines_of(old(grid)@), nr as int),
        ),
{
    let ghost g0 = lines_of(grid@);
    let ghost h0 = lines_of(history@);
    let mut moved: usize = 0;
    assert(g0.len() == grid.len());
    assert(lines_of(grid@) =~= g0.skip(0));
    assert(lines_of(history@) =~= h0 + g0.take(0));
    while grid.len() > nr
        invariant
            moved <= g0.len() <= usize::MAX,
            grid.len() == g0.len() - moved,
            lines_of(grid@) == g0.skip(moved as int),
            lines_of(history@) == h0 + g0.take(moved as int),
            moved <= excess(g0, nr as int),
        decreases grid.len(),
    {
        let ghost before = lines_of(grid@);
        let ghost had = lines_of(history@);
        let row = grid.remove(0);
        assert(row@ == before[0]);
        assert(before[0] == g0[moved as int]);
        assert(lines_of(grid@) =~= before.skip(1));
        history.push_back(row);
        assert(lines_of(history@) =~= had.push(row@));
        assert(lines_of(grid@) =~= g0.skip(moved + 1));
        assert(lines_of(history@) =~= h0 + g0.take(moved + 1));
        moved += 1;
    }
}

/// Adds erased rows of `cols` cells to `grid` until it has `nr` rows.
fn pad_bottom(grid: &mut Vec<Row>, nr: usize, cols: usize)
    ensures
        lines_of(final(grid)@) == lines_of(old(grid)@) + blank_lines(
            max_int(nr - old(grid).len(), 0),
            cols as int,
        ),
{
    let ghost g0 = lines_of(grid@);
    let blank = Cell::blank();
    assert(lines_of(grid@) =~= g0 + blank_lines(0, cols as int));
    while grid.len() < nr
        invariant
            blank == blank_cell(),
            grid.len() >= g0.len(),
            grid.len() <= nr || grid.len() == g0.len(),
            lines_of(grid@) == g0 + blank_lines(grid.len() - g0.len(), cols as int),
        decreases nr - grid.len(),
    {
        let ghost before = lines_of(grid@);
        grid.push(Row::new(cols, &blank));
        assert(lines_of(grid@) =~= before.push(blank_line(cols as int)));
        assert(lines_of(grid@) =~= g0 + blank_lines(grid.len() - g0.len(), cols as int));
    }
}

/// Drops the oldest rows of `history` until it has no more than `limit`.
fn trim_history(history: &mut VecDeque<Row>, limit: usize)
    ensures
        lines_of(final(history)@) == last_n(lines_of(old(history)@), limit as int),
{
    let ghost h0 = lines_of(history@);
    let mut dropped: usize = 0;
    assert(h0.len() == history.len());
    assert(lines_of(history@) =~= h0.skip(0));
    while history.len() > limit
        invariant
            history.len() == h0.len() - dropped,
            dropped <= h0.len() <= usize::MAX,
            dropped == 0 || h0.len() - dropped >= limit,
            lines_of(history@) == h0.skip(dropped as int),
        decreases history.len(),
    {
        let ghost before = lines_of(history@);
        let _ = history.pop_front();
        assert(lines_of(history@) =~= before.skip(1));
        assert(lines_of(history@) =~= h0.skip(dropped + 1));
        dropped += 1;
    }
    assert(lines_of(history@) =~= last_n(h0, limit as int));
}

/// Re-wraps `history` to rows of `new_cols` cells.
fn reflow_history(history: &mut VecDeque<Row>, new_cols: usize)
    requires
        new_cols >= 1,
    ensures
        lines_of(final(history)@) == reflow(lines_of(old(history)@), new_cols as int),
{
    let ghost h0 = lines_of(history@);
    let mut rows: Vec<Row> = Vec::new();
    assert(lines_of(rows@) + lines_of(history@) =~= h0);
    while history.len() > 0
        invariant
            lines_of(rows@) + lines_of(history@) == h0,
        decreases history.len(),
    {
        let ghost done = lines_of(rows@);
        let ghost rest = lines_of(history@);
        let front = history.pop_front();
        let row = front.unwrap();
        assert(row@ == rest[0]);
        rows.push(row);
        assert(lines_of(rows@) + lines_of(history@) =~= done + rest);
    }
    assert(lines_of(rows@) =~= h0);
    let mut wrapped = reflow_rows(&rows, new_cols);
    let ghost target = lines_of(wrapped@);
    assert(lines_of(wrapped@) + lines_of(history@) =~= target);
    while wrapped.len() > 0
        invariant
            lines_of(wrapped@) + lines_of(history@) == target,
        decreases wrapped.len(),
    {
        let ghost left = lines_of(wrapped@);
        let ghost done = lines_of(history@);
        let last = wrapped.pop();
        let row = last.unwrap();
        assert(row@ == left.last());
        history.push_front(row);
        assert(lines_of(wrapped@) + lines_of(history@) =~= left + done);
    }
    assert(lines_of(history@) =~= target);
}

impl TerminalState {
    fn resize_alt(&mut self, new_cols: u16, new_rows: u16)
        requires
            old(self).wf(),
            new_cols >= 1,
            new_rows >= 1,
            old(self)@.in_alt_screen(),
        ensures
            final(self)@ == old(self)@.resize_alt(new_cols as int, new_rows as int),
    {
        let column = self.column();
        self.cols = new_cols;
        self.rows = new_rows;
        resize_rows(&mut self.grid, new_cols as usize, new_rows as usize);
        resize_history(&mut self.scrollback, new_cols as usize);
        let kept = self.kept.take();
        if let Some(k) = kept {
            let mut grid = k.grid;
            resize_rows(&mut grid, new_cols as usize, new_rows as usize);
            self.kept = Some(KeptScreen { grid, cursor: k.cursor });
        }
        self.cursor_x = if column <= new_cols - 1 {
            column
        } else {
            new_cols - 1
        };
        self.wrap_pending = false;
        self.cursor_y = if self.cursor_y <= new_rows - 1 {
            self.cursor_y
        } else {
            new_rows - 1
        };
        self.scroll_top = 0;
        self.scroll_bottom = new_rows - 1;
        self.reset_scroll();
        self.dirty = true;
        assert(self@.grid == old(self)@.resize_alt(new_cols as int, new_rows as int).grid);
        assert(self@.scrollback == old(self)@.resize_alt(
            new_cols as int,
            new_rows as int,
        ).scrollback);
        assert(self@.kept == old(self)@.resize_alt(new_cols as int, new_rows as int).kept);
        assert(self@.cursor == old(self)@.resize_alt(new_cols as int, new_rows as int).cursor);
    }

    fn resize_primary(&mut self, new_cols: u16, new_rows: u16)
        requires
            old(self).wf(),
            new_cols >= 1,
            new_rows >= 1,
            !old(self)@.in_alt_screen(),
        ensures
            final(self)@ == old(self)@.resize_primary(new_cols as int, new_rows as int),
    {
        let ghost s0 = self@;
        let column = self.column();
        let mut spot: (usize, u16) = (self.cursor_y as usize, column);
        if new_cols != self.cols {
            let place = logical_position(
                &self.grid,
                self.cursor_y as usize,
                column as usize,
                self.cols as usize,
            );
            reflow_history(&mut self.scrollback, new_cols as usize);
            let wrapped = reflow_rows(&self.grid, new_cols as usize);
            spot = locate_cursor(&wrapped, place.0, place.1, new_cols);
            self.grid = wrapped;
        }
        assert(lines_of(self.grid@) == s0.rewrapped_grid(new_cols as int));
        assert(lines_of(self.scrollback@) == s0.rewrapped_history(new_cols as int));
        assert(spot.0 == s0.rewrapped_spot(new_cols as int).row);
        assert(spot.1 == s0.rewrapped_spot(new_cols as int).col);
        let nr = new_rows as usize;
        trim_blank_bottom(&mut self.grid, nr, spot.0);
        let ghost g = lines_of(self.grid@);
        let over: usize = if self.grid.len() > nr {
            self.grid.len() - nr
        } else {
            0
        };
        shed_top(&mut self.grid, &mut self.scrollback, nr);
        pad_bottom(&mut self.grid, nr, new_cols as usize);
        trim_history(&mut self.scrollback, self.scrollback_limit);
        let row: usize = if spot.0 >= over {
            spot.0 - over
        } else {
            0
        };
        self.cols = new_cols;
        self.rows = new_rows;
        self.cursor_x = if spot.1 <= new_cols - 1 {
            spot.1
        } else {
            new_cols - 1
        };
        self.wrap_pending = false;
        self.cursor_y = if row <= (new_rows - 1) as usize {
            row as u16
        } else {
            new_rows - 1
        };
        self.scroll_top = 0;
        self.scroll_bottom = new_rows - 1;
        self.reset_scroll();
        self.dirty = true;
        assert(self@.grid == s0.resize_primary(new_cols as int, new_rows as int).grid);
        assert(self@.scrollback == s0.resize_primary(new_cols as int, new_rows as int).scrollback);
        assert(self@.cursor == s0.resize_primary(new_cols as int, new_rows as int).cursor);
    }

    /// Brings the screen to `new_cols` by `new_rows` cells. On the primary
    /// screen a new width re-wraps grid and scrollback and keeps the cursor
    /// on its cell; on the alternate screen rows are cut and padded. The same
    /// size changes nothing.
    pub fn resize(&mut self, new_cols: u16, new_rows: u16)
        requires
            old(self).wf(),
            new_cols >= 1,
            new_rows >= 1,
        ensures
            final(self)@ == old(self)@.resize(new_cols as int, new_rows as int),
            final(self).wf(),
    {
        proof {
            lemma_resize_wf(self@, new_cols as int, new_rows as int);
        }
        if new_cols == self.cols && new_rows == self.rows {
            return ;
        }
        if self.kept.is_some() {
            self.resize_alt(new_cols, new_rows);
        } else {
            self.resize_primary(new_cols, new_rows);
        }
    }
}

} // verus!

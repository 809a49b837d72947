//! Scrolling inside the scroll region, line feeds, and inserting and
//! deleting whole rows.

use std::collections::VecDeque;
use vstd::prelude::*;
use crate::cell::{blank_line, lines_of, Cell, Line, Row};
use crate::state::{uniform, Screen, TerminalState};

verus! {

/// Rows `a ..= b` moved up by `n`: the top `n` of them leave, erased rows
/// come in at the bottom; every other row stays.
pub open spec fn shift_up(g: Seq<Line>, a: int, b: int, n: int, cols: int) -> Seq<Line> {
    Seq::new(
        g.len(),
        |i: int|
            if i < a || i > b {
                g[i]
            } else if i + n <= b {
                g[i + n]
            } else {
                blank_line(cols)
            },
    )
}

/// Rows `a ..= b` moved down by `n`: the bottom `n` of them leave, erased
/// rows come in at the top; every other row stays.
pub open spec fn shift_down(g: Seq<Line>, a: int, b: int, n: int, cols: int) -> Seq<Line> {
    Seq::new(
        g.len(),
        |i: int|
            if i < a || i > b {
                g[i]
            } else if i - n >= a {
                g[i - n]
            } else {
                blank_line(cols)
            },
    )
}

/// The rows that leave the top of `a ..= b` while it moves up by `n`, oldest
/// first. Once the region has emptied, the rows that leave are erased ones.
pub open spec fn departed(g: Seq<Line>, a: int, b: int, n: int, cols: int) -> Seq<Line> {
    Seq::new(
        n as nat,
        |j: int|
            if a + j <= b {
                g[a + j]
            } else {
                blank_line(cols)
            },
    )
}

/// The newest `n` entries of `s`, all of it if it has no more.
pub open spec fn last_n(s: Seq<Line>, n: int) -> Seq<Line> {
    if s.len() <= n {
        s
    } else {
        s.subrange(s.len() - n, s.len() as int)
    }
}

impl Screen {
    /// Whether rows that leave the top of the scroll region are kept as
    /// history: only on the primary screen, and only while the scroll region
    /// is the whole screen.
    pub open spec fn keeps_history(self) -> bool {
        self.scroll_top == 0 && self.scroll_bottom == self.rows - 1 && !self.in_alt_screen()
    }

    /// The scroll region moves up by `n` rows. Rows that leave go to the
    /// scrollback where history is kept, and the oldest history gives way
    /// once the limit is reached.
    pub open spec fn scroll_up(self, n: int) -> Screen {
        Screen {
            grid: shift_up(self.grid, self.scroll_top, self.scroll_bottom, n, self.cols),
            scrollback: if self.keeps_history() {
                last_n(
                    self.scrollback + departed(
                        self.grid,
                        self.scroll_top,
                        self.scroll_bottom,
                        n,
                        self.cols,
                    ),
                    self.scrollback_limit,
                )
            } else {
                self.scrollback
            },
            ..self
        }
    }

    /// The scroll region moves down by `n` rows; rows that leave are gone.
    pub open spec fn scroll_down(self, n: int) -> Screen {
        Screen {
            grid: shift_down(self.grid, self.scroll_top, self.scroll_bottom, n, self.cols),
            ..self
        }
    }

    /// One row down; at the bottom of the scroll region the region scrolls
    /// instead, and on the last row outside the region nothing moves.
    pub open spec fn newline(self) -> Screen {
        if self.cursor.y == self.scroll_bottom {
            self.scroll_up(1)
        } else if self.cursor.y < self.rows - 1 {
            self.at_row(self.cursor.y + 1)
        } else {
            self
        }
    }

    /// One row up; at the top of the scroll region the region scrolls down
    /// instead.
    pub open spec fn reverse_index(self) -> Screen {
        if self.cursor.y == self.scroll_top {
            self.scroll_down(1)
        } else if self.cursor.y > 0 {
            self.at_row(self.cursor.y - 1)
        } else {
            self
        }
    }

    /// Whether the cursor's row lies in the scroll region.
    pub open spec fn cursor_in_region(self) -> bool {
        self.scroll_top <= self.cursor.y <= self.scroll_bottom
    }

    /// `n` erased rows open up at the cursor's row; the rows from there to
    /// the bottom of the scroll region move down. Outside the region nothing
    /// happens.
    pub open spec fn insert_lines(self, n: int) -> Screen {
        if self.cursor_in_region() {
            Screen {
                grid: shift_down(self.grid, self.cursor.y, self.scroll_bottom, n, self.cols),
                ..self
            }
        } else {
            self
        }
    }

    /// `n` rows go from the cursor's row on; the rows below, down to the
    /// bottom of the scroll region, move up. Outside the region nothing
    /// happens.
    pub open spec fn delete_lines(self, n: int) -> Screen {
        if self.cursor_in_region() {
            Screen {
                grid: shift_up(self.grid, self.cursor.y, self.scroll_bottom, n, self.cols),
                ..self
            }
        } else {
            self
        }
    }
}

proof fn lemma_shift_up_step(g: Seq<Line>, a: int, b: int, n: int, cols: int)
    requires
        0 <= a <= b < g.len(),
        0 <= n,
    ensures
        shift_up(shift_up(g, a, b, n, cols), a, b, 1, cols) == shift_up(g, a, b, n + 1, cols),
        shift_up(g, a, b, 0, cols) == g,
{
    assert(shift_up(shift_up(g, a, b, n, cols), a, b, 1, cols) =~= shift_up(
        g,
        a,
        b,
        n + 1,
        cols,
    ));
    assert(shift_up(g, a, b, 0, cols) =~= g);
}

proof fn lemma_shift_down_step(g: Seq<Line>, a: int, b: int, n: int, cols: int)
    requires
        0 <= a <= b < g.len(),
        0 <= n,
    ensures
        shift_down(shift_down(g, a, b, n, cols), a, b, 1, cols) == shift_down(
            g,
            a,
            b,
            n + 1,
            cols,
        ),
        shift_down(g, a, b, 0, cols) == g,
{
    assert(shift_down(shift_down(g, a, b, n, cols), a, b, 1, cols) =~= shift_down(
        g,
        a,
        b,
        n + 1,
        cols,
    ));
    assert(shift_down(g, a, b, 0, cols) =~= g);
}

proof fn lemma_shift_uniform(g: Seq<Line>, a: int, b: int, n: int, cols: int)
    requires
        0 <= a <= b < g.len(),
        0 <= n,
        0 <= cols,
        uniform(g, cols),
    ensures
        uniform(shift_up(g, a, b, n, cols), cols),
        uniform(shift_down(g, a, b, n, cols), cols),
        uniform(departed(g, a, b, n, cols), cols),
        shift_up(g, a, b, n, cols).len() == g.len(),
        shift_down(g, a, b, n, cols).len() == g.len(),
{
    assert forall|i: int| 0 <= i < g.len() implies (#[trigger] shift_up(
        g,
        a,
        b,
        n,
        cols,
    )[i]).cells.len() == cols by {
        if !(i < a || i > b) && i + n <= b {
            assert(g[i + n].cells.len() == cols);
        }
    }
    assert forall|i: int| 0 <= i < g.len() implies (#[trigger] shift_down(
        g,
        a,
        b,
        n,
        cols,
    )[i]).cells.len() == cols by {
        if !(i < a || i > b) && i - n >= a {
            assert(g[i - n].cells.len() == cols);
        }
    }
    assert forall|j: int| 0 <= j < n implies (#[trigger] departed(
        g,
        a,
        b,
        n,
        cols,
    )[j]).cells.len() == cols by {
        if a + j <= b {
            assert(g[a + j].cells.len() == cols);
        }
    }
}

/// Appending one row and cutting back to the limit is the same as cutting
/// back, appending, and dropping the oldest row if that is one too many.
proof fn lemma_last_n_push(s: Seq<Line>, x: Line, limit: int)
    requires
        0 <= limit,
    ensures
        last_n(s.push(x), limit) == (if last_n(s, limit).push(x).len() > limit {
            last_n(s, limit).push(x).drop_first()
        } else {
            last_n(s, limit).push(x)
        }),
{
    let t = last_n(s, limit).push(x);
    if t.len() > limit {
        assert(last_n(s.push(x), limit) =~= t.drop_first());
    } else {
        assert(last_n(s.push(x), limit) =~= t);
    }
}

/// Cutting a history back to its limit keeps rows of one width, and no less
/// of it than was there before rows were appended.
proof fn lemma_last_n_shape(old_rows: Seq<Line>, added: Seq<Line>, limit: int, cols: int)
    requires
        0 <= limit,
        old_rows.len() <= limit,
        uniform(old_rows, cols),
        uniform(added, cols),
    ensures
        uniform(last_n(old_rows + added, limit), cols),
        old_rows.len() <= last_n(old_rows + added, limit).len() <= limit,
{
    let all = old_rows + added;
    let kept = last_n(all, limit);
    assert forall|i: int| 0 <= i < kept.len() implies (#[trigger] kept[i]).cells.len() == cols by {
        let j = if all.len() <= limit {
            i
        } else {
            all.len() - limit + i
        };
        assert(kept[i] == all[j]);
        if j < old_rows.len() {
            assert(all[j] == old_rows[j]);
        } else {
            assert(all[j] == added[j - old_rows.len()]);
        }
    }
}

/// Scrolling keeps the screen's invariant.
pub proof fn lemma_scroll_wf(s: Screen, n: int)
    requires
        s.wf(),
        0 <= n,
    ensures
        s.scroll_up(n).wf(),
        s.scroll_down(n).wf(),
{
    lemma_shift_uniform(s.grid, s.scroll_top, s.scroll_bottom, n, s.cols);
    lemma_last_n_shape(
        s.scrollback,
        departed(s.grid, s.scroll_top, s.scroll_bottom, n, s.cols),
        s.scrollback_limit,
        s.cols,
    );
}

proof fn lemma_last_n_twice(x: Seq<Line>, y: Seq<Line>, limit: int)
    requires
        0 <= limit,
    ensures
        last_n(last_n(x, limit) + y, limit) == last_n(x + y, limit),
{
    assert(last_n(last_n(x, limit) + y, limit) =~= last_n(x + y, limit));
}

/// Scrolling up by `a` rows and then by `b` rows is scrolling up by `a + b`
/// rows: for the grid and for the scrollback alike.
pub proof fn lemma_scroll_up_adds(s: Screen, a: int, b: int)
    requires
        s.wf(),
        0 <= a,
        0 <= b,
    ensures
        s.scroll_up(a).scroll_up(b) == s.scroll_up(a + b),
{
    let top = s.scroll_top;
    let bottom = s.scroll_bottom;
    let once = s.scroll_up(a);
    assert(once.scroll_up(b).grid =~= s.scroll_up(a + b).grid);
    if s.keeps_history() {
        let first = departed(s.grid, top, bottom, a, s.cols);
        let second = departed(once.grid, top, bottom, b, s.cols);
        assert(first + second =~= departed(s.grid, top, bottom, a + b, s.cols));
        lemma_last_n_twice(s.scrollback + first, second, s.scrollback_limit);
        assert((s.scrollback + first) + second =~= s.scrollback + (first + second));
    }
}

/// What the scrollback holds after rows have scrolled off: with limit `N`,
/// once more than `N` rows have left the top, it holds exactly `N` rows, the
/// `N` that left last, oldest first.
pub proof fn lemma_scrollback_eviction(s: Screen, m: int)
    requires
        s.wf(),
        s.keeps_history(),
        m > s.scrollback_limit,
    ensures
        s.scroll_up(m).scrollback.len() == s.scrollback_limit,
        forall|k: int|
            0 <= k < s.scrollback_limit ==> #[trigger] s.scroll_up(m).scrollback[k] == departed(
                s.grid,
                s.scroll_top,
                s.scroll_bottom,
                m,
                s.cols,
            )[m - s.scrollback_limit + k],
{
}

/// Rows `a ..= b` of `grid` move up by one; the row that leaves is handed back.
fn rotate_up(grid: &mut Vec<Row>, a: usize, b: usize, cols: usize) -> (gone: Row)
    requires
        a <= b < old(grid).len(),
    ensures
        lines_of(final(grid)@) == shift_up(lines_of(old(grid)@), a as int, b as int, 1, cols as int),
        gone@ == lines_of(old(grid)@)[a as int],
        final(grid).len() == old(grid).len(),
{
    let gone = grid.remove(a);
    let blank = Cell::blank();
    grid.insert(b, Row::new(cols, &blank));
    assert(lines_of(grid@) =~= shift_up(lines_of(old(grid)@), a as int, b as int, 1, cols as int));
    gone
}

/// Rows `a ..= b` of `grid` move down by one; the row that leaves is dropped.
fn rotate_down(grid: &mut Vec<Row>, a: usize, b: usize, cols: usize)
    requires
        a <= b < old(grid).len(),
    ensures
        lines_of(final(grid)@) == shift_down(
            lines_of(old(grid)@),
            a as int,
            b as int,
            1,
            cols as int,
        ),
        final(grid).len() == old(grid).len(),
{
    let _ = grid.remove(b);
    let blank = Cell::blank();
    grid.insert(a, Row::new(cols, &blank));
    assert(lines_of(grid@) =~= shift_down(
        lines_of(old(grid)@),
        a as int,
        b as int,
        1,
        cols as int,
    ));
}

/// Rows `a ..= b` of `grid` move up by `n`.
fn rows_up(grid: &mut Vec<Row>, a: usize, b: usize, n: u16, cols: usize)
    requires
        a <= b < old(grid).len(),
    ensures
        lines_of(final(grid)@) == shift_up(
            lines_of(old(grid)@),
            a as int,
            b as int,
            n as int,
            cols as int,
        ),
        final(grid).len() == old(grid).len(),
{
    let ghost g0 = lines_of(grid@);
    let mut i: u16 = 0;
    proof {
        lemma_shift_up_step(g0, a as int, b as int, 0, cols as int);
    }
    while i < n
        invariant
            i <= n,
            a <= b < grid.len(),
            g0.len() == grid.len(),
            lines_of(grid@) == shift_up(g0, a as int, b as int, i as int, cols as int),
        decreases n - i,
    {
        let _ = rotate_up(grid, a, b, cols);
        proof {
            lemma_shift_up_step(g0, a as int, b as int, i as int, cols as int);
        }
        i += 1;
    }
}

/// Rows `a ..= b` of `grid` move down by `n`.
fn rows_down(grid: &mut Vec<Row>, a: usize, b: usize, n: u16, cols: usize)
    requires
        a <= b < old(grid).len(),
    ensures
        lines_of(final(grid)@) == shift_down(
            lines_of(old(grid)@),
            a as int,
            b as int,
            n as int,
            cols as int,
        ),
        final(grid).len() == old(grid).len(),
{
    let ghost g0 = lines_of(grid@);
    let mut i: u16 = 0;
    proof {
        lemma_shift_down_step(g0, a as int, b as int, 0, cols as int);
    }
    while i < n
        invariant
            i <= n,
            a <= b < grid.len(),
            g0.len() == grid.len(),
            lines_of(grid@) == shift_down(g0, a as int, b as int, i as int, cols as int),
        decreases n - i,
    {
        rotate_down(grid, a, b, cols);
        proof {
            lemma_shift_down_step(g0, a as int, b as int, i as int, cols as int);
        }
        i += 1;
    }
}

/// Rows `a ..= b` of `grid` move up by `n`, and each row that leaves is
/// appended to `history`, which gives up its oldest row whenever it would
/// grow past `limit`.
fn rows_into_history(
    grid: &mut Vec<Row>,
    history: &mut VecDeque<Row>,
    a: usize,
    b: usize,
    n: u16,
    cols: usize,
    limit: usize,
)
    requires
        a <= b < old(grid).len(),
        old(history).len() <= limit,
    ensures
        lines_of(final(grid)@) == shift_up(
            lines_of(old(grid)@),
            a as int,
            b as int,
            n as int,
            cols as int,
        ),
        lines_of(final(history)@) == last_n(
            lines_of(old(history)@) + departed(
                lines_of(old(grid)@),
                a as int,
                b as int,
                n as int,
                cols as int,
            ),
            limit as int,
        ),
        final(grid).len() == old(grid).len(),
{
    let ghost g0 = lines_of(grid@);
    let ghost h0 = lines_of(history@);
    let mut i: u16 = 0;
    proof {
        lemma_shift_up_step(g0, a as int, b as int, 0, cols as int);
        assert(h0 + departed(g0, a as int, b as int, 0, cols as int) =~= h0);
    }
    while i < n
        invariant
            i <= n,
            a <= b < grid.len(),
            g0.len() == grid.len(),
            lines_of(grid@) == shift_up(g0, a as int, b as int, i as int, cols as int),
            lines_of(history@) == last_n(
                h0 + departed(g0, a as int, b as int, i as int, cols as int),
                limit as int,
            ),
        decreases n - i,
    {
        let ghost before = h0 + departed(g0, a as int, b as int, i as int, cols as int);
        let ghost grid_before = lines_of(grid@);
        let gone = rotate_up(grid, a, b, cols);
        assert(gone@ == grid_before[a as int]);
        assert(gone@ == departed(g0, a as int, b as int, i + 1, cols as int)[i as int]);
        history.push_back(gone);
        if history.len() > limit {
            let _ = history.pop_front();
        }
        proof {
            lemma_shift_up_step(g0, a as int, b as int, i as int, cols as int);
            lemma_last_n_push(before, gone@, limit as int);
            assert(h0 + departed(g0, a as int, b as int, i + 1, cols as int) =~= before.push(
                gone@,
            ));
            assert(lines_of(history@) =~= last_n(before.push(gone@), limit as int));
        }
        i += 1;
    }
}

impl TerminalState {
    fn keeps_history(&self) -> (r: bool)
        requires
            self.wf(),
        ensures
            r == self@.keeps_history(),
    {
        self.scroll_top == 0 && self.scroll_bottom == self.rows - 1 && self.kept.is_none()
    }

    fn scroll_up_into_history(&mut self, n: u16)
        requires
            old(self).wf(),
            old(self)@.keeps_history(),
        ensures
            final(self)@ == old(self)@.scroll_up(n as int),
    {
        let top = self.scroll_top as usize;
        let bottom = self.scroll_bottom as usize;
        let cols = self.cols as usize;
        let limit = self.scrollback_limit;
        rows_into_history(&mut self.grid, &mut self.scrollback, top, bottom, n, cols, limit);
        assert(self@.grid == old(self)@.scroll_up(n as int).grid);
        assert(self@.scrollback == old(self)@.scroll_up(n as int).scrollback);
    }

    fn scroll_up_in_place(&mut self, n: u16)
        requires
            old(self).wf(),
            !old(self)@.keeps_history(),
        ensures
            final(self)@ == old(self)@.scroll_up(n as int),
    {
        let top = self.scroll_top as usize;
        let bottom = self.scroll_bottom as usize;
        let cols = self.cols as usize;
        rows_up(&mut self.grid, top, bottom, n, cols);
        assert(self@.grid == old(self)@.scroll_up(n as int).grid);
        assert(self@.scrollback == old(self)@.scroll_up(n as int).scrollback);
    }

    pub(crate) fn scroll_up(&mut self, n: u16)
        requires
            old(self).wf(),
        ensures
            final(self)@ == old(self)@.scroll_up(n as int),
            final(self).wf(),
    {
        proof {
            lemma_scroll_wf(self@, n as int);
        }
        if self.keeps_history() {
            self.scroll_up_into_history(n);
        } else {
            self.scroll_up_in_place(n);
        }
    }

    pub(crate) fn scroll_down(&mut self, n: u16)
        requires
            old(self).wf(),
        ensures
            final(self)@ == old(self)@.scroll_down(n as int),
            final(self).wf(),
    {
        let top = self.scroll_top as usize;
        let bottom = self.scroll_bottom as usize;
        let cols = self.cols as usize;
        proof {
            lemma_shift_uniform(self@.grid, top as int, bottom as int, n as int, cols as int);
        }
        rows_down(&mut self.grid, top, bottom, n, cols);
    }

    /// Scrolls the scroll region up by `n` rows.
    pub fn scroll_up_region(&mut self, n: u16)
        requires
            old(self).wf(),
        ensures
            final(self)@ == old(self)@.scroll_up(n as int),
            final(self).wf(),
    {
        self.scroll_up(n);
    }

    /// Scrolls the scroll region down by `n` rows.
    pub fn scroll_down_region(&mut self, n: u16)
        requires
            old(self).wf(),
        ensures
            final(self)@ == old(self)@.scroll_down(n as int),
            final(self).wf(),
    {
        self.scroll_down(n);
    }

    /// Moves the cursor down one row. At the bottom of the scroll region the
    /// region scrolls up instead.
    pub fn newline(&mut self)
        requires
            old(self).wf(),
        ensures
            final(self)@ == old(self)@.newline(),
            final(self).wf(),
    {
        if self.cursor_y == self.scroll_bottom {
            self.scroll_up(1);
        } else if self.cursor_y < self.rows - 1 {
            self.cursor_y += 1;
        }
    }

    /// Moves the cursor up one row. At the top of the scroll region the
    /// region scrolls down instead.
    pub fn reverse_index(&mut self)
        requires
            old(self).wf(),
        ensures
            final(self)@ == old(self)@.reverse_index(),
            final(self).wf(),
    {
        if self.cursor_y == self.scroll_top {
            self.scroll_down(1);
        } else if self.cursor_y > 0 {
            self.cursor_y -= 1;
        }
    }

    /// Opens up `n` erased rows at the cursor's row; the rows from there to
    /// the bottom of the scroll region move down. Outside the scroll region
    /// nothing happens.
    pub fn insert_lines(&mut self, n: u16)
        requires
            old(self).wf(),
        ensures
            final(self)@ == old(self)@.insert_lines(n as int),
            final(self).wf(),
    {
        if self.scroll_top <= self.cursor_y && self.cursor_y <= self.scroll_bottom {
            let row = self.cursor_y as usize;
            let bottom = self.scroll_bottom as usize;
            let cols = self.cols as usize;
            proof {
                lemma_shift_uniform(self@.grid, row as int, bottom as int, n as int, cols as int);
            }
            rows_down(&mut self.grid, row, bottom, n, cols);
        }
    }

    /// Takes out `n` rows from the cursor's row on; the rows below, down to
    /// the bottom of the scroll region, move up. Outside the scroll region
    /// nothing happens.
    pub fn delete_lines(&mut self, n: u16)
        requires
            old(self).wf(),
        ensures
            final(self)@ == old(self)@.delete_lines(n as int),
            final(self).wf(),
    {
        if self.scroll_top <= self.cursor_y && self.cursor_y <= self.scroll_bottom {
            let row = self.cursor_y as usize;
            let bottom = self.scroll_bottom as usize;
            let cols = self.cols as usize;
            proof {
                lemma_shift_uniform(self@.grid, row as int, bottom as int, n as int, cols as int);
            }
            rows_up(&mut self.grid, row, bottom, n, cols);
        }
    }
}

} // verus!

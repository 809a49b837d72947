//! The alternate screen, the scrolled-back view and what is shown.

use vstd::prelude::*;
use crate::cell::{blank_lines, is_blank_char, lines_of, Cell, Line, Row};
use crate::edit::lemma_blank_lines_uniform;
use crate::state::{
    blank_rows, max_int, min_int, Cursor, Kept, KeptScreen, Screen, TerminalState, Viewport,
};

verus! {

/// Whether every cell of the row shows a space or nothing.
pub open spec fn line_is_blank(line: Line) -> bool {
    forall|i: int| 0 <= i < line.cells.len() ==> is_blank_char(#[trigger] line.cells[i].c)
}

/// How many rows at the end of `g` are blank.
pub open spec fn trailing_blank_rows(g: Seq<Line>) -> int
    decreases g.len(),
{
    if g.len() > 0 && line_is_blank(g.last()) {
        1 + trailing_blank_rows(g.drop_last())
    } else {
        0
    }
}

impl Screen {
    /// Switches to the alternate screen: the grid and the cursor are set
    /// aside, and an erased grid is shown with the cursor at the top left.
    /// The scrollback is left alone. Nothing happens if the alternate screen
    /// is shown already.
    pub open spec fn enter_alt_screen(self) -> Screen {
        if self.in_alt_screen() {
            self
        } else {
            Screen {
                kept: Some(Kept { grid: self.grid, cursor: (self.column(), self.cursor.y) }),
                grid: blank_lines(self.rows, self.cols),
                cursor: Cursor { x: 0, y: 0, wrap_pending: false },
                ..self.reset_scroll().dirtied()
            }
        }
    }

    /// Switches back to the primary screen: the grid and the cursor that
    /// were set aside return. Nothing happens on the primary screen.
    pub open spec fn leave_alt_screen(self) -> Screen {
        match self.kept {
            None => self,
            Some(k) => Screen {
                kept: None,
                grid: k.grid,
                ..self.at_column(k.cursor.0).at_row(min_int(k.cursor.1, self.rows - 1))
                    .reset_scroll().dirtied()
            },
        }
    }

    /// The furthest that the view can be scrolled back.
    pub open spec fn max_offset(self) -> int {
        min_int(self.scrollback.len() as int, i32::MAX as int)
    }

    /// Moves the view by `lines` rows into the history (or back, if
    /// negative), held between the live screen and the oldest row. The view
    /// counts as held by the user while it is off the live screen. On the
    /// alternate screen nothing happens.
    pub open spec fn scroll(self, lines: int) -> Screen {
        if self.in_alt_screen() {
            self
        } else {
            let offset = min_int(
                max_int(self.viewport.scroll_offset + lines, 0),
                self.max_offset(),
            );
            Screen {
                viewport: Viewport { scroll_offset: offset, user_scrolled: offset > 0 },
                ..self
            }.touched()
        }
    }

    /// Scrolls so that the absolute line `abs_line` sits in the middle of the
    /// view; a line of the grid brings the view back to the live screen.
    pub open spec fn scroll_to_abs_line(self, abs_line: int) -> Screen {
        if abs_line >= self.scrollback.len() {
            self.reset_scroll().touched()
        } else {
            Screen {
                viewport: Viewport {
                    scroll_offset: min_int(
                        self.scrollback.len() - abs_line + self.rows / 2,
                        self.max_offset(),
                    ),
                    user_scrolled: self.viewport.user_scrolled,
                },
                ..self
            }.touched()
        }
    }

    /// Absolute line number of the first row shown.
    pub open spec fn first_visible(self) -> int {
        self.scrollback.len() - self.viewport.scroll_offset
    }

    /// The rows shown: a window of `rows` rows over scrollback and grid that
    /// starts `scroll_offset` rows above the grid.
    pub open spec fn visible(self) -> Seq<Line> {
        self.all_lines().subrange(self.first_visible(), self.first_visible() + self.rows)
    }

    /// The number of blank rows below the last row with content, or zero
    /// while the view is scrolled back.
    pub open spec fn y_offset_rows(self) -> int {
        if self.viewport.scroll_offset != 0 {
            0
        } else {
            trailing_blank_rows(self.grid)
        }
    }
}

/// Entering and then leaving the alternate screen brings back the grid and
/// the cursor exactly as they were, and leaves the scrollback untouched.
pub proof fn lemma_alt_screen_round_trip(s: Screen)
    requires
        s.wf(),
        !s.in_alt_screen(),
    ensures
        s.enter_alt_screen().leave_alt_screen().grid == s.grid,
        s.enter_alt_screen().leave_alt_screen().cursor == s.cursor,
        s.enter_alt_screen().leave_alt_screen().scrollback == s.scrollback,
        !s.enter_alt_screen().leave_alt_screen().in_alt_screen(),
{
}

/// Switching screens and moving the view keep the screen's invariant.
pub proof fn lemma_view_wf(s: Screen, n: int)
    requires
        s.wf(),
    ensures
        s.enter_alt_screen().wf(),
        s.leave_alt_screen().wf(),
        s.scroll(n).wf(),
        0 <= n ==> s.scroll_to_abs_line(n).wf(),
{
    lemma_blank_lines_uniform(s.rows, s.cols);
}

fn cell_is_blank_row(cells: &Vec<Cell>) -> (r: bool)
    ensures
        r == line_is_blank(Line { cells: cells@, wrapped: false }),
{
    let mut i: usize = 0;
    while i < cells.len()
        invariant
            i <= cells.len(),
            forall|j: int| 0 <= j < i ==> is_blank_char(#[trigger] cells@[j].c),
        decreases cells.len() - i,
    {
        if !cells[i].is_blank() {
            return false;
        }
        i += 1;
    }
    true
}

impl Row {
    /// Whether every cell of the row shows a space or nothing.
    pub fn is_blank(&self) -> (r: bool)
        ensures
            r == line_is_blank(self@),
    {
        let r = cell_is_blank_row(&self.cells);
        assert(line_is_blank(self@) == line_is_blank(Line { cells: self.cells@, wrapped: false }));
        r
    }
}

impl TerminalState {
    /// Switches to the alternate screen: grid and cursor are set aside and
    /// an erased grid is shown. The scrollback is not touched.
    pub fn enter_alt_screen(&mut self)
        requires
            old(self).wf(),
        ensures
            final(self)@ == old(self)@.enter_alt_screen(),
            final(self).wf(),
    {
        proof {
            lemma_view_wf(self@, 0);
        }
        if self.kept.is_some() {
            return ;
        }
        let column = self.column();
        let mut grid = blank_rows(self.rows as usize, self.cols as usize);
        std::mem::swap(&mut self.grid, &mut grid);
        self.kept = Some(KeptScreen { grid, cursor: (column, self.cursor_y) });
        self.cursor_x = 0;
        self.cursor_y = 0;
        self.wrap_pending = false;
        self.reset_scroll();
        self.dirty = true;
    }

    /// Switches back to the primary screen: the grid and the cursor that
    /// were set aside return.
    pub fn leave_alt_screen(&mut self)
        requires
            old(self).wf(),
        ensures
            final(self)@ == old(self)@.leave_alt_screen(),
            final(self).wf(),
    {
        proof {
            lemma_view_wf(self@, 0);
        }
        let kept = self.kept.take();
        if let Some(k) = kept {
            self.grid = k.grid;
            self.set_column(k.cursor.0);
            self.cursor_y = if k.cursor.1 <= self.rows - 1 {
                k.cursor.1
            } else {
                self.rows - 1
            };
            self.reset_scroll();
            self.dirty = true;
        }
    }

    /// Moves the view by `lines` rows into the history, or back towards the
    /// live screen if `lines` is negative.
    pub fn scroll(&mut self, lines: i32)
        requires
            old(self).wf(),
        ensures
            final(self)@ == old(self)@.scroll(lines as int),
            final(self).wf(),
    {
        proof {
            lemma_view_wf(self@, lines as int);
        }
        if self.kept.is_some() {
            return ;
        }
        let len = self.scrollback.len();
        let max: i64 = if len <= 0x7fff_ffff {
            len as i64
        } else {
            0x7fff_ffff
        };
        let want: i64 = self.scroll_offset as i64 + lines as i64;
        let offset: i64 = if want < 0 {
            0
        } else if want > max {
            max
        } else {
            want
        };
        self.scroll_offset = offset as i32;
        self.user_scrolled = offset > 0;
        self.cursor_moved();
    }

    /// How many rows the view is scrolled back from the live screen.
    pub fn scroll_offset(&self) -> (r: i32)
        ensures
            r == self@.viewport.scroll_offset,
    {
        self.scroll_offset
    }

    /// The number of rows in the scrollback.
    pub fn scrollback_len(&self) -> (r: usize)
        ensures
            r == self@.scrollback.len(),
    {
        self.scrollback.len()
    }

    /// Scrolls so that the absolute line `abs_line` sits in the middle of the
    /// view; a line of the grid brings the view back to the live screen.
    pub fn scroll_to_abs_line(&mut self, abs_line: usize)
        requires
            old(self).wf(),
        ensures
            final(self)@ == old(self)@.scroll_to_abs_line(abs_line as int),
            final(self).wf(),
    {
        proof {
            lemma_view_wf(self@, abs_line as int);
        }
        let len = self.scrollback.len();
        if abs_line >= len {
            self.reset_scroll();
        } else {
            let max: u64 = if len <= 0x7fff_ffff {
                len as u64
            } else {
                0x7fff_ffff
            };
            let back: usize = len - abs_line;
            let half: usize = (self.rows / 2) as usize;
            let offset: u64 = if back as u64 >= max || (half as u64) >= max - back as u64 {
                max
            } else {
                back as u64 + half as u64
            };
            self.scroll_offset = offset as i32;
        }
        self.cursor_moved();
    }

    /// The row at absolute line `abs_line`, if there is one.
    pub fn row_at(&self, abs_line: usize) -> (r: Option<&Row>)
        ensures
            match r {
                Some(row) => abs_line < self@.all_lines().len() && row@ == self@.all_lines()[abs_line as int],
                None => abs_line >= self@.all_lines().len(),
            },
    {
        let sb_len = self.scrollback.len();
        if abs_line < sb_len {
            Some(&self.scrollback[abs_line])
        } else if abs_line - sb_len < self.grid.len() {
            Some(&self.grid[abs_line - sb_len])
        } else {
            None
        }
    }

    /// The rows shown, top to bottom: always `rows` of them.
    pub fn visible_lines(&self) -> (r: Vec<&[Cell]>)
        requires
            self.wf(),
        ensures
            r@.len() == self@.rows,
            forall|i: int| 0 <= i < r@.len() ==> (#[trigger] r@[i])@ == self@.visible()[i].cells,
    {
        let rows = self.rows as usize;
        let sb_len = self.scrollback.len();
        let offset = self.scroll_offset as usize;
        let mut lines: Vec<&[Cell]> = Vec::new();
        let mut i: usize = 0;
        while i < rows
            invariant
                self.wf(),
                i <= rows,
                rows == self.rows,
                sb_len == self.scrollback.len(),
                offset == self@.viewport.scroll_offset,
                lines@.len() == i,
                forall|j: int| 0 <= j < i ==> (#[trigger] lines@[j])@ == self@.visible()[j].cells,
            decreases rows - i,
        {
            if i < offset {
                lines.push(self.scrollback[sb_len - offset + i].cells.as_slice());
            } else {
                lines.push(self.grid[i - offset].cells.as_slice());
            }
            i += 1;
        }
        lines
    }

    /// The number of blank rows below the last row with content, or zero
    /// while the view is scrolled back.
    pub fn y_offset_rows(&self) -> (r: usize)
        requires
            self.wf(),
        ensures
            r == self@.y_offset_rows(),
    {
        if self.scroll_offset != 0 {
            return 0;
        }
        let mut n: usize = 0;
        let len = self.grid.len();
        assert(lines_of(self.grid@).take(len as int) =~= lines_of(self.grid@));
        while n < len && self.grid[len - 1 - n].is_blank()
            invariant
                len == self.grid.len(),
                n <= len,
                trailing_blank_rows(lines_of(self.grid@)) == n + trailing_blank_rows(
                    lines_of(self.grid@).take(len - n),
                ),
            decreases len - n,
        {
            proof {
                let g = lines_of(self.grid@).take(len - n);
                assert(g.last() == self.grid@[len - 1 - n]@);
                assert(g.drop_last() =~= lines_of(self.grid@).take(len - n - 1));
            }
            n += 1;
        }
        proof {
            let g = lines_of(self.grid@).take(len - n);
            if n < len {
                assert(g.last() == self.grid@[len - 1 - n]@);
            }
        }
        n
    }
}

} // verus!

//! Cursor movement, the saved-cursor slot and the scroll region's bounds.

use vstd::prelude::*;
use crate::state::{max_int, min_int, Cursor, Screen, TerminalState};

verus! {

impl Screen {
    /// To the first column of the row.
    pub open spec fn carriage_return(self) -> Screen {
        self.at_column(0).touched()
    }

    /// One column to the left, if there is one. From a pending wrap the
    /// cursor comes to rest on the last column.
    pub open spec fn backspace(self) -> Screen {
        if self.column() > 0 {
            self.at_column(self.column() - 1).touched()
        } else {
            self
        }
    }

    /// On to the next multiple of eight, but no further than the last column.
    pub open spec fn tab(self) -> Screen {
        self.at_column(min_int((self.column() / 8 + 1) * 8, self.cols - 1)).touched()
    }

    /// Up by `n` rows, no further than the first row of the grid.
    pub open spec fn cursor_up(self, n: int) -> Screen {
        self.at_row(max_int(self.cursor.y - n, 0)).touched()
    }

    /// Down by `n` rows, no further than the last row of the grid.
    pub open spec fn cursor_down(self, n: int) -> Screen {
        self.at_row(min_int(self.cursor.y + n, self.rows - 1)).touched()
    }

    /// Right by `n` columns, no further than the last column.
    pub open spec fn cursor_forward(self, n: int) -> Screen {
        self.at_column(min_int(self.column() + n, self.cols - 1)).touched()
    }

    /// Left by `n` columns, no further than the first column.
    pub open spec fn cursor_backward(self, n: int) -> Screen {
        self.at_column(max_int(self.column() - n, 0)).touched()
    }

    /// To row `row`, column `col`, each held to the grid.
    pub open spec fn set_cursor_pos(self, row: int, col: int) -> Screen {
        Screen {
            cursor: Cursor {
                x: min_int(col, self.cols - 1),
                y: min_int(row, self.rows - 1),
                wrap_pending: false,
            },
            ..self
        }.touched()
    }

    /// The cursor's place goes into the one slot for it; what was there is
    /// forgotten.
    pub open spec fn save_cursor(self) -> Screen {
        Screen { saved_cursor: Some((self.column(), self.cursor.y)), ..self }
    }

    /// Back to the saved position, held to the grid as it is now. Nothing
    /// happens while nothing is saved.
    pub open spec fn restore_cursor(self) -> Screen {
        match self.saved_cursor {
            Some((x, y)) => self.at_column(x).at_row(min_int(y, self.rows - 1)),
            None => self,
        }
    }

    /// Whether rows `top ..= bottom`, with `bottom` held to the last row, make
    /// a scroll region.
    pub open spec fn region_ok(self, top: int, bottom: int) -> bool {
        top <= min_int(bottom, self.rows - 1)
    }

    /// Sets the scroll region and homes the cursor. A region whose top lies
    /// below its bottom is refused and changes nothing.
    pub open spec fn set_scroll_region(self, top: int, bottom: int) -> Screen {
        if self.region_ok(top, bottom) {
            Screen {
                scroll_top: top,
                scroll_bottom: min_int(bottom, self.rows - 1),
                cursor: Cursor {
                    x: 0,
                    y: if self.modes.origin_mode {
                        top
                    } else {
                        0
                    },
                    wrap_pending: false,
                },
                ..self
            }
        } else {
            self
        }
    }
}

impl TerminalState {
    /// Moves the cursor to the first column.
    pub fn carriage_return(&mut self)
        requires
            old(self).wf(),
        ensures
            final(self)@ == old(self)@.carriage_return(),
            final(self).wf(),
    {
        self.set_column(0);
        self.cursor_moved();
    }

    /// Moves the cursor one column to the left, if there is one.
    pub fn backspace(&mut self)
        requires
            old(self).wf(),
        ensures
            final(self)@ == old(self)@.backspace(),
            final(self).wf(),
    {
        let c = self.column();
        if c > 0 {
            self.set_column(c - 1);
            self.cursor_moved();
        }
    }

    /// Moves the cursor to the next tab stop. Tab stops lie every eight
    /// columns, and the cursor stops at the last column at the latest.
    pub fn tab(&mut self)
        requires
            old(self).wf(),
        ensures
            final(self)@ == old(self)@.tab(),
            final(self).wf(),
    {
        let c = self.column();
        let next: u32 = ((c as u32) / 8 + 1) * 8;
        let last: u32 = (self.cols - 1) as u32;
        let target: u32 = if next <= last {
            next
        } else {
            last
        };
        self.set_column(target as u16);
        self.cursor_moved();
    }

    /// Moves the cursor up by `n` rows, held to the grid.
    pub fn cursor_up(&mut self, n: u16)
        requires
            old(self).wf(),
        ensures
            final(self)@ == old(self)@.cursor_up(n as int),
            final(self).wf(),
    {
        self.cursor_y = if self.cursor_y >= n {
            self.cursor_y - n
        } else {
            0
        };
        self.cursor_moved();
    }

    /// Moves the cursor down by `n` rows, held to the grid.
    pub fn cursor_down(&mut self, n: u16)
        requires
            old(self).wf(),
        ensures
            final(self)@ == old(self)@.cursor_down(n as int),
            final(self).wf(),
    {
        let want: u32 = (self.cursor_y as u32) + (n as u32);
        let last: u32 = (self.rows - 1) as u32;
        self.cursor_y = if want <= last {
            want as u16
        } else {
            self.rows - 1
        };
        self.cursor_moved();
    }

    /// Moves the cursor right by `n` columns, held to the grid.
    pub fn cursor_forward(&mut self, n: u16)
        requires
            old(self).wf(),
        ensures
            final(self)@ == old(self)@.cursor_forward(n as int),
            final(self).wf(),
    {
        let want: u32 = (self.column() as u32) + (n as u32);
        let last: u32 = (self.cols - 1) as u32;
        let target: u16 = if want <= last {
            want as u16
        } else {
            self.cols - 1
        };
        self.set_column(target);
        self.cursor_moved();
    }

    /// Moves the cursor left by `n` columns, held to the grid.
    pub fn cursor_backward(&mut self, n: u16)
        requires
            old(self).wf(),
        ensures
            final(self)@ == old(self)@.cursor_backward(n as int),
            final(self).wf(),
    {
        let c = self.column();
        let target: u16 = if c >= n {
            c - n
        } else {
            0
        };
        self.set_column(target);
        self.cursor_moved();
    }

    /// Puts the cursor at `row`, `col` (counted from zero), held to the grid.
    pub fn set_cursor_pos(&mut self, row: u16, col: u16)
        requires
            old(self).wf(),
        ensures
            final(self)@ == old(self)@.set_cursor_pos(row as int, col as int),
            final(self).wf(),
    {
        self.cursor_y = if row <= self.rows - 1 {
            row
        } else {
            self.rows - 1
        };
        self.cursor_x = if col <= self.cols - 1 {
            col
        } else {
            self.cols - 1
        };
        self.wrap_pending = false;
        self.cursor_moved();
    }

    /// Saves the cursor's place. There is one slot: the last save wins.
    pub fn save_cursor(&mut self)
        requires
            old(self).wf(),
        ensures
            final(self)@ == old(self)@.save_cursor(),
            final(self).wf(),
    {
        self.saved_cursor = Some((self.column(), self.cursor_y));
    }

    /// Puts the cursor back where it was saved, held to the grid as it is
    /// now. Nothing happens while nothing is saved.
    pub fn restore_cursor(&mut self)
        requires
            old(self).wf(),
        ensures
            final(self)@ == old(self)@.restore_cursor(),
            final(self).wf(),
    {
        if let Some((x, y)) = self.saved_cursor {
            self.set_column(x);
            self.cursor_y = if y <= self.rows - 1 {
                y
            } else {
                self.rows - 1
            };
        }
    }

    /// Makes rows `top ..= bottom` the scroll region, with `bottom` held to
    /// the last row, and homes the cursor. A region whose top lies below its
    /// bottom is refused and changes nothing.
    pub fn set_scroll_region(&mut self, top: u16, bottom: u16)
        requires
            old(self).wf(),
        ensures
            final(self)@ == old(self)@.set_scroll_region(top as int, bottom as int),
            final(self).wf(),
    {
        let last: u16 = if bottom <= self.rows - 1 {
            bottom
        } else {
            self.rows - 1
        };
        if top <= last {
            self.scroll_top = top;
            self.scroll_bottom = last;
            self.cursor_x = 0;
            self.wrap_pending = false;
            self.cursor_y = if self.modes.origin_mode {
                top
            } else {
                0
            };
        }
    }
}

} // verus!

//! The screen buffer: its fields, its mathematical view and its invariant.

use std::collections::VecDeque;
use vstd::prelude::*;
use crate::cell::{blank_cell, blank_line, blank_lines, lines_of, Cell, Line, Row};
use crate::color::Color;

verus! {

/// How the cursor is drawn.
#[derive(Clone, Copy, Debug, PartialEq, Eq, Structural)]
pub enum CursorShape {
    Block,
    Underline,
    Bar,
}

/// A position in the whole history: `line` counts from the oldest scrollback
/// row, so the first grid row is line `scrollback_len()`.
#[derive(Clone, Copy, Debug, PartialEq, Eq, Structural)]
pub struct GridPos {
    pub line: usize,
    pub col: u16,
}

/// A selected span. Either end may come first.
#[derive(Clone, Copy, Debug, PartialEq, Eq, Structural)]
pub struct Selection {
    pub anchor: GridPos,
    pub end: GridPos,
}

/// The pen that newly written cells take their look from.
#[derive(Clone, Copy, Debug, PartialEq, Eq, Structural)]
pub struct Pen {
    pub fg: Color,
    pub bg: Color,
    pub reversed: bool,
    pub bold: bool,
    pub dim: bool,
}

/// The mode flags that programs switch on and off.
#[derive(Clone, Copy, Debug, PartialEq, Eq, Structural)]
pub struct Modes {
    /// A character written past the last column starts a new row.
    pub auto_wrap: bool,
    /// Written characters push the rest of the row to the right.
    pub insert_mode: bool,
    pub origin_mode: bool,
    /// Cursor keys send application sequences.
    pub cursor_keys_application: bool,
    pub bracketed_paste: bool,
    pub focus_reporting: bool,
    pub synchronized_output: bool,
    pub cursor_visible: bool,
}

/// The modes of a fresh screen: auto-wrap and a visible cursor, nothing else.
pub open spec fn default_modes() -> Modes {
    Modes {
        auto_wrap: true,
        insert_mode: false,
        origin_mode: false,
        cursor_keys_application: false,
        bracketed_paste: false,
        focus_reporting: false,
        synchronized_output: false,
        cursor_visible: true,
    }
}

/// The pen of a fresh screen.
pub open spec fn default_pen() -> Pen {
    Pen { fg: Color::Foreground, bg: Color::Background, reversed: false, bold: false, dim: false }
}

/// Where the cursor is.
pub struct Cursor {
    pub x: int,
    pub y: int,
    /// The last column has been written and the next character wraps.
    pub wrap_pending: bool,
}

/// Which part of the history is shown.
pub struct Viewport {
    /// How many rows the view is scrolled back from the live screen.
    pub scroll_offset: int,
    /// The user holds the view in the history, so output does not reset it.
    pub user_scrolled: bool,
}

/// What the screen tells its owner.
pub struct Signals {
    /// A redraw is due.
    pub dirty: bool,
    /// The bell has rung.
    pub bell: bool,
    /// Goes up by one, wrapping, on every cursor move.
    pub cursor_move_epoch: int,
}

/// The primary screen, kept while the alternate screen is shown.
pub struct Kept {
    pub grid: Seq<Line>,
    pub cursor: (int, int),
}

/// Strings that programs report about themselves.
pub struct Meta {
    pub cwd: Option<Seq<char>>,
    pub git_branch: Option<Seq<char>>,
    pub title: Option<Seq<char>>,
    pub last_command: Option<Seq<char>>,
}

/// The screen buffer as contracts see it.
pub struct Screen {
    pub cols: int,
    pub rows: int,
    pub grid: Seq<Line>,
    pub scrollback: Seq<Line>,
    pub scrollback_limit: int,
    pub cursor: Cursor,
    pub viewport: Viewport,
    pub pen: Pen,
    pub modes: Modes,
    pub saved_cursor: Option<(int, int)>,
    pub scroll_top: int,
    pub scroll_bottom: int,
    pub cursor_shape: CursorShape,
    pub signals: Signals,
    /// `Some` exactly while the alternate screen is shown.
    pub kept: Option<Kept>,
    pub meta: Meta,
    pub selection: Option<Selection>,
    pub sync_output_since: Option<int>,
}

/// Every row has exactly `cols` cells.
pub open spec fn uniform(lines: Seq<Line>, cols: int) -> bool {
    forall|i: int| 0 <= i < lines.len() ==> (#[trigger] lines[i]).cells.len() == cols
}

/// The smaller of two numbers.
pub open spec fn min_int(a: int, b: int) -> int {
    if a <= b {
        a
    } else {
        b
    }
}

/// The larger of two numbers.
pub open spec fn max_int(a: int, b: int) -> int {
    if a >= b {
        a
    } else {
        b
    }
}

/// Whether both numbers fit into sixteen bits.
pub open spec fn pair_in_range(p: (int, int)) -> bool {
    0 <= p.0 <= u16::MAX && 0 <= p.1 <= u16::MAX
}

impl Screen {
    /// The invariant of the screen buffer.
    pub open spec fn wf(self) -> bool {
        &&& 1 <= self.cols <= u16::MAX
        &&& 1 <= self.rows <= u16::MAX
        &&& self.grid.len() == self.rows
        &&& uniform(self.grid, self.cols)
        &&& 0 <= self.scrollback_limit <= usize::MAX
        &&& self.scrollback.len() <= self.scrollback_limit
        &&& uniform(self.scrollback, self.cols)
        &&& 0 <= self.cursor.x < self.cols
        &&& 0 <= self.cursor.y < self.rows
        &&& (self.cursor.wrap_pending ==> self.cursor.x == self.cols - 1)
        &&& 0 <= self.scroll_top <= self.scroll_bottom < self.rows
        &&& 0 <= self.viewport.scroll_offset <= self.scrollback.len()
        &&& self.viewport.scroll_offset <= i32::MAX
        &&& (self.kept is Some ==> {
            &&& self.kept->0.grid.len() == self.rows
            &&& uniform(self.kept->0.grid, self.cols)
            &&& pair_in_range(self.kept->0.cursor)
        })
        &&& (self.saved_cursor is Some ==> pair_in_range(self.saved_cursor->0))
        &&& 0 <= self.signals.cursor_move_epoch <= u32::MAX
        &&& (self.sync_output_since is Some ==> 0 <= self.sync_output_since->0 <= u64::MAX)
    }

    /// A fresh screen of the given size: erased grid, empty scrollback, cursor
    /// at the top left, every mode at its default.
    pub open spec fn initial(cols: int, rows: int, scrollback_limit: int) -> Screen {
        Screen {
            cols,
            rows,
            grid: blank_lines(rows, cols),
            scrollback: Seq::empty(),
            scrollback_limit,
            cursor: Cursor { x: 0, y: 0, wrap_pending: false },
            viewport: Viewport { scroll_offset: 0, user_scrolled: false },
            pen: default_pen(),
            modes: default_modes(),
            saved_cursor: None,
            scroll_top: 0,
            scroll_bottom: rows - 1,
            cursor_shape: CursorShape::Block,
            signals: Signals { dirty: true, bell: false, cursor_move_epoch: 0 },
            kept: None,
            meta: Meta { cwd: None, git_branch: None, title: None, last_command: None },
            selection: None,
            sync_output_since: None,
        }
    }

    /// Whether the alternate screen is shown.
    pub open spec fn in_alt_screen(self) -> bool {
        self.kept is Some
    }

    /// The column the next character goes to, `cols` while a wrap is pending.
    pub open spec fn column(self) -> int {
        if self.cursor.wrap_pending {
            self.cols
        } else {
            self.cursor.x
        }
    }

    /// The screen with its cursor at column `c`, where `c == cols` stands for
    /// the last column with a wrap pending.
    pub open spec fn at_column(self, c: int) -> Screen {
        Screen {
            cursor: Cursor {
                x: min_int(c, self.cols - 1),
                y: self.cursor.y,
                wrap_pending: c >= self.cols,
            },
            ..self
        }
    }

    /// The screen with its cursor on row `y`.
    pub open spec fn at_row(self, y: int) -> Screen {
        Screen { cursor: Cursor { y, ..self.cursor }, ..self }
    }

    /// Scrollback rows followed by grid rows.
    pub open spec fn all_lines(self) -> Seq<Line> {
        self.scrollback + self.grid
    }

    /// The screen with a redraw due.
    pub open spec fn dirtied(self) -> Screen {
        Screen { signals: Signals { dirty: true, ..self.signals }, ..self }
    }

    /// What a cursor movement leaves behind: a redraw is due and the blink
    /// phase starts over.
    pub open spec fn touched(self) -> Screen {
        Screen {
            signals: Signals {
                dirty: true,
                bell: self.signals.bell,
                cursor_move_epoch: if self.signals.cursor_move_epoch == u32::MAX {
                    0
                } else {
                    self.signals.cursor_move_epoch + 1
                },
            },
            ..self
        }
    }

    /// The view back at the live screen.
    pub open spec fn reset_scroll(self) -> Screen {
        Screen { viewport: Viewport { scroll_offset: 0, user_scrolled: false }, ..self }
    }
}

/// What the invariant says of grid and scrollback: the grid has `rows` rows,
/// every row of grid and scrollback has `cols` cells, and the scrollback is
/// within its limit. Every function that changes a screen buffer keeps the
/// invariant, so this holds of every screen buffer that can be reached.
pub proof fn lemma_grid_invariants(s: Screen)
    requires
        s.wf(),
    ensures
        s.grid.len() == s.rows,
        forall|i: int| 0 <= i < s.grid.len() ==> (#[trigger] s.grid[i]).cells.len() == s.cols,
        forall|i: int|
            0 <= i < s.scrollback.len() ==> (#[trigger] s.scrollback[i]).cells.len() == s.cols,
        s.scrollback.len() <= s.scrollback_limit,
        0 <= s.cursor.x < s.cols,
        0 <= s.cursor.y < s.rows,
        0 <= s.scroll_top <= s.scroll_bottom < s.rows,
{
}

/// The characters of a string that may be missing.
pub open spec fn text_of(s: Option<String>) -> Option<Seq<char>> {
    match s {
        Some(t) => Some(t@),
        None => None,
    }
}

/// A pair of machine numbers as a pair of numbers.
pub open spec fn pair_of(p: (u16, u16)) -> (int, int) {
    (p.0 as int, p.1 as int)
}

/// A pair that may be missing, as a pair of numbers.
pub open spec fn opt_pair_of(p: Option<(u16, u16)>) -> Option<(int, int)> {
    match p {
        Some(q) => Some(pair_of(q)),
        None => None,
    }
}

/// A point in time that may be missing, as a number.
pub open spec fn instant_of(t: Option<u64>) -> Option<int> {
    match t {
        Some(v) => Some(v as int),
        None => None,
    }
}

/// The primary screen's grid and cursor, set aside while the alternate
/// screen is shown.
#[derive(Debug)]
pub struct KeptScreen {
    pub grid: Vec<Row>,
    pub cursor: (u16, u16),
}

impl View for KeptScreen {
    type V = Kept;

    open spec fn view(&self) -> Kept {
        Kept { grid: lines_of(self.grid@), cursor: pair_of(self.cursor) }
    }
}

/// The view of a screen that may have been set aside.
pub open spec fn kept_of(k: Option<KeptScreen>) -> Option<Kept> {
    match k {
        Some(v) => Some(v@),
        None => None,
    }
}

/// The screen buffer of one terminal session.
pub struct TerminalState {
    pub cols: u16,
    pub rows: u16,
    pub grid: Vec<Row>,
    pub scrollback: VecDeque<Row>,
    pub scrollback_limit: usize,
    pub cursor_x: u16,
    pub cursor_y: u16,
    /// The last column has been written and the next character wraps.
    pub wrap_pending: bool,
    pub scroll_offset: i32,
    pub user_scrolled: bool,
    pub pen: Pen,
    pub modes: Modes,
    pub saved_cursor: Option<(u16, u16)>,
    pub scroll_top: u16,
    pub scroll_bottom: u16,
    pub cursor_shape: CursorShape,
    /// Goes up by one, wrapping, on every cursor move.
    pub cursor_move_epoch: u32,
    /// A redraw is due.
    pub dirty: bool,
    /// The bell has rung.
    pub bell: bool,
    /// `Some` exactly while the alternate screen is shown.
    pub kept: Option<KeptScreen>,
    pub cwd: Option<String>,
    pub git_branch: Option<String>,
    pub title: Option<String>,
    pub last_command: Option<String>,
    pub selection: Option<Selection>,
    /// Milliseconds on the caller's monotonic clock at which synchronized
    /// output was switched on.
    pub sync_output_since: Option<u64>,
}

impl View for TerminalState {
    type V = Screen;

    open spec fn view(&self) -> Screen {
        Screen {
            cols: self.cols as int,
            rows: self.rows as int,
            grid: lines_of(self.grid@),
            scrollback: lines_of(self.scrollback@),
            scrollback_limit: self.scrollback_limit as int,
            cursor: Cursor {
                x: self.cursor_x as int,
                y: self.cursor_y as int,
                wrap_pending: self.wrap_pending,
            },
            viewport: Viewport {
                scroll_offset: self.scroll_offset as int,
                user_scrolled: self.user_scrolled,
            },
            pen: self.pen,
            modes: self.modes,
            saved_cursor: opt_pair_of(self.saved_cursor),
            scroll_top: self.scroll_top as int,
            scroll_bottom: self.scroll_bottom as int,
            cursor_shape: self.cursor_shape,
            signals: Signals {
                dirty: self.dirty,
                bell: self.bell,
                cursor_move_epoch: self.cursor_move_epoch as int,
            },
            kept: kept_of(self.kept),
            meta: Meta {
                cwd: text_of(self.cwd),
                git_branch: text_of(self.git_branch),
                title: text_of(self.title),
                last_command: text_of(self.last_command),
            },
            selection: self.selection,
            sync_output_since: instant_of(self.sync_output_since),
        }
    }
}

/// `n` erased rows of `cols` cells.
pub fn blank_rows(n: usize, cols: usize) -> (r: Vec<Row>)
    ensures
        lines_of(r@) == blank_lines(n as int, cols as int),
{
    let blank = Cell::blank();
    let mut rows: Vec<Row> = Vec::new();
    let mut i: usize = 0;
    while i < n
        invariant
            i <= n,
            blank == blank_cell(),
            rows@.len() == i,
            forall|j: int| 0 <= j < i ==> (#[trigger] rows@[j])@ == blank_line(cols as int),
        decreases n - i,
    {
        rows.push(Row::new(cols, &blank));
        i += 1;
    }
    assert(lines_of(rows@) =~= blank_lines(n as int, cols as int));
    rows
}

impl TerminalState {
    /// The invariant of the screen buffer.
    pub open spec fn wf(&self) -> bool {
        self@.wf()
    }

    /// A fresh screen buffer of `cols` by `rows` cells that keeps at most
    /// `scrollback_limit` rows of history.
    pub fn new(cols: u16, rows: u16, scrollback_limit: usize) -> (r: TerminalState)
        requires
            cols >= 1,
            rows >= 1,
        ensures
            r.wf(),
            r@ == Screen::initial(cols as int, rows as int, scrollback_limit as int),
    {
        let grid = blank_rows(rows as usize, cols as usize);
        let r = TerminalState {
            cols,
            rows,
            grid,
            scrollback: VecDeque::new(),
            scrollback_limit,
            cursor_x: 0,
            cursor_y: 0,
            wrap_pending: false,
            scroll_offset: 0,
            user_scrolled: false,
            pen: Pen {
                fg: Color::Foreground,
                bg: Color::Background,
                reversed: false,
                bold: false,
                dim: false,
            },
            modes: Modes {
                auto_wrap: true,
                insert_mode: false,
                origin_mode: false,
                cursor_keys_application: false,
                bracketed_paste: false,
                focus_reporting: false,
                synchronized_output: false,
                cursor_visible: true,
            },
            saved_cursor: None,
            scroll_top: 0,
            scroll_bottom: rows - 1,
            cursor_shape: CursorShape::Block,
            cursor_move_epoch: 0,
            dirty: true,
            bell: false,
            kept: None,
            cwd: None,
            git_branch: None,
            title: None,
            last_command: None,
            selection: None,
            sync_output_since: None,
        };
        assert(r@.scrollback =~= Seq::empty());
        r
    }

    /// Whether the alternate screen is shown.
    pub fn in_alt_screen(&self) -> (r: bool)
        ensures
            r == self@.in_alt_screen(),
    {
        self.kept.is_some()
    }

    pub(crate) fn cursor_moved(&mut self)
        ensures
            final(self)@ == old(self)@.touched(),
            old(self).wf() ==> final(self).wf(),
    {
        self.dirty = true;
        self.cursor_move_epoch = if self.cursor_move_epoch == u32::MAX {
            0
        } else {
            self.cursor_move_epoch + 1
        };
    }

    /// Brings the view back to the live screen.
    pub fn reset_scroll(&mut self)
        ensures
            final(self)@ == old(self)@.reset_scroll(),
            old(self).wf() ==> final(self).wf(),
    {
        self.scroll_offset = 0;
        self.user_scrolled = false;
    }

    /// The column the next character goes to, `cols` while a wrap is pending.
    pub(crate) fn column(&self) -> (c: u16)
        requires
            self.wf(),
        ensures
            c == self@.column(),
    {
        if self.wrap_pending {
            self.cols
        } else {
            self.cursor_x
        }
    }

    pub(crate) fn set_column(&mut self, c: u16)
        requires
            old(self).wf(),
        ensures
            final(self)@ == old(self)@.at_column(c as int),
            final(self).wf(),
    {
        if c >= self.cols {
            self.cursor_x = self.cols - 1;
            self.wrap_pending = true;
        } else {
            self.cursor_x = c;
            self.wrap_pending = false;
        }
    }
}

} // verus!

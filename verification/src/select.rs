//! The selection: which cells it covers and the text it holds.

use vstd::prelude::*;
use crate::cell::{Cell, Line};
use crate::state::{min_int, GridPos, Screen, Selection, TerminalState};
use crate::text::{push_chars, trim_end, trimmed_end};

verus! {

/// The characters that the cells show.
pub open spec fn chars_of(cells: Seq<Cell>) -> Seq<char> {
    Seq::new(cells.len(), |i: int| cells[i].c)
}

/// Whether `a` comes no later than `b`, by line and then by column.
pub open spec fn pos_le(a: GridPos, b: GridPos) -> bool {
    a.line < b.line || (a.line == b.line && a.col <= b.col)
}

/// The end of the selection that comes first.
pub open spec fn sel_start(sel: Selection) -> GridPos {
    if pos_le(sel.anchor, sel.end) {
        sel.anchor
    } else {
        sel.end
    }
}

/// The end of the selection that comes last.
pub open spec fn sel_end(sel: Selection) -> GridPos {
    if pos_le(sel.anchor, sel.end) {
        sel.end
    } else {
        sel.anchor
    }
}

/// Whether the span from `start` to `end`, both included, covers the cell.
pub open spec fn covers(start: GridPos, end: GridPos, line: int, col: int) -> bool {
    if line < start.line || line > end.line {
        false
    } else if start.line == end.line {
        start.col <= col <= end.col
    } else if line == start.line {
        col >= start.col
    } else if line == end.line {
        col <= end.col
    } else {
        true
    }
}

/// The text of the cells `a ..= b` of a row, without white space at its end;
/// nothing if `a` lies past `b`.
pub open spec fn span_text(line: Line, a: int, b: int) -> Seq<char> {
    if a <= b {
        trim_end(chars_of(line.cells.subrange(a, b + 1)))
    } else {
        Seq::empty()
    }
}

/// The first selected column of row `i`.
pub open spec fn first_col(i: int, start: GridPos) -> int {
    if i == start.line {
        start.col as int
    } else {
        0
    }
}

/// The last selected column of row `i`.
pub open spec fn last_col(line: Line, i: int, end: GridPos) -> int {
    if i == end.line {
        min_int(end.col as int, line.cells.len() - 1)
    } else {
        line.cells.len() - 1
    }
}

/// What row `i` adds to the selected text: its selected cells without
/// trailing white space, and a line break if the selection goes on and the
/// row ends its logical line.
pub open spec fn row_part(line: Line, i: int, start: GridPos, end: GridPos) -> Seq<char> {
    span_text(line, first_col(i, start), last_col(line, i, end)) + (if i < end.line
        && !line.wrapped {
        seq!['\n']
    } else {
        Seq::empty()
    })
}

/// The selected text from row `i` on.
pub open spec fn selected_from(all: Seq<Line>, start: GridPos, end: GridPos, i: int) -> Seq<char>
    decreases all.len() - i,
{
    if 0 <= i < all.len() && i <= end.line {
        row_part(all[i], i, start, end) + selected_from(all, start, end, i + 1)
    } else {
        Seq::empty()
    }
}

impl Screen {
    /// Whether the cell at absolute line `line`, column `col` is selected.
    pub open spec fn is_selected(self, line: int, col: int) -> bool {
        match self.selection {
            Some(sel) => covers(sel_start(sel), sel_end(sel), line, col),
            None => false,
        }
    }

    /// The selected text: row by row over scrollback and grid, each row
    /// without trailing white space, with a line break after every row that
    /// ends its logical line, and none after the last.
    pub open spec fn selected_text(self) -> Seq<char> {
        match self.selection {
            Some(sel) => selected_from(
                self.all_lines(),
                sel_start(sel),
                sel_end(sel),
                sel_start(sel).line as int,
            ),
            None => Seq::empty(),
        }
    }

    /// The screen with another selection, or none.
    pub open spec fn with_selection(self, selection: Option<Selection>) -> Screen {
        Screen { selection, ..self }
    }

    /// The screen without its selection; a redraw is due if it had one.
    pub open spec fn clear_selection(self) -> Screen {
        if self.selection is Some {
            Screen { selection: None, ..self }.dirtied()
        } else {
            self
        }
    }
}

/// A selection means the same whichever of its ends was recorded first: it
/// covers the same cells and holds the same text.
pub proof fn lemma_selection_order(s: Screen, a: GridPos, b: GridPos, line: int, col: int)
    ensures
        s.with_selection(Some(Selection { anchor: a, end: b })).selected_text() == s.with_selection(
            Some(Selection { anchor: b, end: a }),
        ).selected_text(),
        s.with_selection(Some(Selection { anchor: a, end: b })).is_selected(line, col)
            == s.with_selection(Some(Selection { anchor: b, end: a })).is_selected(line, col),
{
    let ab = Selection { anchor: a, end: b };
    let ba = Selection { anchor: b, end: a };
    if pos_le(a, b) && pos_le(b, a) {
        assert(a == b);
    }
    assert(sel_start(ab) == sel_start(ba));
    assert(sel_end(ab) == sel_end(ba));
}

/// Appends the text of the cells `a ..= b` of `cells` to `out`, without the
/// white space at its end.
fn push_span(out: &mut String, cells: &Vec<Cell>, a: usize, b: usize)
    requires
        b < cells.len(),
    ensures
        final(out)@ == old(out)@ + span_text(
            Line { cells: cells@, wrapped: false },
            a as int,
            b as int,
        ),
{
    if a > b {
        assert(out@ =~= old(out)@ + Seq::<char>::empty());
        return ;
    }
    let ghost want = chars_of(cells@.subrange(a as int, b + 1));
    let mut chars: Vec<char> = Vec::new();
    let mut i: usize = a;
    while i <= b
        invariant
            a <= i <= b + 1,
            b < cells.len(),
            chars@.len() == i - a,
            forall|j: int| 0 <= j < i - a ==> chars@[j] == cells@[a + j].c,
        decreases b + 1 - i,
    {
        chars.push(cells[i].c);
        i += 1;
    }
    assert(chars@ =~= want);
    let n = trimmed_end(&chars);
    push_chars(out, &chars, 0, n);
    assert(chars@.subrange(0, n as int) =~= trim_end(want));
}

impl TerminalState {
    /// The two ends of the selection, the earlier one first.
    pub fn ordered_selection(&self) -> (r: Option<(GridPos, GridPos)>)
        ensures
            match r {
                Some((start, end)) => self.selection is Some && start == sel_start(
                    self.selection->0,
                ) && end == sel_end(self.selection->0),
                None => self.selection is None,
            },
    {
        match self.selection {
            Some(sel) => {
                if sel.anchor.line < sel.end.line || (sel.anchor.line == sel.end.line
                    && sel.anchor.col <= sel.end.col) {
                    Some((sel.anchor, sel.end))
                } else {
                    Some((sel.end, sel.anchor))
                }
            },
            None => None,
        }
    }

    /// Whether the cell at absolute line `abs_line`, column `col` is selected.
    pub fn is_selected(&self, abs_line: usize, col: u16) -> (r: bool)
        ensures
            r == self@.is_selected(abs_line as int, col as int),
    {
        match self.ordered_selection() {
            None => false,
            Some((start, end)) => {
                if abs_line < start.line || abs_line > end.line {
                    false
                } else if start.line == end.line {
                    col >= start.col && col <= end.col
                } else if abs_line == start.line {
                    col >= start.col
                } else if abs_line == end.line {
                    col <= end.col
                } else {
                    true
                }
            },
        }
    }

    /// The selected text; empty if nothing is selected.
    pub fn selected_text(&self) -> (r: String)
        requires
            self.wf(),
        ensures
            r@ == self@.selected_text(),
    {
        let mut out = String::new();
        let (start, end) = match self.ordered_selection() {
            None => {
                return out;
            },
            Some(pair) => pair,
        };
        let ghost all = self@.all_lines();
        let ghost target = selected_from(all, start, end, start.line as int);
        let mut i: usize = start.line;
        assert(out@ + target =~= target);
        loop
            invariant_except_break
                out@ + selected_from(all, start, end, i as int) == target,
            invariant
                self.wf(),
                all == self@.all_lines(),
                start.line <= i,
            ensures
                out@ == target,
            decreases all.len() - i,
        {
            if i > end.line {
                assert(out@ + Seq::<char>::empty() =~= out@);
                break ;
            }
            let row = match self.row_at(i) {
                None => {
                    assert(out@ + Seq::<char>::empty() =~= out@);
                    break ;
                },
                Some(row) => row,
            };
            let ghost before = out@;
            let ghost line = all[i as int];
            assert(line == row@);
            assert(line.cells.len() == self@.cols) by {
                if i < self@.scrollback.len() {
                    assert(all[i as int] == self@.scrollback[i as int]);
                } else {
                    assert(all[i as int] == self@.grid[i - self@.scrollback.len()]);
                }
            }
            let last = row.cells.len() - 1;
            let a: usize = if i == start.line {
                start.col as usize
            } else {
                0
            };
            let b: usize = if i == end.line && (end.col as usize) < last {
                end.col as usize
            } else {
                last
            };
            push_span(&mut out, &row.cells, a, b);
            assert(span_text(Line { cells: row.cells@, wrapped: false }, a as int, b as int)
                == span_text(line, first_col(i as int, start), last_col(line, i as int, end)));
            if i < end.line && !row.wrapped {
                out.push('\n');
            }
            assert(out@ =~= before + row_part(line, i as int, start, end));
            assert(out@ + selected_from(all, start, end, i + 1) =~= before + (row_part(
                line,
                i as int,
                start,
                end,
            ) + selected_from(all, start, end, i + 1)));
            if i == usize::MAX {
                assert(selected_from(all, start, end, i + 1) =~= Seq::<char>::empty());
                assert(out@ + Seq::<char>::empty() =~= out@);
                break ;
            }
            i += 1;
        }
        out
    }

    /// Selects the span between `anchor` and `end`, in either order.
    pub fn set_selection(&mut self, anchor: GridPos, end: GridPos)
        requires
            old(self).wf(),
        ensures
            final(self)@ == old(self)@.with_selection(Some(Selection { anchor, end })).dirtied(),
            final(self).wf(),
    {
        self.selection = Some(Selection { anchor, end });
        self.dirty = true;
    }

    /// Drops the selection; a redraw is due if there was one.
    pub fn clear_selection(&mut self)
        requires
            old(self).wf(),
        ensures
            final(self)@ == old(self)@.clear_selection(),
            final(self).wf(),
    {
        if self.selection.is_some() {
            self.selection = None;
            self.dirty = true;
        }
    }
}

} // verus!

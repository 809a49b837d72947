//! What a fresh screen holds after text has been typed into it, and that a
//! change of width that is taken back restores such a screen.

use vstd::prelude::*;
use crate::cell::{blank_line, blank_lines, is_blank_char, Cell, Line};
use crate::color::Color;
use crate::edit::{lemma_put_char_wf, with_cells};
use crate::reflow::{
    lines_before, locate, logical_from, logical_lines, piece, reflow, run_cells, trimmed_len,
    wrap_from, wrap_line, wrap_lines_from,
};
use crate::reflow_laws::{
    joined, lemma_counts_nonnegative, lemma_logical_of_wrap_line, lemma_reflow_keeps_cursor,
    lemma_rejoin_keeps_content, lemma_trimmed_len_is, lemma_wrap_line_same,
};
use crate::resize::trim_bottom;
use crate::resize_laws::{
    lemma_lines_before_grows, lemma_prefix_counts, lemma_reflow_with_blank_lines,
    lemma_resize_round_trip, lemma_wrap_from_shape, lemma_wrap_line_shape,
};
use crate::state::{default_modes, default_pen, Screen};
use crate::view::line_is_blank;

verus! {

/// How many rows of `w` cells a line of `n` cells takes: one for every `w`
/// cells or part of them, and one for a line without cells.
pub open spec fn rows_needed(n: int, w: int) -> int
    decreases n,
{
    if w >= 1 && n > w {
        1 + rows_needed(n - w, w)
    } else {
        1
    }
}

/// How many cells of a line of `n` cells stand in its last row of `w` cells:
/// all `w` of them where the line fills its rows.
pub open spec fn last_len(n: int, w: int) -> int
    decreases n,
{
    if w >= 1 && n > w {
        last_len(n - w, w)
    } else {
        n
    }
}

/// The cell that a fresh pen writes for `c`.
pub open spec fn plain(c: char) -> Cell {
    Cell { c, fg: Color::Foreground, bg: Color::Background, bold: false, dim: false }
}

/// The cells that a fresh pen writes for a text.
pub open spec fn ink(text: Seq<char>) -> Seq<Cell> {
    Seq::new(text.len(), |i: int| plain(text[i]))
}

/// Whether no character of the text is blank.
pub open spec fn solid(text: Seq<char>) -> bool {
    forall|i: int| 0 <= i < text.len() ==> !is_blank_char(#[trigger] text[i])
}

/// The rows of one logical line with one more cell at its end: in column
/// `col` of the last row, or in a row of its own behind a last row that is
/// full, which then continues.
pub open spec fn appended(rows: Seq<Line>, cell: Cell, col: int, w: int) -> Seq<Line> {
    if col < w {
        rows.update(
            rows.len() - 1,
            Line { cells: rows.last().cells.update(col, cell), wrapped: false },
        )
    } else {
        rows.update(rows.len() - 1, Line { cells: rows.last().cells, wrapped: true }).push(
            Line { cells: blank_line(w).cells.update(0, cell), wrapped: false },
        )
    }
}

/// How the rows that a line takes, and the cells in its last row, grow with
/// one more cell.
pub proof fn lemma_one_more_cell(n: int, w: int)
    requires
        0 <= n,
        w >= 1,
    ensures
        0 <= last_len(n, w) <= w,
        n > 0 ==> last_len(n, w) >= 1,
        rows_needed(n, w) >= 1,
        last_len(n + 1, w) == (if last_len(n, w) < w {
            last_len(n, w) + 1
        } else {
            1
        }),
        rows_needed(n + 1, w) == (if last_len(n, w) < w {
            rows_needed(n, w)
        } else {
            rows_needed(n, w) + 1
        }),
    decreases n,
{
    if n > w {
        lemma_one_more_cell(n - w, w);
    } else if n == w {
        assert(last_len(1, w) == 1);
        assert(rows_needed(1, w) == 1);
    }
}

proof fn lemma_wrap_from_append(cells: Seq<Cell>, c: Cell, k: int, w: int, start: int)
    requires
        w >= 1,
        0 <= start < k,
        cells.len() == k,
    ensures
        wrap_from(cells.push(c), k + 1, w, start) == appended(
            wrap_from(cells, k, w, start),
            c,
            last_len(k - start, w),
            w,
        ),
        wrap_from(cells, k, w, start).len() == rows_needed(k - start, w),
    decreases k - start,
{
    let more = cells.push(c);
    let f = wrap_from(cells, k, w, start);
    let g = wrap_from(more, k + 1, w, start);
    let p = piece(cells, k, w, start);
    let q = piece(more, k + 1, w, start);
    let f2 = wrap_from(cells, k, w, start + w);
    let g2 = wrap_from(more, k + 1, w, start + w);
    assert(f =~= seq![p] + f2);
    assert(g =~= seq![q] + g2);
    if start + w < k {
        lemma_wrap_from_append(cells, c, k, w, start + w);
        assert(q.cells =~= p.cells);
        assert(q == p);
        assert(f2.len() >= 1);
        assert(g =~= appended(f, c, last_len(k - start, w), w));
    } else if start + w == k {
        assert(f2 =~= Seq::<Line>::empty());
        let r = piece(more, k + 1, w, k);
        assert(wrap_from(more, k + 1, w, k + w) =~= Seq::<Line>::empty());
        assert(g2 =~= seq![r]);
        assert(q.cells =~= p.cells);
        assert(r.cells =~= blank_line(w).cells.update(0, c));
        assert(g =~= appended(f, c, last_len(k - start, w), w));
    } else {
        assert(f2 =~= Seq::<Line>::empty());
        assert(g2 =~= Seq::<Line>::empty());
        assert(q.cells =~= p.cells.update(k - start, c));
        assert(g =~= appended(f, c, last_len(k - start, w), w));
    }
}

proof fn lemma_ink_trimmed(text: Seq<char>)
    requires
        solid(text),
    ensures
        trimmed_len(ink(text)) == text.len(),
{
    let x = ink(text);
    if text.len() > 0 {
        assert(x[text.len() - 1].c == text[text.len() - 1]);
    }
    lemma_trimmed_len_is(x, text.len() as int);
}

/// The rows of a line of solid text with one more character: the rows of the
/// text, with the cell of the character appended.
pub proof fn lemma_typed_rows(text: Seq<char>, ch: char, w: int)
    requires
        w >= 1,
        solid(text),
        !is_blank_char(ch),
    ensures
        wrap_line(ink(text.push(ch)), w) == appended(
            wrap_line(ink(text), w),
            plain(ch),
            last_len(text.len() as int, w),
            w,
        ),
        wrap_line(ink(text), w).len() == rows_needed(text.len() as int, w),
        solid(text.push(ch)),
{
    let k = text.len() as int;
    let more = text.push(ch);
    assert(solid(more)) by {
        assert forall|i: int| 0 <= i < more.len() implies !is_blank_char(#[trigger] more[i]) by {
            if i < k {
                assert(more[i] == text[i]);
            }
        }
    }
    lemma_ink_trimmed(text);
    lemma_ink_trimmed(more);
    assert(ink(more) =~= ink(text).push(plain(ch)));
    if k == 0 {
        let x = ink(more);
        assert(wrap_from(x, 1, w, w) =~= Seq::<Line>::empty());
        assert(wrap_from(x, 1, w, 0) =~= seq![piece(x, 1, w, 0)]);
        assert(piece(x, 1, w, 0).cells =~= blank_line(w).cells.update(0, plain(ch)));
        assert(wrap_line(x, w) =~= appended(seq![blank_line(w)], plain(ch), 0, w));
    } else {
        lemma_wrap_from_append(ink(text), plain(ch), k, w, 0);
    }
}

/// The screen after the first `k` characters of the text have been written
/// to it, one after the other.
pub open spec fn typed(s: Screen, text: Seq<char>, k: int) -> Screen
    decreases k,
{
    if k <= 0 {
        s
    } else {
        typed(s, text, k - 1).put_char(text[k - 1])
    }
}

/// Whether the screen shows the text as it stands after typing it into a
/// fresh screen: the text in the rows of one logical line from the top,
/// erased rows below, the cursor behind the last character, and nothing
/// else changed.
pub open spec fn shows(s: Screen, text: Seq<char>) -> bool {
    &&& s.wf()
    &&& s.scrollback.len() == 0
    &&& s.kept is None
    &&& s.pen == default_pen()
    &&& s.modes == default_modes()
    &&& s.scroll_top == 0
    &&& s.scroll_bottom == s.rows - 1
    &&& rows_needed(text.len() as int, s.cols) <= s.rows
    &&& s.grid == wrap_line(ink(text), s.cols) + blank_lines(
        s.rows - rows_needed(text.len() as int, s.cols),
        s.cols,
    )
    &&& s.cursor.y == rows_needed(text.len() as int, s.cols) - 1
    &&& s.column() == last_len(text.len() as int, s.cols)
}

/// Writing one more character to a screen that shows a text makes it show
/// the text with that character, as long as the grid has the rows for it.
pub proof fn lemma_put_char_shows(s: Screen, text: Seq<char>, ch: char)
    requires
        shows(s, text),
        solid(text),
        !is_blank_char(ch),
        rows_needed((text.len() + 1) as int, s.cols) <= s.rows,
    ensures
        shows(s.put_char(ch), text.push(ch)),
        s.put_char(ch).cols == s.cols,
        s.put_char(ch).rows == s.rows,
        s.put_char(ch).scrollback_limit == s.scrollback_limit,
{
    let cols = s.cols;
    let rows = s.rows;
    let k = text.len() as int;
    let f = wrap_line(ink(text), cols);
    let n = rows_needed(k, cols);
    let p = rows - n;
    let col = last_len(k, cols);
    let y = s.cursor.y;
    lemma_one_more_cell(k, cols);
    lemma_typed_rows(text, ch, cols);
    lemma_wrap_line_shape(ink(text), cols);
    lemma_put_char_wf(s, ch);
    let t = if s.viewport.user_scrolled {
        s.touched()
    } else {
        s.touched().reset_scroll()
    };
    assert(t.grid == s.grid);
    assert(t.cursor == s.cursor);
    assert(s.grid[y] == f[n - 1]);
    assert(!f[n - 1].wrapped);
    let after = s.put_char(ch);
    let goal = appended(f, plain(ch), col, cols);
    if col < cols {
        assert(!s.cursor.wrap_pending);
        assert(t.settle_wrap() == t);
        let w = t.write_cell(ch);
        assert(t.inked(ch) == plain(ch));
        assert(w.grid == with_cells(s.grid, y, s.grid[y].cells.update(col, plain(ch))));
        assert(w.grid =~= goal + blank_lines(p, cols));
        assert(w.cursor == s.cursor);
        assert(after == w.at_column(col + 1));
        assert(after.grid == w.grid);
        assert(after.column() == col + 1);
    } else {
        assert(s.cursor.wrap_pending);
        assert(p >= 1);
        let marked = t.with_row(Line { cells: t.grid[y].cells, wrapped: true }).at_column(0);
        assert(marked.cursor.y == y);
        assert(y < rows - 1);
        assert(marked.newline() == marked.at_row(y + 1));
        let moved = t.settle_wrap();
        assert(moved == marked.at_row(y + 1));
        assert(moved.grid == s.grid.update(y, Line { cells: s.grid[y].cells, wrapped: true }));
        assert(moved.grid[y + 1] == blank_line(cols));
        let w = moved.write_cell(ch);
        assert(moved.inked(ch) == plain(ch));
        assert(w.grid == with_cells(moved.grid, y + 1, blank_line(cols).cells.update(0, plain(ch))));
        assert(w.grid =~= goal + blank_lines(p - 1, cols));
        assert(after == w.at_column(1));
        assert(after.grid == w.grid);
        assert(after.cursor.y == y + 1);
        assert(after.column() == 1);
    }
}

/// A fresh screen shows the empty text.
pub proof fn lemma_fresh_shows(cols: int, rows: int, limit: int)
    requires
        1 <= cols <= u16::MAX,
        1 <= rows <= u16::MAX,
        0 <= limit <= usize::MAX,
    ensures
        shows(Screen::initial(cols, rows, limit), Seq::<char>::empty()),
        Screen::initial(cols, rows, limit).wf(),
{
    let s = Screen::initial(cols, rows, limit);
    let none = Seq::<char>::empty();
    assert(ink(none) =~= Seq::<Cell>::empty());
    assert(trimmed_len(ink(none)) == 0);
    assert(s.grid =~= seq![blank_line(cols)] + blank_lines(rows - 1, cols));
}

/// What a fresh screen shows after text has been typed into it: as long as
/// the grid has the rows for the text, and no character of it is blank, the
/// text stands in the rows of one logical line from the top, with the cursor
/// behind it, and nothing has scrolled.
pub proof fn lemma_typed_shows(cols: int, rows: int, limit: int, text: Seq<char>, k: int)
    requires
        1 <= cols <= u16::MAX,
        1 <= rows <= u16::MAX,
        0 <= limit <= usize::MAX,
        solid(text),
        0 <= k <= text.len(),
        rows_needed(k, cols) <= rows,
    ensures
        shows(typed(Screen::initial(cols, rows, limit), text, k), text.take(k)),
        typed(Screen::initial(cols, rows, limit), text, k).cols == cols,
        typed(Screen::initial(cols, rows, limit), text, k).rows == rows,
        typed(Screen::initial(cols, rows, limit), text, k).scrollback_limit == limit,
    decreases k,
{
    let s0 = Screen::initial(cols, rows, limit);
    if k == 0 {
        lemma_fresh_shows(cols, rows, limit);
        assert(text.take(0) =~= Seq::<char>::empty());
    } else {
        lemma_one_more_cell(k - 1, cols);
        lemma_typed_shows(cols, rows, limit, text, k - 1);
        let before = text.take(k - 1);
        assert(text.take(k) =~= before.push(text[k - 1]));
        assert(solid(before)) by {
            assert forall|i: int| 0 <= i < before.len() implies !is_blank_char(
                #[trigger] before[i],
            ) by {
                assert(before[i] == text[i]);
            }
        }
        lemma_put_char_shows(typed(s0, text, k - 1), before, text[k - 1]);
    }
}

/// Rows cut from one logical line, re-wrapped to another width, are the
/// rows cut from that line at the other width.
pub proof fn lemma_reflow_of_wrap_line(x: Seq<Cell>, w: int, c: int)
    requires
        w >= 1,
        c >= 1,
    ensures
        reflow(wrap_line(x, w), c) == wrap_line(x, c),
{
    let rows = wrap_line(x, w);
    let none = Seq::<Line>::empty();
    lemma_logical_of_wrap_line(x, w, none);
    assert(rows + none =~= rows);
    assert(logical_from(none, 0, Seq::<Cell>::empty()) =~= Seq::<Seq<Cell>>::empty());
    let j = joined(rows);
    assert(logical_lines(rows) =~= seq![j]);
    assert(wrap_lines_from(seq![j], c, 1) =~= none);
    assert(reflow(rows, c) =~= wrap_line(j, c));
    lemma_rejoin_keeps_content(x, w);
    lemma_wrap_line_same(j, x, c);
}

proof fn lemma_lines_before_zero(g: Seq<Line>, r: int)
    requires
        0 <= r <= g.len(),
        forall|j: int| 0 <= j < r ==> (#[trigger] g[j]).wrapped,
    ensures
        lines_before(g, r) == 0,
    decreases r,
{
    if r > 0 {
        lemma_lines_before_zero(g, r - 1);
    }
}

proof fn lemma_run_cells_shift(first: Line, rest: Seq<Line>, r: int)
    requires
        first.wrapped,
        0 <= r <= rest.len(),
        forall|j: int| 0 <= j < r ==> (#[trigger] rest[j]).wrapped,
    ensures
        run_cells(seq![first] + rest, r + 1) == first.cells.len() + run_cells(rest, r),
    decreases r,
{
    let g = seq![first] + rest;
    assert(g[0] == first);
    if r > 0 {
        lemma_run_cells_shift(first, rest, r - 1);
        assert(g[r] == rest[r - 1]);
        assert(rest[r - 1].wrapped);
        assert(run_cells(g, r + 1) == run_cells(g, r) + g[r].cells.len());
        assert(run_cells(rest, r) == run_cells(rest, r - 1) + rest[r - 1].cells.len());
    } else {
        assert(run_cells(g, 0) == 0);
        assert(run_cells(g, 1) == run_cells(g, 0) + g[0].cells.len());
    }
}

proof fn lemma_run_wrap_from(cells: Seq<Cell>, k: int, w: int, start: int)
    requires
        w >= 1,
        0 <= start < k <= cells.len(),
        !is_blank_char(cells[k - 1].c),
    ensures
        run_cells(wrap_from(cells, k, w, start), wrap_from(cells, k, w, start).len() - 1)
            + last_len(k - start, w) == k - start,
    decreases k - start,
{
    let f = wrap_from(cells, k, w, start);
    let p = piece(cells, k, w, start);
    let f2 = wrap_from(cells, k, w, start + w);
    assert(f =~= seq![p] + f2);
    if start + w < k {
        lemma_run_wrap_from(cells, k, w, start + w);
        lemma_wrap_from_shape(cells, k, w, start + w);
        lemma_run_cells_shift(p, f2, f2.len() - 1);
    } else {
        assert(f2 =~= Seq::<Line>::empty());
    }
}

/// In the rows of a line of solid text the cells before the last row and the
/// cells in the last row are all the cells of the text.
proof fn lemma_run_of_text(text: Seq<char>, w: int)
    requires
        w >= 1,
        solid(text),
    ensures
        run_cells(wrap_line(ink(text), w), wrap_line(ink(text), w).len() - 1) + last_len(
            text.len() as int,
            w,
        ) == text.len(),
{
    lemma_ink_trimmed(text);
    if text.len() > 0 {
        assert(ink(text)[text.len() - 1].c == text[text.len() - 1]);
        lemma_run_wrap_from(ink(text), text.len() as int, w, 0);
    }
}

proof fn lemma_trim_padded(g: Seq<Line>, p: int, w: int, nr: int, cy: int)
    requires
        0 <= p,
        0 <= w,
        0 <= cy < g.len() <= nr,
    ensures
        trim_bottom(g + blank_lines(p, w), nr, cy).len() <= nr,
    decreases p,
{
    let x = g + blank_lines(p, w);
    if p == 0 {
        assert(x =~= g);
    } else if x.len() > nr {
        assert(x.last() == blank_line(w));
        assert(line_is_blank(blank_line(w)));
        assert(x.drop_last() =~= g + blank_lines(p - 1, w));
        lemma_trim_padded(g, p - 1, w, nr, cy);
    }
}

/// A screen that shows solid text is wrapped at its own width, and at any
/// other width at which the text has room it still fits, with the cursor on
/// its cell wherever the text does not fill its last row.
pub proof fn lemma_shown_text_fits(s: Screen, text: Seq<char>, w: int)
    requires
        shows(s, text),
        solid(text),
        1 <= w <= u16::MAX,
        w != s.cols,
        rows_needed(text.len() as int, w) <= s.rows,
    ensures
        reflow(s.grid, s.cols) == s.grid,
        s.fits_at(w),
        last_len(text.len() as int, w) < w ==> s.cursor_fits_at(w),
        !s.in_alt_screen(),
{
    let cols = s.cols;
    let rows = s.rows;
    let k = text.len() as int;
    let x = ink(text);
    let f = wrap_line(x, cols);
    let n = rows_needed(k, cols);
    let p = rows - n;
    let y = s.cursor.y;
    lemma_one_more_cell(k, cols);
    lemma_one_more_cell(k, w);
    lemma_wrap_line_shape(x, cols);
    lemma_wrap_line_shape(x, w);
    lemma_ink_trimmed(text);
    if k > 0 {
        lemma_wrap_from_rows(x, k, cols, 0);
        lemma_wrap_from_rows(x, k, w, 0);
    }
    assert(f.len() == n);
    // wrapped at its own width
    lemma_reflow_with_blank_lines(f, p, cols, cols);
    lemma_reflow_of_wrap_line(x, cols, cols);
    assert(reflow(s.grid, cols) == s.grid);
    // at the other width
    let g = wrap_line(x, w);
    let m = rows_needed(k, w);
    assert(g.len() == m);
    lemma_reflow_with_blank_lines(f, p, cols, w);
    lemma_reflow_of_wrap_line(x, cols, w);
    let r = reflow(s.grid, w);
    assert(r == g + blank_lines(p, w));
    // the cursor stays in the rows of the text
    lemma_prefix_counts(f, blank_lines(p, cols), y);
    lemma_lines_before_zero(f, y);
    assert(lines_before(s.grid, y) == 0);
    lemma_reflow_keeps_cursor(s.grid, y, s.column(), cols, w);
    let spot = s.rewrapped_spot(w);
    assert(spot == locate(r, 0, run_cells(s.grid, y) + s.column(), w));
    if spot.row >= m {
        lemma_lines_before_grows(r, m, spot.row);
        lemma_counts_nonnegative(r, m - 1);
        assert(r[m - 1] == g.last());
        assert(lines_before(r, m) == lines_before(r, m - 1) + 1);
        assert(false);
    }
    lemma_trim_padded(g, p, w, rows, spot.row);
    assert(s.fits_at(w));
    // the cursor's offset is the length of the text
    lemma_run_of_text(text, cols);
    lemma_run_of_text(text, w);
    assert(run_cells(s.grid, y) + s.column() == k);
    if last_len(k, w) < w {
        lemma_prefix_counts(g, blank_lines(p, w), spot.row);
        if !(run_cells(r, spot.row) + spot.col == k) {
            assert(r[spot.row] == g[spot.row]);
            assert(!g[spot.row].wrapped);
            assert(spot.row == m - 1);
            assert(false);
        }
    }
}

proof fn lemma_wrap_from_rows(cells: Seq<Cell>, k: int, w: int, start: int)
    requires
        w >= 1,
        0 <= start < k,
    ensures
        wrap_from(cells, k, w, start).len() == rows_needed(k - start, w),
    decreases k - start,
{
    let f2 = wrap_from(cells, k, w, start + w);
    assert(wrap_from(cells, k, w, start) =~= seq![piece(cells, k, w, start)] + f2);
    if start + w < k {
        lemma_wrap_from_rows(cells, k, w, start + w);
    } else {
        assert(f2 =~= Seq::<Line>::empty());
    }
}

/// A line of `n` cells has room in `r` rows of `w` cells if `n` is no more
/// than `w` times `r`.
pub proof fn lemma_rows_needed_bound(n: int, w: int, r: int)
    requires
        w >= 1,
        r >= 1,
        0 <= n <= w * r,
    ensures
        rows_needed(n, w) <= r,
    decreases r,
{
    if n > w {
        assert(r >= 2) by (nonlinear_arith)
            requires
                n > w,
                n <= w * r,
                w >= 1,
                r >= 1,
        ;
        assert(n - w <= w * (r - 1)) by (nonlinear_arith)
            requires
                n <= w * r,
        ;
        lemma_rows_needed_bound(n - w, w, r - 1);
    }
}

/// A line of `n` cells fills its last row of `w` cells exactly where `w`
/// divides `n`.
pub proof fn lemma_last_len_full(n: int, w: int)
    requires
        w >= 1,
        n >= 1,
    ensures
        last_len(n, w) == w <==> n % w == 0,
    decreases n,
{
    if n > w {
        lemma_last_len_full(n - w, w);
        assert((n - w) % w == n % w) by (nonlinear_arith)
            requires
                w >= 1,
        ;
    } else if n == w {
        assert(n % w == 0) by (nonlinear_arith)
            requires
                n == w,
                w >= 1,
        ;
    } else {
        assert(n % w == n) by (nonlinear_arith)
            requires
                0 <= n < w,
        ;
    }
}

/// Where `w` does not divide `n`, a line of `n` cells has `n % w` cells in
/// its last row and `n / w` full rows before it.
pub proof fn lemma_rows_by_division(n: int, w: int)
    requires
        w >= 1,
        n >= 0,
        n % w != 0,
    ensures
        last_len(n, w) == n % w,
        rows_needed(n, w) == n / w + 1,
    decreases n,
{
    if n > w {
        assert((n - w) % w == n % w && (n - w) / w == n / w - 1) by (nonlinear_arith)
            requires
                w >= 1,
        ;
        lemma_rows_by_division(n - w, w);
    } else {
        assert(n % w == n && n / w == 0) by (nonlinear_arith)
            requires
                0 <= n <= w,
                w >= 1,
                n % w != 0,
        ;
    }
}

/// Where the cursor stands after solid text has been typed into a fresh
/// screen that has the rows for it: behind the text, in column `n % cols` of
/// row `n / cols` where the text of `n` characters does not end at the end
/// of a row.
pub proof fn lemma_cursor_after_typing(cols: int, rows: int, limit: int, text: Seq<char>)
    requires
        1 <= cols <= u16::MAX,
        1 <= rows <= u16::MAX,
        0 <= limit <= usize::MAX,
        solid(text),
        text.len() <= cols * rows,
        (text.len() as int) % cols != 0,
    ensures
        typed(Screen::initial(cols, rows, limit), text, text.len() as int).cursor.x == (
        text.len() as int) % cols,
        typed(Screen::initial(cols, rows, limit), text, text.len() as int).cursor.y == (
        text.len() as int) / cols,
        !typed(Screen::initial(cols, rows, limit), text, text.len() as int).cursor.wrap_pending,
        typed(Screen::initial(cols, rows, limit), text, text.len() as int).scrollback.len() == 0,
{
    let k = text.len() as int;
    lemma_rows_needed_bound(k, cols, rows);
    lemma_typed_shows(cols, rows, limit, text, k);
    assert(text.take(k) =~= text);
    lemma_rows_by_division(k, cols);
    lemma_one_more_cell(k, cols);
}

/// Text typed into a fresh screen survives a change of width that is taken
/// back. Where the text is solid, longer than nothing, and has room in the
/// grid at both widths, the grid comes back cell for cell and flag for flag
/// and nothing has gone to the scrollback. Where the text does not end at
/// the end of a row at either width, the cursor comes back to its cell
/// behind the text.
pub proof fn lemma_typed_round_trip(cols: int, rows: int, limit: int, text: Seq<char>, w: int)
    requires
        1 <= cols <= u16::MAX,
        1 <= rows <= u16::MAX,
        1 <= w <= u16::MAX,
        0 <= limit <= usize::MAX,
        solid(text),
        text.len() <= cols * rows,
        text.len() <= w * rows,
    ensures
        typed(Screen::initial(cols, rows, limit), text, text.len() as int).resize(w, rows).resize(
            cols,
            rows,
        ).grid == typed(Screen::initial(cols, rows, limit), text, text.len() as int).grid,
        typed(Screen::initial(cols, rows, limit), text, text.len() as int).resize(w, rows).resize(
            cols,
            rows,
        ).scrollback.len() == 0,
        (text.len() as int) % cols != 0 && (text.len() as int) % w != 0 ==> typed(
            Screen::initial(cols, rows, limit),
            text,
            text.len() as int,
        ).resize(w, rows).resize(cols, rows).cursor == typed(
            Screen::initial(cols, rows, limit),
            text,
            text.len() as int,
        ).cursor,
{
    let k = text.len() as int;
    let s = typed(Screen::initial(cols, rows, limit), text, k);
    lemma_rows_needed_bound(k, cols, rows);
    lemma_rows_needed_bound(k, w, rows);
    lemma_typed_shows(cols, rows, limit, text, k);
    assert(text.take(k) =~= text);
    if w != cols {
        lemma_shown_text_fits(s, text, w);
        lemma_resize_round_trip(s, w);
        if k >= 1 {
            lemma_last_len_full(k, cols);
            lemma_last_len_full(k, w);
        }
        lemma_one_more_cell(k, cols);
        lemma_one_more_cell(k, w);
        if k % cols != 0 && k % w != 0 {
            assert(k >= 1) by (nonlinear_arith)
                requires
                    k >= 0,
                    cols >= 1,
                    k % cols != 0,
            ;
            assert(last_len(k, cols) < cols);
            assert(last_len(k, w) < w);
            assert(!s.cursor.wrap_pending);
            assert(s.cursor_fits_at(w));
        }
    }
}

} // verus!

//! What a change of width that is taken back restores.

use vstd::prelude::*;
use crate::cell::{blank_line, blank_lines, is_blank_char, Cell, Line};
use crate::reflow::{
    lemma_reflow_uniform, lines_before, locate, logical_from, logical_lines, piece, reflow,
    run_cells, trimmed_len, wrap_from, wrap_line, wrap_lines_from,
};
use crate::reflow_laws::{
    lemma_logical_shift, lemma_reflow_keeps_cursor, lemma_reflow_round_trip,
    lemma_trimmed_len_facts,
};
use crate::resize::{excess, lemma_resize_wf, trim_bottom};
use crate::state::{uniform, Screen};
use crate::view::line_is_blank;

verus! {

/// Whether the rows end their last logical line, and every blank row that
/// ends a line is an erased row that makes up its line alone.
pub open spec fn tidy(r: Seq<Line>, w: int) -> bool {
    &&& r.len() > 0 ==> !r.last().wrapped
    &&& forall|i: int|
        0 <= i < r.len() && !(#[trigger] r[i]).wrapped && line_is_blank(r[i]) ==> r[i]
            == blank_line(w) && (i > 0 ==> !r[i - 1].wrapped)
}

pub(crate) proof fn lemma_wrap_from_shape(cells: Seq<Cell>, n: int, w: int, start: int)
    requires
        w >= 1,
        0 <= start < n <= cells.len(),
        !is_blank_char(cells[n - 1].c),
    ensures
        wrap_from(cells, n, w, start).len() >= 1,
        !wrap_from(cells, n, w, start).last().wrapped,
        !line_is_blank(wrap_from(cells, n, w, start).last()),
        forall|i: int|
            0 <= i < wrap_from(cells, n, w, start).len() - 1 ==> (#[trigger] wrap_from(
                cells,
                n,
                w,
                start,
            )[i]).wrapped,
    decreases n - start,
{
    let rows = wrap_from(cells, n, w, start);
    let first = piece(cells, n, w, start);
    let more = wrap_from(cells, n, w, start + w);
    assert(rows =~= seq![first] + more);
    if start + w < n {
        lemma_wrap_from_shape(cells, n, w, start + w);
        assert(rows.last() == more.last());
        assert forall|i: int| 0 <= i < rows.len() - 1 implies (#[trigger] rows[i]).wrapped by {
            if i > 0 {
                assert(rows[i] == more[i - 1]);
            }
        }
    } else {
        assert(more =~= Seq::<Line>::empty());
        assert(rows.last() == first);
        assert(first.cells[n - 1 - start] == cells[n - 1]);
    }
}

pub(crate) proof fn lemma_wrap_line_shape(cells: Seq<Cell>, w: int)
    requires
        w >= 1,
    ensures
        wrap_line(cells, w).len() >= 1,
        !wrap_line(cells, w).last().wrapped,
        line_is_blank(wrap_line(cells, w).last()) ==> wrap_line(cells, w) == seq![blank_line(w)],
        forall|i: int|
            0 <= i < wrap_line(cells, w).len() - 1 ==> (#[trigger] wrap_line(cells, w)[i]).wrapped,
{
    lemma_trimmed_len_facts(cells);
    if trimmed_len(cells) > 0 {
        lemma_wrap_from_shape(cells, trimmed_len(cells), w, 0);
    }
}

/// Re-wrapped rows are tidy.
pub proof fn lemma_wrap_lines_tidy(lines: Seq<Seq<Cell>>, w: int, k: int)
    requires
        w >= 1,
        0 <= k <= lines.len(),
    ensures
        tidy(wrap_lines_from(lines, w, k), w),
        k < lines.len() ==> wrap_lines_from(lines, w, k).len() >= 1,
    decreases lines.len() - k,
{
    let all = wrap_lines_from(lines, w, k);
    if k < lines.len() {
        let head = wrap_line(lines[k], w);
        let rest = wrap_lines_from(lines, w, k + 1);
        lemma_wrap_line_shape(lines[k], w);
        lemma_wrap_lines_tidy(lines, w, k + 1);
        assert(all == head + rest);
        if rest.len() > 0 {
            assert(all.last() == rest.last());
        } else {
            assert(all =~= head);
        }
        assert forall|i: int|
            0 <= i < all.len() && !(#[trigger] all[i]).wrapped && line_is_blank(
                all[i],
            ) implies all[i] == blank_line(w) && (i > 0 ==> !all[i - 1].wrapped) by {
            if i < head.len() {
                assert(all[i] == head[i]);
                assert(i == head.len() - 1);
            } else {
                assert(all[i] == rest[i - head.len()]);
                if i - head.len() > 0 {
                    assert(all[i - 1] == rest[i - head.len() - 1]);
                } else {
                    assert(all[i - 1] == head.last());
                }
            }
        }
    }
}

/// What taking blank rows off the end of tidy rows leaves: tidy rows, and
/// the rows taken off are erased rows.
pub proof fn lemma_trim_tidy(r: Seq<Line>, nr: int, cy: int, w: int)
    requires
        tidy(r, w),
    ensures
        tidy(trim_bottom(r, nr, cy), w),
        trim_bottom(r, nr, cy).len() <= r.len(),
        r == trim_bottom(r, nr, cy) + blank_lines(r.len() - trim_bottom(r, nr, cy).len(), w),
        r.len() > cy && cy >= 0 ==> trim_bottom(r, nr, cy).len() > cy,
        trim_bottom(r, nr, cy).len() < r.len() ==> trim_bottom(r, nr, cy).len() >= nr,
    decreases r.len(),
{
    if r.len() > nr && r.len() > 0 && line_is_blank(r.last()) && r.len() > cy + 1 {
        let h = r.drop_last();
        assert(r[r.len() - 1] == blank_line(w));
        assert forall|i: int|
            0 <= i < h.len() && !(#[trigger] h[i]).wrapped && line_is_blank(h[i]) implies h[i]
            == blank_line(w) && (i > 0 ==> !h[i - 1].wrapped) by {
            assert(h[i] == r[i]);
            if i > 0 {
                assert(h[i - 1] == r[i - 1]);
            }
        }
        if h.len() > 0 {
            assert(h.last() == r[r.len() - 2]);
        }
        lemma_trim_tidy(h, nr, cy, w);
        let t = trim_bottom(h, nr, cy);
        let m = h.len() - t.len();
        assert(h == t + blank_lines(m, w));
        assert(r =~= h.push(blank_line(w)));
        assert(blank_lines(m + 1, w) =~= blank_lines(m, w).push(blank_line(w)));
        assert(r =~= t + blank_lines(m + 1, w));
    } else {
        assert(r =~= r + blank_lines(0, w));
    }
}

proof fn lemma_logical_concat(a: Seq<Line>, b: Seq<Line>, i: int, acc: Seq<Cell>)
    requires
        0 <= i <= a.len(),
        a.len() > 0 ==> !a.last().wrapped,
        i == a.len() ==> acc == Seq::<Cell>::empty(),
    ensures
        logical_from(a + b, i, acc) == logical_from(a, i, acc) + logical_from(
            b,
            0,
            Seq::empty(),
        ),
    decreases a.len() - i,
{
    if i < a.len() {
        assert((a + b)[i] == a[i]);
        if a[i].wrapped {
            lemma_logical_concat(a, b, i + 1, acc + a[i].cells);
        } else {
            lemma_logical_concat(a, b, i + 1, Seq::empty());
            assert(logical_from(a + b, i, acc) =~= logical_from(a, i, acc) + logical_from(
                b,
                0,
                Seq::empty(),
            ));
        }
    } else {
        lemma_logical_shift(a, b, 0, acc);
        assert(logical_from(a, i, acc) =~= Seq::<Seq<Cell>>::empty());
        assert(logical_from(a + b, i, acc) =~= logical_from(a, i, acc) + logical_from(
            b,
            0,
            Seq::empty(),
        ));
    }
}

proof fn lemma_wrap_lines_shift(x: Seq<Seq<Cell>>, y: Seq<Seq<Cell>>, c: int, j: int)
    requires
        0 <= j <= y.len(),
    ensures
        wrap_lines_from(x + y, c, x.len() + j) == wrap_lines_from(y, c, j),
    decreases y.len() - j,
{
    if j < y.len() {
        assert((x + y)[x.len() + j] == y[j]);
        lemma_wrap_lines_shift(x, y, c, j + 1);
    }
}

proof fn lemma_wrap_lines_concat(x: Seq<Seq<Cell>>, y: Seq<Seq<Cell>>, c: int, k: int)
    requires
        0 <= k <= x.len(),
    ensures
        wrap_lines_from(x + y, c, k) == wrap_lines_from(x, c, k) + wrap_lines_from(y, c, 0),
    decreases x.len() - k,
{
    if k < x.len() {
        assert((x + y)[k] == x[k]);
        lemma_wrap_lines_concat(x, y, c, k + 1);
        assert(wrap_lines_from(x + y, c, k) =~= wrap_lines_from(x, c, k) + wrap_lines_from(
            y,
            c,
            0,
        ));
    } else {
        lemma_wrap_lines_shift(x, y, c, 0);
        assert(wrap_lines_from(x, c, k) =~= Seq::<Line>::empty());
        assert(wrap_lines_from(x + y, c, k) =~= wrap_lines_from(x, c, k) + wrap_lines_from(
            y,
            c,
            0,
        ));
    }
}

proof fn lemma_blank_trimmed(n: int)
    requires
        0 <= n,
    ensures
        trimmed_len(blank_line(n).cells) == 0,
    decreases n,
{
    let x = blank_line(n).cells;
    if n > 0 {
        assert(x.drop_last() =~= blank_line(n - 1).cells);
        lemma_blank_trimmed(n - 1);
    }
}

proof fn lemma_reflow_blank_lines(p: int, w: int, c: int)
    requires
        0 <= p,
        0 <= w,
        c >= 1,
    ensures
        reflow(blank_lines(p, w), c) == blank_lines(p, c),
    decreases p,
{
    if p == 0 {
        assert(blank_lines(0, w) =~= Seq::<Line>::empty());
        assert(logical_lines(blank_lines(0, w)) =~= Seq::<Seq<Cell>>::empty());
        assert(reflow(blank_lines(p, w), c) =~= blank_lines(p, c));
    } else {
        let one = seq![blank_line(w)];
        let more = blank_lines(p - 1, w);
        assert(blank_lines(p, w) =~= one + more);
        lemma_logical_concat(one, more, 0, Seq::empty());
        assert(logical_from(one, 1, Seq::empty()) =~= Seq::<Seq<Cell>>::empty());
        assert(Seq::<Cell>::empty() + blank_line(w).cells =~= blank_line(w).cells);
        assert(logical_lines(one) =~= seq![blank_line(w).cells]);
        lemma_wrap_lines_concat(logical_lines(one), logical_lines(more), c, 0);
        lemma_reflow_blank_lines(p - 1, w, c);
        lemma_blank_trimmed(w);
        assert(wrap_lines_from(logical_lines(one), c, 1) =~= Seq::<Line>::empty());
        assert(wrap_lines_from(logical_lines(one), c, 0) =~= seq![blank_line(c)]);
        assert(seq![blank_line(c)] + blank_lines(p - 1, c) =~= blank_lines(p, c));
    }
}

/// Re-wrapping rows that end a line, with erased rows after them, re-wraps
/// the rows and leaves as many erased rows after them.
pub proof fn lemma_reflow_with_blank_lines(a: Seq<Line>, p: int, w: int, c: int)
    requires
        a.len() > 0 ==> !a.last().wrapped,
        0 <= p,
        0 <= w,
        c >= 1,
    ensures
        reflow(a + blank_lines(p, w), c) == reflow(a, c) + blank_lines(p, c),
{
    let b = blank_lines(p, w);
    lemma_logical_concat(a, b, 0, Seq::empty());
    lemma_wrap_lines_concat(logical_lines(a), logical_lines(b), c, 0);
    lemma_reflow_blank_lines(p, w, c);
}

proof fn lemma_trim_blank_tail(a: Seq<Line>, m: int, c: int, cy: int)
    requires
        0 <= m,
        0 <= c,
        0 <= cy < a.len(),
    ensures
        trim_bottom(a + blank_lines(m, c), a.len() as int, cy) == a,
    decreases m,
{
    let x = a + blank_lines(m, c);
    if m == 0 {
        assert(x =~= a);
    } else {
        assert(x.last() == blank_line(c));
        assert(line_is_blank(blank_line(c)));
        assert(x.drop_last() =~= a + blank_lines(m - 1, c));
        lemma_trim_blank_tail(a, m - 1, c, cy);
    }
}

/// The rows that a grid of `rows` rows is brought to after re-wrapping:
/// blank rows go from its end, what is too much goes from its top, and
/// erased rows fill it up.
pub open spec fn settled(r: Seq<Line>, rows: int, cy: int, cols: int) -> Seq<Line> {
    trim_bottom(r, rows, cy).skip(excess(trim_bottom(r, rows, cy), rows)) + blank_lines(
        if rows > trim_bottom(r, rows, cy).len() {
            rows - trim_bottom(r, rows, cy).len()
        } else {
            0
        },
        cols,
    )
}

/// A grid that is wrapped at its own width comes back as it was when it is
/// re-wrapped to another width and back, as long as no row had to leave it
/// in between.
pub proof fn lemma_grid_round_trip(g: Seq<Line>, cols: int, w: int, cy1: int, cy2: int)
    requires
        cols >= 1,
        w >= 1,
        g.len() >= 1,
        reflow(g, cols) == g,
        0 <= cy1 < reflow(g, w).len(),
        trim_bottom(reflow(g, w), g.len() as int, cy1).len() <= g.len(),
        0 <= cy2 < g.len(),
    ensures
        settled(
            reflow(settled(reflow(g, w), g.len() as int, cy1, w), cols),
            g.len() as int,
            cy2,
            cols,
        ) == g,
        trim_bottom(
            reflow(settled(reflow(g, w), g.len() as int, cy1, w), cols),
            g.len() as int,
            cy2,
        ).len() <= g.len(),
{
    let rows = g.len() as int;
    let r = reflow(g, w);
    lemma_wrap_lines_tidy(logical_lines(g), w, 0);
    lemma_trim_tidy(r, rows, cy1, w);
    let t1 = trim_bottom(r, rows, cy1);
    let k1 = r.len() - t1.len();
    let pad1 = rows - t1.len();
    assert(excess(t1, rows) == 0);
    assert(t1.skip(0) =~= t1);
    let g1 = settled(r, rows, cy1, w);
    assert(g1 == t1 + blank_lines(pad1, w));
    lemma_reflow_with_blank_lines(t1, k1, w, cols);
    lemma_reflow_with_blank_lines(t1, pad1, w, cols);
    lemma_reflow_round_trip(g, w, cols);
    let c = reflow(t1, cols);
    assert(g == c + blank_lines(k1, cols));
    let r2 = reflow(g1, cols);
    assert(r2 == c + blank_lines(pad1, cols));
    if pad1 <= k1 {
        assert(trim_bottom(r2, rows, cy2) == r2);
        assert(r2.skip(0) =~= r2);
        assert(settled(r2, rows, cy2, cols) =~= c + blank_lines(k1, cols));
    } else {
        assert(r2 =~= g + blank_lines(pad1 - k1, cols));
        lemma_trim_blank_tail(g, pad1 - k1, cols, cy2);
        assert(g.skip(0) =~= g);
        assert(settled(r2, rows, cy2, cols) =~= g);
    }
}

pub(crate) proof fn lemma_prefix_counts(a: Seq<Line>, b: Seq<Line>, r: int)
    requires
        0 <= r <= a.len(),
    ensures
        lines_before(a + b, r) == lines_before(a, r),
        run_cells(a + b, r) == run_cells(a, r),
    decreases r,
{
    if r > 0 {
        lemma_prefix_counts(a, b, r - 1);
        assert((a + b)[r - 1] == a[r - 1]);
    }
}

pub(crate) proof fn lemma_lines_before_grows(g: Seq<Line>, r1: int, r2: int)
    requires
        0 <= r1 <= r2 <= g.len(),
    ensures
        lines_before(g, r1) <= lines_before(g, r2),
        lines_before(g, r1) == lines_before(g, r2) ==> forall|j: int|
            r1 <= j < r2 ==> (#[trigger] g[j]).wrapped,
    decreases r2 - r1,
{
    if r1 < r2 {
        lemma_lines_before_grows(g, r1, r2 - 1);
    }
}

proof fn lemma_run_cells_grows(g: Seq<Line>, r1: int, r2: int, cols: int)
    requires
        0 <= r1 < r2 <= g.len(),
        uniform(g, cols),
        forall|j: int| r1 <= j < r2 ==> (#[trigger] g[j]).wrapped,
    ensures
        run_cells(g, r2) >= run_cells(g, r1) + cols,
    decreases r2 - r1,
{
    assert(g[r2 - 1].wrapped);
    assert(g[r2 - 1].cells.len() == cols);
    if r1 < r2 - 1 {
        lemma_run_cells_grows(g, r1, r2 - 1, cols);
    }
}

/// In rows of one width, a logical line and an offset in it name one cell.
proof fn lemma_position_unique(g: Seq<Line>, cols: int, r1: int, x1: int, r2: int, x2: int)
    requires
        cols >= 1,
        uniform(g, cols),
        0 <= r1 < g.len(),
        0 <= r2 < g.len(),
        0 <= x1 < cols,
        0 <= x2 < cols,
        lines_before(g, r1) == lines_before(g, r2),
        run_cells(g, r1) + x1 == run_cells(g, r2) + x2,
    ensures
        r1 == r2,
        x1 == x2,
{
    if r1 < r2 {
        lemma_lines_before_grows(g, r1, r2);
        lemma_run_cells_grows(g, r1, r2, cols);
    } else if r2 < r1 {
        lemma_lines_before_grows(g, r2, r1);
        lemma_run_cells_grows(g, r2, r1, cols);
    }
}

proof fn lemma_reflow_nothing(w: int)
    ensures
        reflow(Seq::<Line>::empty(), w) == Seq::<Line>::empty(),
{
    let none = Seq::<Line>::empty();
    assert(logical_lines(none) =~= Seq::<Seq<Cell>>::empty());
    assert(reflow(none, w) =~= none);
}

impl Screen {
    /// Whether the grid, re-wrapped to width `w`, still fits: no row has to
    /// leave it for the scrollback.
    pub open spec fn fits_at(self, w: int) -> bool {
        trim_bottom(reflow(self.grid, w), self.rows, self.rewrapped_spot(w).row).len()
            <= self.rows
    }

    /// Whether the rows of the cursor's logical line, re-wrapped to width
    /// `w`, reach as far as the cursor's offset in the line.
    pub open spec fn cursor_fits_at(self, w: int) -> bool {
        run_cells(reflow(self.grid, w), self.rewrapped_spot(w).row) + self.rewrapped_spot(w).col
            == run_cells(self.grid, self.cursor.y) + self.column()
    }
}

/// A change of width that is taken back restores the grid, row for row,
/// where the grid was wrapped at its own width and still fits at the other
/// width. The cursor comes back into its logical line, and to its own cell
/// where the line at the other width reaches as far as the cursor.
pub proof fn lemma_resize_round_trip(s: Screen, w: int)
    requires
        s.wf(),
        !s.in_alt_screen(),
        1 <= w <= u16::MAX,
        w != s.cols,
        reflow(s.grid, s.cols) == s.grid,
        s.fits_at(w),
    ensures
        s.resize(w, s.rows).resize(s.cols, s.rows).grid == s.grid,
        s.resize(w, s.rows).resize(s.cols, s.rows).cols == s.cols,
        s.resize(w, s.rows).resize(s.cols, s.rows).rows == s.rows,
        lines_before(s.grid, s.resize(w, s.rows).resize(s.cols, s.rows).cursor.y) == lines_before(
            s.grid,
            s.cursor.y,
        ),
        !s.cursor.wrap_pending && s.cursor_fits_at(w) ==> s.resize(w, s.rows).resize(
            s.cols,
            s.rows,
        ).cursor == s.cursor,
        s.scrollback.len() == 0 ==> s.resize(w, s.rows).resize(s.cols, s.rows).scrollback.len()
            == 0,
{
    let g = s.grid;
    let rows = s.rows;
    let cols = s.cols;
    let y0 = s.cursor.y;
    let idx0 = lines_before(g, y0);
    let off0 = run_cells(g, y0) + s.column();
    let r = reflow(g, w);
    // the first change of width
    lemma_reflow_keeps_cursor(g, y0, s.column(), cols, w);
    let spot1 = s.rewrapped_spot(w);
    assert(spot1 == locate(r, idx0, off0, w));
    lemma_wrap_lines_tidy(logical_lines(g), w, 0);
    lemma_trim_tidy(r, rows, spot1.row, w);
    lemma_reflow_uniform(g, w);
    let t1 = trim_bottom(r, rows, spot1.row);
    let pad1 = rows - t1.len();
    let k1 = r.len() - t1.len();
    assert(excess(t1, rows) == 0);
    assert(t1.skip(0) =~= t1);
    let s1 = s.resize(w, rows);
    assert(s1 == s.resize_primary(w, rows));
    let g1 = s1.grid;
    assert(g1 == settled(r, rows, spot1.row, w));
    assert(g1 == t1 + blank_lines(pad1, w));
    assert(s1.cursor.x == spot1.col);
    assert(s1.cursor.y == spot1.row);
    assert(!s1.cursor.wrap_pending);
    lemma_resize_wf(s, w, rows);
    assert(s1.wf());
    // where the cursor is after the first change
    lemma_prefix_counts(t1, blank_lines(pad1, w), spot1.row);
    lemma_prefix_counts(t1, blank_lines(k1, w), spot1.row);
    assert(lines_before(g1, spot1.row) == idx0);
    assert(run_cells(g1, spot1.row) == run_cells(r, spot1.row));
    // the second change of width
    let r2 = reflow(g1, cols);
    lemma_reflow_keeps_cursor(g1, spot1.row, spot1.col, w, cols);
    let spot2 = s1.rewrapped_spot(cols);
    let off1 = run_cells(g1, spot1.row) + spot1.col;
    assert(spot2 == locate(r2, idx0, off1, cols));
    lemma_reflow_with_blank_lines(t1, k1, w, cols);
    lemma_reflow_with_blank_lines(t1, pad1, w, cols);
    lemma_reflow_round_trip(g, w, cols);
    let c = reflow(t1, cols);
    assert(g == c + blank_lines(k1, cols));
    assert(r2 == c + blank_lines(pad1, cols));
    lemma_wrap_lines_tidy(logical_lines(g), cols, 0);
    assert(!g.last().wrapped);
    // the cursor does not leave the rows of the grid
    if pad1 <= k1 {
        assert(g =~= r2 + blank_lines(k1 - pad1, cols));
        lemma_prefix_counts(r2, blank_lines(k1 - pad1, cols), spot2.row);
        assert(g[spot2.row] == r2[spot2.row]);
    } else {
        assert(r2 =~= g + blank_lines(pad1 - k1, cols));
        if spot2.row >= rows {
            lemma_prefix_counts(g, blank_lines(pad1 - k1, cols), rows);
            lemma_lines_before_grows(r2, rows, spot2.row);
            lemma_lines_before_grows(g, y0, rows);
            assert(g[rows - 1] == g.last());
            assert(false);
        }
        lemma_prefix_counts(g, blank_lines(pad1 - k1, cols), spot2.row);
        assert(g[spot2.row] == r2[spot2.row]);
    }
    assert(spot2.row < rows);
    assert(lines_before(g, spot2.row) == idx0);
    assert(run_cells(g, spot2.row) == run_cells(r2, spot2.row));
    lemma_grid_round_trip(g, cols, w, spot1.row, spot2.row);
    let s2 = s1.resize(cols, rows);
    assert(s2 == s1.resize_primary(cols, rows));
    assert(s2.grid == settled(r2, rows, spot2.row, cols));
    assert(s2.cursor.y == spot2.row);
    assert(s2.cursor.x == spot2.col);
    if s.scrollback.len() == 0 {
        lemma_reflow_nothing(w);
        lemma_reflow_nothing(cols);
        assert(s.scrollback =~= Seq::<Line>::empty());
        assert(t1.take(0) =~= Seq::<Line>::empty());
        assert(s1.scrollback =~= Seq::<Line>::empty());
        let t2 = trim_bottom(r2, rows, spot2.row);
        assert(excess(t2, rows) == 0);
        assert(t2.take(0) =~= Seq::<Line>::empty());
        assert(s2.scrollback =~= Seq::<Line>::empty());
    }
    if !s.cursor.wrap_pending && s.cursor_fits_at(w) {
        assert(off1 == off0);
        if !(run_cells(r2, spot2.row) + spot2.col == off0) {
            // held back on the last cell of a line that ends before the cursor
            assert(!g[spot2.row].wrapped);
            assert(run_cells(g, spot2.row) + cols <= run_cells(g, y0) + s.cursor.x);
            if spot2.row >= y0 {
                if spot2.row > y0 {
                    lemma_lines_before_grows(g, y0, spot2.row);
                    lemma_run_cells_grows(g, y0, spot2.row, cols);
                }
            } else {
                lemma_lines_before_grows(g, spot2.row, y0);
                assert(g[spot2.row].wrapped);
            }
            assert(false);
        }
        lemma_position_unique(g, cols, spot2.row, spot2.col, y0, s.cursor.x);
    }
}

} // verus!

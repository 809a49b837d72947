//! What re-wrapping keeps: the logical lines of the rows, up to the blank
//! cells at their ends.

use vstd::prelude::*;
use crate::cell::{blank_cell, blank_line, is_blank_char, Cell, Line};
use crate::reflow::{
    lemma_wrap_lines_uniform, lines_before, locate, logical_from, logical_lines, piece, reflow,
    run_cells, skip_lines, trimmed_len, walk_cells, wrap_from, wrap_line, wrap_lines_from, Spot,
};
use crate::state::uniform;

verus! {

/// `cells` without its trailing blank cells.
pub open spec fn trimmed(cells: Seq<Cell>) -> Seq<Cell> {
    cells.take(trimmed_len(cells))
}

/// The cells of the rows, one row after the other.
pub open spec fn joined(rows: Seq<Line>) -> Seq<Cell>
    decreases rows.len(),
{
    if rows.len() == 0 {
        Seq::empty()
    } else {
        rows[0].cells + joined(rows.drop_first())
    }
}

/// How many cells the rows of `wrap_from(_, n, w, start)` hold together.
pub open spec fn wrapped_cells(n: int, w: int, start: int) -> int
    decreases
        (if n > start {
            n - start
        } else {
            0
        }),
{
    if w >= 1 && 0 <= start < n {
        w + wrapped_cells(n, w, start + w)
    } else {
        0
    }
}

/// `m` cells: those of `cells` from `start` up to `n`, then erased cells.
pub open spec fn padded(cells: Seq<Cell>, n: int, start: int, m: int) -> Seq<Cell> {
    Seq::new(
        m as nat,
        |j: int|
            if start + j < n {
                cells[start + j]
            } else {
                blank_cell()
            },
    )
}

/// Each logical line from `k` on, cut into rows of width `w` and put
/// together again.
pub open spec fn rejoined(lines: Seq<Seq<Cell>>, w: int, k: int) -> Seq<Seq<Cell>> {
    Seq::new(
        (if lines.len() > k {
            lines.len() - k
        } else {
            0
        }) as nat,
        |i: int| joined(wrap_line(lines[k + i], w)),
    )
}

pub(crate) proof fn lemma_trimmed_len_facts(x: Seq<Cell>)
    ensures
        0 <= trimmed_len(x) <= x.len(),
        trimmed_len(x) > 0 ==> !is_blank_char(x[trimmed_len(x) - 1].c),
        forall|j: int| trimmed_len(x) <= j < x.len() ==> is_blank_char(#[trigger] x[j].c),
    decreases x.len(),
{
    if x.len() > 0 && is_blank_char(x.last().c) {
        lemma_trimmed_len_facts(x.drop_last());
        assert forall|j: int| trimmed_len(x) <= j < x.len() implies is_blank_char(
            #[trigger] x[j].c,
        ) by {
            if j < x.len() - 1 {
                assert(x[j] == x.drop_last()[j]);
            }
        }
        if trimmed_len(x) > 0 {
            assert(x[trimmed_len(x) - 1] == x.drop_last()[trimmed_len(x) - 1]);
        }
    }
}

pub(crate) proof fn lemma_trimmed_len_is(x: Seq<Cell>, n: int)
    requires
        0 <= n <= x.len(),
        n > 0 ==> !is_blank_char(x[n - 1].c),
        forall|j: int| n <= j < x.len() ==> is_blank_char(#[trigger] x[j].c),
    ensures
        trimmed_len(x) == n,
    decreases x.len(),
{
    if x.len() > n {
        assert(is_blank_char(x[x.len() - 1].c));
        let y = x.drop_last();
        assert forall|j: int| n <= j < y.len() implies is_blank_char(#[trigger] y[j].c) by {
            assert(y[j] == x[j]);
        }
        if n > 0 {
            assert(y[n - 1] == x[n - 1]);
        }
        lemma_trimmed_len_is(y, n);
    }
}

proof fn lemma_wrap_from_same(x: Seq<Cell>, y: Seq<Cell>, n: int, w: int, start: int)
    requires
        w >= 1,
        0 <= start,
        n <= x.len(),
        n <= y.len(),
        forall|j: int| 0 <= j < n ==> x[j] == y[j],
    ensures
        wrap_from(x, n, w, start) == wrap_from(y, n, w, start),
    decreases
        (if n > start {
            n - start
        } else {
            0
        }),
{
    if start < n {
        lemma_wrap_from_same(x, y, n, w, start + w);
        assert(piece(x, n, w, start).cells =~= piece(y, n, w, start).cells);
    }
}

/// How a logical line is cut into rows depends on nothing but its cells up
/// to the last one that is not blank.
pub proof fn lemma_wrap_line_same(x: Seq<Cell>, y: Seq<Cell>, w: int)
    requires
        w >= 1,
        trimmed(x) == trimmed(y),
    ensures
        wrap_line(x, w) == wrap_line(y, w),
{
    lemma_trimmed_len_facts(x);
    lemma_trimmed_len_facts(y);
    let n = trimmed_len(x);
    assert(trimmed(x).len() == n);
    assert(trimmed(y).len() == trimmed_len(y));
    assert forall|j: int| 0 <= j < n implies x[j] == y[j] by {
        assert(trimmed(x)[j] == x[j]);
        assert(trimmed(y)[j] == y[j]);
    }
    lemma_wrap_from_same(x, y, n, w, 0);
}

proof fn lemma_joined_wrap_from(cells: Seq<Cell>, n: int, w: int, start: int)
    requires
        w >= 1,
        0 <= start,
        n <= cells.len(),
    ensures
        joined(wrap_from(cells, n, w, start)) == padded(
            cells,
            n,
            start,
            wrapped_cells(n, w, start),
        ),
        wrapped_cells(n, w, start) >= 0,
        start < n ==> wrapped_cells(n, w, start) >= n - start,
    decreases
        (if n > start {
            n - start
        } else {
            0
        }),
{
    if start < n {
        lemma_joined_wrap_from(cells, n, w, start + w);
        let all = wrap_from(cells, n, w, start);
        let rest = wrap_from(cells, n, w, start + w);
        assert(all.drop_first() =~= rest);
        assert(all[0] == piece(cells, n, w, start));
        assert(joined(all) == all[0].cells + joined(rest));
        assert(joined(all) =~= padded(cells, n, start, wrapped_cells(n, w, start)));
    } else {
        assert(joined(wrap_from(cells, n, w, start)) =~= padded(cells, n, start, 0));
    }
}

/// Cutting a logical line into rows and putting the rows together again
/// gives back the line, up to the blank cells at its end.
pub proof fn lemma_rejoin_keeps_content(cells: Seq<Cell>, w: int)
    requires
        w >= 1,
    ensures
        trimmed(joined(wrap_line(cells, w))) == trimmed(cells),
{
    lemma_trimmed_len_facts(cells);
    let n = trimmed_len(cells);
    let rows = wrap_line(cells, w);
    let j = joined(rows);
    if n == 0 {
        assert(rows.drop_first() =~= Seq::<Line>::empty());
        assert(joined(rows.drop_first()) =~= Seq::<Cell>::empty());
        assert(j == rows[0].cells + joined(rows.drop_first()));
        assert(j =~= blank_line(w).cells);
        lemma_trimmed_len_is(j, 0);
        assert(trimmed(j) =~= trimmed(cells));
    } else {
        lemma_joined_wrap_from(cells, n, w, 0);
        lemma_trimmed_len_is(j, n);
        assert(trimmed(j) =~= trimmed(cells));
    }
}

pub(crate) proof fn lemma_logical_shift(p: Seq<Line>, rest: Seq<Line>, i: int, acc: Seq<Cell>)
    requires
        0 <= i <= rest.len(),
    ensures
        logical_from(p + rest, p.len() + i, acc) == logical_from(rest, i, acc),
    decreases rest.len() - i,
{
    if i < rest.len() {
        assert((p + rest)[p.len() + i] == rest[i]);
        if rest[i].wrapped {
            lemma_logical_shift(p, rest, i + 1, acc + rest[i].cells);
        } else {
            lemma_logical_shift(p, rest, i + 1, Seq::empty());
        }
    }
}

proof fn lemma_logical_of_wrap_from(
    cells: Seq<Cell>,
    n: int,
    w: int,
    start: int,
    rest: Seq<Line>,
    acc: Seq<Cell>,
)
    requires
        w >= 1,
        0 <= start < n,
    ensures
        logical_from(wrap_from(cells, n, w, start) + rest, 0, acc) == seq![
            acc + joined(wrap_from(cells, n, w, start)),
        ] + logical_from(rest, 0, Seq::empty()),
    decreases n - start,
{
    let rows = wrap_from(cells, n, w, start);
    let first = piece(cells, n, w, start);
    let more = wrap_from(cells, n, w, start + w);
    let all = rows + rest;
    assert(rows.drop_first() =~= more);
    assert(rows[0] == first);
    assert(all[0] == first);
    assert(all =~= seq![first] + (more + rest));
    assert(joined(rows) == first.cells + joined(more));
    if start + w < n {
        lemma_logical_shift(seq![first], more + rest, 0, acc + first.cells);
        lemma_logical_of_wrap_from(cells, n, w, start + w, rest, acc + first.cells);
        assert(acc + first.cells + joined(more) =~= acc + joined(rows));
    } else {
        assert(more =~= Seq::<Line>::empty());
        assert(more + rest =~= rest);
        lemma_logical_shift(seq![first], rest, 0, Seq::empty());
        assert(joined(more) =~= Seq::<Cell>::empty());
        assert(acc + first.cells =~= acc + joined(rows));
    }
}

pub(crate) proof fn lemma_logical_of_wrap_line(cells: Seq<Cell>, w: int, rest: Seq<Line>)
    requires
        w >= 1,
    ensures
        logical_from(wrap_line(cells, w) + rest, 0, Seq::empty()) == seq![
            joined(wrap_line(cells, w)),
        ] + logical_from(rest, 0, Seq::empty()),
{
    lemma_trimmed_len_facts(cells);
    let n = trimmed_len(cells);
    let rows = wrap_line(cells, w);
    if n == 0 {
        let all = rows + rest;
        assert(all[0] == blank_line(w));
        assert(all =~= seq![blank_line(w)] + rest);
        lemma_logical_shift(seq![blank_line(w)], rest, 0, Seq::empty());
        assert(rows.drop_first() =~= Seq::<Line>::empty());
        assert(joined(rows.drop_first()) =~= Seq::<Cell>::empty());
        assert(joined(rows) == rows[0].cells + joined(rows.drop_first()));
        assert(joined(rows) =~= blank_line(w).cells);
        assert(Seq::<Cell>::empty() + blank_line(w).cells =~= blank_line(w).cells);
    } else {
        lemma_logical_of_wrap_from(cells, n, w, 0, rest, Seq::empty());
        assert(Seq::<Cell>::empty() + joined(rows) =~= joined(rows));
    }
}

proof fn lemma_logical_of_wrap_lines(lines: Seq<Seq<Cell>>, w: int, k: int)
    requires
        w >= 1,
        0 <= k <= lines.len(),
    ensures
        logical_lines(wrap_lines_from(lines, w, k)) == rejoined(lines, w, k),
    decreases lines.len() - k,
{
    if k < lines.len() {
        let rest = wrap_lines_from(lines, w, k + 1);
        lemma_logical_of_wrap_lines(lines, w, k + 1);
        lemma_logical_of_wrap_line(lines[k], w, rest);
        assert(seq![joined(wrap_line(lines[k], w))] + rejoined(lines, w, k + 1) =~= rejoined(
            lines,
            w,
            k,
        ));
    } else {
        assert(wrap_lines_from(lines, w, k) =~= Seq::<Line>::empty());
        assert(rejoined(lines, w, k) =~= Seq::<Seq<Cell>>::empty());
    }
}

proof fn lemma_wrap_lines_same(a: Seq<Seq<Cell>>, b: Seq<Seq<Cell>>, c: int, k: int)
    requires
        c >= 1,
        0 <= k,
        a.len() == b.len(),
        forall|i: int| 0 <= i < a.len() ==> trimmed(#[trigger] a[i]) == trimmed(b[i]),
    ensures
        wrap_lines_from(a, c, k) == wrap_lines_from(b, c, k),
    decreases a.len() - k,
{
    if k < a.len() {
        lemma_wrap_lines_same(a, b, c, k + 1);
        assert(trimmed(a[k]) == trimmed(b[k]));
        lemma_wrap_line_same(a[k], b[k], c);
    }
}

/// Re-wrapping keeps the content: the rows re-wrapped to width `w` have as
/// many logical lines as before, and each holds the same cells up to the
/// blank cells at its end.
pub proof fn lemma_reflow_keeps_content(rows: Seq<Line>, w: int)
    requires
        w >= 1,
    ensures
        logical_lines(reflow(rows, w)).len() == logical_lines(rows).len(),
        forall|i: int|
            0 <= i < logical_lines(rows).len() ==> trimmed(
                #[trigger] logical_lines(reflow(rows, w))[i],
            ) == trimmed(logical_lines(rows)[i]),
{
    let lines = logical_lines(rows);
    lemma_logical_of_wrap_lines(lines, w, 0);
    assert forall|i: int| 0 <= i < lines.len() implies trimmed(
        #[trigger] logical_lines(reflow(rows, w))[i],
    ) == trimmed(lines[i]) by {
        lemma_rejoin_keeps_content(lines[i], w);
    }
}

/// Re-wrapping to one width and then to another gives the same rows as
/// re-wrapping to the second width at once. So a change of width that is
/// taken back restores the rows of any grid that was wrapped at its own
/// width, and re-wrapping twice to the same width is re-wrapping once.
pub proof fn lemma_reflow_round_trip(rows: Seq<Line>, w: int, c: int)
    requires
        w >= 1,
        c >= 1,
    ensures
        reflow(reflow(rows, w), c) == reflow(rows, c),
        reflow(reflow(rows, w), w) == reflow(rows, w),
{
    lemma_reflow_keeps_content(rows, w);
    lemma_wrap_lines_same(logical_lines(reflow(rows, w)), logical_lines(rows), c, 0);
    lemma_wrap_lines_same(logical_lines(reflow(rows, w)), logical_lines(rows), w, 0);
}

proof fn lemma_skip_lines_lands(g: Seq<Line>, i: int, ll: int, idx: int)
    requires
        0 <= i <= g.len(),
        ll == lines_before(g, i),
        ll <= idx,
        ll == idx ==> run_cells(g, i) == 0,
    ensures
        i <= skip_lines(g, i, ll, idx) <= g.len(),
        skip_lines(g, i, ll, idx) < g.len() ==> lines_before(g, skip_lines(g, i, ll, idx)) == idx
            && run_cells(g, skip_lines(g, i, ll, idx)) == 0,
    decreases g.len() - i,
{
    if i < g.len() && ll < idx {
        lemma_skip_lines_lands(
            g,
            i + 1,
            if g[i].wrapped {
                ll
            } else {
                ll + 1
            },
            idx,
        );
    }
}

proof fn lemma_walk_cells_lands(g: Seq<Line>, i: int, remaining: int, w: int)
    requires
        w >= 1,
        uniform(g, w),
        0 <= i < g.len(),
        0 <= remaining,
        !g.last().wrapped,
    ensures
        i <= walk_cells(g, i, remaining, w).row < g.len(),
        0 <= walk_cells(g, i, remaining, w).col < w,
        lines_before(g, walk_cells(g, i, remaining, w).row) == lines_before(g, i),
        held_at(g, walk_cells(g, i, remaining, w), run_cells(g, i) + remaining, w),
    decreases g.len() - i,
{
    assert(g[i].cells.len() == w);
    if remaining < g[i].cells.len() || !g[i].wrapped {
    } else {
        assert(i + 1 < g.len());
        lemma_walk_cells_lands(g, i + 1, remaining - g[i].cells.len(), w);
    }
}

/// Whether `spot` is where offset `off` of its logical line lies in `g`: at
/// that offset, or, where the rows of the line do not reach that far, on the
/// last cell of the line.
pub open spec fn held_at(g: Seq<Line>, spot: Spot, off: int, w: int) -> bool {
    run_cells(g, spot.row) + spot.col == off || (!g[spot.row].wrapped && spot.col == w - 1
        && run_cells(g, spot.row) + w <= off)
}

/// In a grid that holds logical line `idx`, the cursor is put into that line,
/// at offset `off` or on the line's last cell.
pub proof fn lemma_locate_lands(g: Seq<Line>, idx: int, off: int, w: int)
    requires
        w >= 1,
        uniform(g, w),
        g.len() > 0,
        !g.last().wrapped,
        0 <= idx,
        0 <= off,
        skip_lines(g, 0, 0, idx) < g.len(),
    ensures
        0 <= locate(g, idx, off, w).row < g.len(),
        0 <= locate(g, idx, off, w).col < w,
        lines_before(g, locate(g, idx, off, w).row) == idx,
        held_at(g, locate(g, idx, off, w), off, w),
{
    lemma_skip_lines_lands(g, 0, 0, idx);
    lemma_walk_cells_lands(g, skip_lines(g, 0, 0, idx), off, w);
}

proof fn lemma_skip_shift(p: Seq<Line>, rest: Seq<Line>, i: int, ll: int, idx: int)
    requires
        0 <= i <= rest.len(),
    ensures
        skip_lines(p + rest, p.len() + i, ll, idx) == p.len() + skip_lines(rest, i, ll, idx),
    decreases rest.len() - i,
{
    if i < rest.len() && ll < idx {
        assert((p + rest)[p.len() + i] == rest[i]);
        lemma_skip_shift(
            p,
            rest,
            i + 1,
            if rest[i].wrapped {
                ll
            } else {
                ll + 1
            },
            idx,
        );
    }
}

proof fn lemma_skip_over_wrap_from(
    cells: Seq<Cell>,
    n: int,
    w: int,
    start: int,
    rest: Seq<Line>,
    ll: int,
    idx: int,
)
    requires
        w >= 1,
        0 <= start < n,
        ll < idx,
    ensures
        skip_lines(wrap_from(cells, n, w, start) + rest, 0, ll, idx) == wrap_from(
            cells,
            n,
            w,
            start,
        ).len() + skip_lines(rest, 0, ll + 1, idx),
    decreases n - start,
{
    let rows = wrap_from(cells, n, w, start);
    let first = piece(cells, n, w, start);
    let more = wrap_from(cells, n, w, start + w);
    let all = rows + rest;
    assert(rows =~= seq![first] + more);
    assert(all =~= seq![first] + (more + rest));
    assert(all[0] == first);
    if start + w < n {
        lemma_skip_shift(seq![first], more + rest, 0, ll, idx);
        lemma_skip_over_wrap_from(cells, n, w, start + w, rest, ll, idx);
    } else {
        assert(more =~= Seq::<Line>::empty());
        assert(more + rest =~= rest);
        lemma_skip_shift(seq![first], rest, 0, ll + 1, idx);
    }
}

proof fn lemma_skip_over_wrap_line(cells: Seq<Cell>, w: int, rest: Seq<Line>, ll: int, idx: int)
    requires
        w >= 1,
        ll < idx,
    ensures
        skip_lines(wrap_line(cells, w) + rest, 0, ll, idx) == wrap_line(cells, w).len()
            + skip_lines(rest, 0, ll + 1, idx),
        wrap_line(cells, w).len() >= 1,
{
    lemma_trimmed_len_facts(cells);
    let n = trimmed_len(cells);
    if n == 0 {
        let all = wrap_line(cells, w) + rest;
        assert(all =~= seq![blank_line(w)] + rest);
        assert(all[0] == blank_line(w));
        lemma_skip_shift(seq![blank_line(w)], rest, 0, ll + 1, idx);
    } else {
        lemma_skip_over_wrap_from(cells, n, w, 0, rest, ll, idx);
    }
}

proof fn lemma_wrap_line_ends(cells: Seq<Cell>, w: int)
    requires
        w >= 1,
    ensures
        wrap_line(cells, w).len() >= 1,
        !wrap_line(cells, w).last().wrapped,
{
    lemma_trimmed_len_facts(cells);
    let n = trimmed_len(cells);
    if n > 0 {
        lemma_wrap_from_ends(cells, n, w, 0);
    }
}

proof fn lemma_wrap_from_ends(cells: Seq<Cell>, n: int, w: int, start: int)
    requires
        w >= 1,
        0 <= start < n,
    ensures
        wrap_from(cells, n, w, start).len() >= 1,
        !wrap_from(cells, n, w, start).last().wrapped,
    decreases n - start,
{
    let rows = wrap_from(cells, n, w, start);
    let more = wrap_from(cells, n, w, start + w);
    assert(rows =~= seq![piece(cells, n, w, start)] + more);
    if start + w < n {
        lemma_wrap_from_ends(cells, n, w, start + w);
        assert(rows.last() == more.last());
    } else {
        assert(more =~= Seq::<Line>::empty());
    }
}

/// The re-wrapped rows hold every logical line that was there: skipping
/// `idx` of them stops at a row, and the last row ends its line.
proof fn lemma_wrap_lines_hold(lines: Seq<Seq<Cell>>, w: int, k: int, ll: int, idx: int)
    requires
        w >= 1,
        0 <= k < lines.len(),
        0 <= ll <= idx,
        idx - ll < lines.len() - k,
    ensures
        skip_lines(wrap_lines_from(lines, w, k), 0, ll, idx) < wrap_lines_from(lines, w, k).len(),
        wrap_lines_from(lines, w, k).len() >= 1,
        !wrap_lines_from(lines, w, k).last().wrapped,
    decreases lines.len() - k,
{
    let head = wrap_line(lines[k], w);
    let rest = wrap_lines_from(lines, w, k + 1);
    let all = wrap_lines_from(lines, w, k);
    lemma_wrap_line_ends(lines[k], w);
    assert(all == head + rest);
    if k + 1 < lines.len() {
        if ll < idx {
            lemma_wrap_lines_hold(lines, w, k + 1, ll + 1, idx);
            lemma_skip_over_wrap_line(lines[k], w, rest, ll, idx);
        } else {
            lemma_wrap_lines_hold(lines, w, k + 1, ll, ll);
        }
        assert(all.last() == rest.last());
    } else {
        assert(rest =~= Seq::<Line>::empty());
        assert(all =~= head);
    }
}

proof fn lemma_logical_from_nonempty(g: Seq<Line>, i: int, acc: Seq<Cell>)
    requires
        0 <= i <= g.len(),
        acc.len() > 0,
    ensures
        logical_from(g, i, acc).len() >= 1,
    decreases g.len() - i,
{
    if i < g.len() {
        if g[i].wrapped {
            lemma_logical_from_nonempty(g, i + 1, acc + g[i].cells);
        }
    }
}

/// A grid of rows that are not empty has more logical lines than end before
/// any of its rows.
proof fn lemma_row_has_line(g: Seq<Line>, i: int, acc: Seq<Cell>, y: int, cols: int)
    requires
        cols >= 1,
        uniform(g, cols),
        0 <= i <= y < g.len(),
    ensures
        logical_from(g, i, acc).len() > lines_before(g, y) - lines_before(g, i),
    decreases g.len() - i,
{
    assert(g[i].cells.len() == cols);
    if g[i].wrapped {
        if i == y {
            lemma_logical_from_nonempty(g, i + 1, acc + g[i].cells);
        } else {
            lemma_row_has_line(g, i + 1, acc + g[i].cells, y, cols);
        }
    } else {
        if i < y {
            lemma_row_has_line(g, i + 1, Seq::empty(), y, cols);
        }
    }
}

/// Re-wrapping keeps the cursor at its logical position: in the rows
/// re-wrapped to width `w` the cursor lies in the logical line it lay in
/// before, at the offset it had there, or on the last cell of the line where
/// the re-wrapped line is shorter than that.
pub proof fn lemma_reflow_keeps_cursor(g: Seq<Line>, y: int, col: int, cols: int, w: int)
    requires
        cols >= 1,
        w >= 1,
        uniform(g, cols),
        0 <= y < g.len(),
        0 <= col,
    ensures
        0 <= locate(reflow(g, w), lines_before(g, y), run_cells(g, y) + col, w).row < reflow(
            g,
            w,
        ).len(),
        0 <= locate(reflow(g, w), lines_before(g, y), run_cells(g, y) + col, w).col < w,
        lines_before(
            reflow(g, w),
            locate(reflow(g, w), lines_before(g, y), run_cells(g, y) + col, w).row,
        ) == lines_before(g, y),
        held_at(
            reflow(g, w),
            locate(reflow(g, w), lines_before(g, y), run_cells(g, y) + col, w),
            run_cells(g, y) + col,
            w,
        ),
{
    let lines = logical_lines(g);
    let idx = lines_before(g, y);
    lemma_row_has_line(g, 0, Seq::empty(), y, cols);
    lemma_counts_nonnegative(g, y);
    lemma_wrap_lines_hold(lines, w, 0, 0, idx);
    lemma_wrap_lines_uniform(lines, w, 0);
    lemma_locate_lands(reflow(g, w), idx, run_cells(g, y) + col, w);
}

pub(crate) proof fn lemma_counts_nonnegative(g: Seq<Line>, r: int)
    ensures
        0 <= lines_before(g, r),
        0 <= run_cells(g, r),
    decreases r,
{
    if r > 0 {
        lemma_counts_nonnegative(g, r - 1);
    }
}

} // verus!

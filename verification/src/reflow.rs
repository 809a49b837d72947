//! Re-wrapping rows to a new width: rows that continue one another are
//! joined into logical lines, trimmed, and cut into rows of the new width.

use vstd::prelude::*;
use crate::cell::{blank_cell, blank_line, is_blank_char, lines_of, Cell, Line, Row};
use crate::state::{min_int, uniform};

verus! {

/// The length of `cells` without its trailing blank cells.
pub open spec fn trimmed_len(cells: Seq<Cell>) -> int
    decreases cells.len(),
{
    if cells.len() > 0 && is_blank_char(cells.last().c) {
        trimmed_len(cells.drop_last())
    } else {
        cells.len() as int
    }
}

/// The logical lines of `rows` from row `i` on, where `acc` holds the cells
/// of the continued rows just before `i`. A row that is not continued ends
/// its line; cells left over at the end make a last line.
pub open spec fn logical_from(rows: Seq<Line>, i: int, acc: Seq<Cell>) -> Seq<Seq<Cell>>
    decreases rows.len() - i,
{
    if 0 <= i < rows.len() {
        if rows[i].wrapped {
            logical_from(rows, i + 1, acc + rows[i].cells)
        } else {
            seq![acc + rows[i].cells] + logical_from(rows, i + 1, Seq::empty())
        }
    } else if acc.len() > 0 {
        seq![acc]
    } else {
        Seq::empty()
    }
}

/// The logical lines of `rows`: each is the cells of a run of continued rows
/// and of the row that ends the run.
pub open spec fn logical_lines(rows: Seq<Line>) -> Seq<Seq<Cell>> {
    logical_from(rows, 0, Seq::empty())
}

/// The row of width `w` that holds the cells `start ..` of the first `n`
/// cells of a line, padded with erased cells; it is continued if cells are
/// left over.
pub open spec fn piece(cells: Seq<Cell>, n: int, w: int, start: int) -> Line {
    Line {
        cells: Seq::new(
            w as nat,
            |j: int|
                if start + j < n {
                    cells[start + j]
                } else {
                    blank_cell()
                },
        ),
        wrapped: start + w < n,
    }
}

/// The rows of width `w` that hold the cells `start .. n` of a line.
pub open spec fn wrap_from(cells: Seq<Cell>, n: int, w: int, start: int) -> Seq<Line>
    decreases
        (if n > start {
            n - start
        } else {
            0
        }),
{
    if w >= 1 && 0 <= start < n {
        seq![piece(cells, n, w, start)] + wrap_from(cells, n, w, start + w)
    } else {
        Seq::empty()
    }
}

/// A logical line cut into rows of width `w`, without its trailing blank
/// cells. Every row but the last is continued. A line that is all blank
/// gives one erased row.
pub open spec fn wrap_line(cells: Seq<Cell>, w: int) -> Seq<Line> {
    if trimmed_len(cells) == 0 {
        seq![blank_line(w)]
    } else {
        wrap_from(cells, trimmed_len(cells), w, 0)
    }
}

/// The logical lines from `k` on, each cut into rows of width `w`.
pub open spec fn wrap_lines_from(lines: Seq<Seq<Cell>>, w: int, k: int) -> Seq<Line>
    decreases lines.len() - k,
{
    if 0 <= k < lines.len() {
        wrap_line(lines[k], w) + wrap_lines_from(lines, w, k + 1)
    } else {
        Seq::empty()
    }
}

/// `rows` re-wrapped to width `w`.
pub open spec fn reflow(rows: Seq<Line>, w: int) -> Seq<Line> {
    wrap_lines_from(logical_lines(rows), w, 0)
}

/// How many logical lines end before row `r`.
pub open spec fn lines_before(g: Seq<Line>, r: int) -> int
    decreases r,
{
    if r <= 0 {
        0
    } else if g[r - 1].wrapped {
        lines_before(g, r - 1)
    } else {
        lines_before(g, r - 1) + 1
    }
}

/// How many cells the logical line of row `r` holds before row `r`.
pub open spec fn run_cells(g: Seq<Line>, r: int) -> int
    decreases r,
{
    if r <= 0 {
        0
    } else if g[r - 1].wrapped {
        run_cells(g, r - 1) + g[r - 1].cells.len()
    } else {
        0
    }
}

/// The first row at or after `i` that lies past `idx` logical lines, given
/// that `ll` lines end before row `i`; the number of rows if there is none.
pub open spec fn skip_lines(g: Seq<Line>, i: int, ll: int, idx: int) -> int
    decreases g.len() - i,
{
    if 0 <= i < g.len() && ll < idx {
        skip_lines(
            g,
            i + 1,
            if g[i].wrapped {
                ll
            } else {
                ll + 1
            },
            idx,
        )
    } else {
        i
    }
}

/// A cursor position: row and column.
pub struct Spot {
    pub row: int,
    pub col: int,
}

/// Where the cell at offset `remaining` of the logical line that starts at
/// row `i` lies. An offset past the line's last row stays in that row; past
/// the end of the grid the place is the start of the last row.
pub open spec fn walk_cells(g: Seq<Line>, i: int, remaining: int, w: int) -> Spot
    decreases g.len() - i,
{
    if 0 <= i < g.len() {
        if remaining < g[i].cells.len() || !g[i].wrapped {
            Spot { row: i, col: min_int(remaining, w - 1) }
        } else {
            walk_cells(g, i + 1, remaining - g[i].cells.len(), w)
        }
    } else {
        Spot {
            row: if g.len() > 0 {
                g.len() - 1
            } else {
                0
            },
            col: 0,
        }
    }
}

/// Where the cursor lies after a grid has been re-wrapped into `g` of width
/// `w`, if it was at offset `offset` of logical line `idx` before.
pub open spec fn locate(g: Seq<Line>, idx: int, offset: int, w: int) -> Spot {
    walk_cells(g, skip_lines(g, 0, 0, idx), offset, w)
}

/// The views of a sequence of cell vectors.
pub open spec fn cells_of(v: Seq<Vec<Cell>>) -> Seq<Seq<Cell>> {
    Seq::new(v.len(), |i: int| v[i]@)
}

proof fn lemma_wrap_from_uniform(cells: Seq<Cell>, n: int, w: int, start: int)
    requires
        w >= 1,
    ensures
        uniform(wrap_from(cells, n, w, start), w),
    decreases
        (if n > start {
            n - start
        } else {
            0
        }),
{
    if 0 <= start < n {
        lemma_wrap_from_uniform(cells, n, w, start + w);
        let rest = wrap_from(cells, n, w, start + w);
        let all = wrap_from(cells, n, w, start);
        assert forall|i: int| 0 <= i < all.len() implies (#[trigger] all[i]).cells.len() == w by {
            if i > 0 {
                assert(all[i] == rest[i - 1]);
            }
        }
    }
}

/// Re-wrapped rows all have the new width.
pub proof fn lemma_wrap_lines_uniform(lines: Seq<Seq<Cell>>, w: int, k: int)
    requires
        w >= 1,
    ensures
        uniform(wrap_lines_from(lines, w, k), w),
    decreases lines.len() - k,
{
    if 0 <= k < lines.len() {
        lemma_wrap_lines_uniform(lines, w, k + 1);
        lemma_wrap_from_uniform(lines[k], trimmed_len(lines[k]), w, 0);
        let head = wrap_line(lines[k], w);
        let rest = wrap_lines_from(lines, w, k + 1);
        let all = wrap_lines_from(lines, w, k);
        assert forall|i: int| 0 <= i < all.len() implies (#[trigger] all[i]).cells.len() == w by {
            if i < head.len() {
                assert(all[i] == head[i]);
            } else {
                assert(all[i] == rest[i - head.len()]);
            }
        }
    }
}

/// Re-wrapped rows all have the new width.
pub proof fn lemma_reflow_uniform(rows: Seq<Line>, w: int)
    requires
        w >= 1,
    ensures
        uniform(reflow(rows, w), w),
{
    lemma_wrap_lines_uniform(logical_lines(rows), w, 0);
}

/// The length of `cells` without its trailing blank cells.
pub fn trimmed_length(cells: &Vec<Cell>) -> (n: usize)
    ensures
        n == trimmed_len(cells@),
        n <= cells.len(),
{
    let mut n: usize = cells.len();
    assert(cells@.take(n as int) =~= cells@);
    while n > 0 && cells[n - 1].is_blank()
        invariant
            n <= cells.len(),
            trimmed_len(cells@) == trimmed_len(cells@.take(n as int)),
        decreases n,
    {
        assert(cells@.take(n as int).drop_last() =~= cells@.take(n - 1));
        n -= 1;
    }
    n
}

/// Joins rows that continue one another into logical lines.
pub fn rows_to_logical_lines(rows: &Vec<Row>) -> (lines: Vec<Vec<Cell>>)
    ensures
        cells_of(lines@) == logical_lines(lines_of(rows@)),
{
    let ghost g = lines_of(rows@);
    let mut lines: Vec<Vec<Cell>> = Vec::new();
    let mut current: Vec<Cell> = Vec::new();
    let mut i: usize = 0;
    assert(cells_of(lines@) + logical_from(g, 0, current@) =~= logical_lines(g));
    while i < rows.len()
        invariant
            i <= rows.len(),
            g == lines_of(rows@),
            cells_of(lines@) + logical_from(g, i as int, current@) == logical_lines(g),
        decreases rows.len() - i,
    {
        let ghost acc = current@;
        let ghost done = cells_of(lines@);
        let row = &rows[i];
        let mut j: usize = 0;
        while j < row.cells.len()
            invariant
                j <= row.cells.len(),
                current@ == acc + row.cells@.take(j as int),
            decreases row.cells.len() - j,
        {
            current.push(row.cells[j]);
            assert(acc + row.cells@.take(j + 1) =~= (acc + row.cells@.take(j as int)).push(
                row.cells@[j as int],
            ));
            j += 1;
        }
        assert(row.cells@.take(row.cells.len() as int) =~= row.cells@);
        assert(g[i as int].cells == row.cells@);
        if !row.wrapped {
            let mut full: Vec<Cell> = Vec::new();
            std::mem::swap(&mut full, &mut current);
            lines.push(full);
            assert(cells_of(lines@) =~= done + seq![acc + g[i as int].cells]);
            assert(current@ =~= Seq::<Cell>::empty());
            assert(cells_of(lines@) + logical_from(g, i + 1, current@) =~= done + (seq![
                acc + g[i as int].cells,
            ] + logical_from(g, i + 1, Seq::empty())));
        }
        i += 1;
    }
    if current.len() > 0 {
        let ghost done = cells_of(lines@);
        let ghost acc = current@;
        lines.push(current);
        assert(cells_of(lines@) =~= done + seq![acc]);
    } else {
        assert(cells_of(lines@) + Seq::<Seq<Cell>>::empty() =~= cells_of(lines@));
    }
    lines
}

/// Cuts a logical line into rows of `new_cols` cells, leaving out its
/// trailing blank cells, and appends the rows to `out`.
pub fn wrap_logical_line(cells: &Vec<Cell>, new_cols: usize, out: &mut Vec<Row>)
    requires
        new_cols >= 1,
    ensures
        lines_of(final(out)@) == lines_of(old(out)@) + wrap_line(cells@, new_cols as int),
{
    let ghost before = lines_of(out@);
    let blank = Cell::blank();
    let n = trimmed_length(cells);
    if n == 0 {
        out.push(Row::new(new_cols, &blank));
        assert(lines_of(out@) =~= before + seq![blank_line(new_cols as int)]);
        return ;
    }
    let ghost target = wrap_from(cells@, n as int, new_cols as int, 0);
    let mut start: usize = 0;
    assert(lines_of(out@) + target =~= before + target);
    while start < n
        invariant
            new_cols >= 1,
            n <= cells.len(),
            n > 0,
            n == trimmed_len(cells@),
            target == wrap_from(cells@, n as int, new_cols as int, 0),
            before == lines_of(old(out)@),
            blank == blank_cell(),
            lines_of(out@) + wrap_from(cells@, n as int, new_cols as int, start as int) == before
                + target,
        decreases n - start,
    {
        let ghost done = lines_of(out@);
        let mut row_cells: Vec<Cell> = Vec::new();
        let mut j: usize = 0;
        while j < new_cols
            invariant
                j <= new_cols,
                start < n <= cells.len(),
                blank == blank_cell(),
                row_cells@.len() == j,
                forall|k: int|
                    0 <= k < j ==> row_cells@[k] == piece(
                        cells@,
                        n as int,
                        new_cols as int,
                        start as int,
                    ).cells[k],
            decreases new_cols - j,
        {
            if j < n - start {
                row_cells.push(cells[start + j]);
            } else {
                row_cells.push(blank);
            }
            j += 1;
        }
        let wrapped = new_cols < n - start;
        let row = Row { cells: row_cells, wrapped };
        assert(row@.cells =~= piece(cells@, n as int, new_cols as int, start as int).cells);
        assert(row@ == piece(cells@, n as int, new_cols as int, start as int));
        out.push(row);
        assert(lines_of(out@) =~= done + seq![
            piece(cells@, n as int, new_cols as int, start as int),
        ]);
        let ghost next = start + new_cols;
        assert(lines_of(out@) + wrap_from(cells@, n as int, new_cols as int, next) =~= done
            + wrap_from(cells@, n as int, new_cols as int, start as int));
        if wrapped {
            start += new_cols;
        } else {
            assert(wrap_from(cells@, n as int, new_cols as int, next) =~= Seq::<Line>::empty());
            assert(lines_of(out@) =~= before + target);
            return ;
        }
    }
    assert(wrap_from(cells@, n as int, new_cols as int, start as int) =~= Seq::<Line>::empty());
    assert(lines_of(out@) =~= before + target);
}

/// Re-wraps `rows` to rows of `new_cols` cells.
pub fn reflow_rows(rows: &Vec<Row>, new_cols: usize) -> (out: Vec<Row>)
    requires
        new_cols >= 1,
    ensures
        lines_of(out@) == reflow(lines_of(rows@), new_cols as int),
{
    let logical = rows_to_logical_lines(rows);
    let ghost lines = cells_of(logical@);
    let mut out: Vec<Row> = Vec::new();
    let mut k: usize = 0;
    assert(lines_of(out@) + wrap_lines_from(lines, new_cols as int, 0) =~= wrap_lines_from(
        lines,
        new_cols as int,
        0,
    ));
    while k < logical.len()
        invariant
            k <= logical.len(),
            new_cols >= 1,
            lines == cells_of(logical@),
            lines_of(out@) + wrap_lines_from(lines, new_cols as int, k as int) == wrap_lines_from(
                lines,
                new_cols as int,
                0,
            ),
        decreases logical.len() - k,
    {
        let ghost done = lines_of(out@);
        wrap_logical_line(&logical[k], new_cols, &mut out);
        assert(lines_of(out@) + wrap_lines_from(lines, new_cols as int, k + 1) =~= done + (
        wrap_line(lines[k as int], new_cols as int) + wrap_lines_from(
            lines,
            new_cols as int,
            k + 1,
        )));
        k += 1;
    }
    assert(lines_of(out@) + Seq::<Line>::empty() =~= lines_of(out@));
    out
}

} // verus!

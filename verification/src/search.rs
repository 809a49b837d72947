//! Looking things up in the rows: lines that hold a query, and the web
//! address under a cell.

use vstd::prelude::*;
use crate::cell::{Cell, Line, Row};
use crate::select::chars_of;
use crate::state::{Screen, TerminalState};
use crate::text::{
    chars_of_str, contains, contains_chars, lowercase, string_of, trim_end, trimmed_end,
};

verus! {

/// A line that holds the query.
#[derive(Clone, Debug)]
pub struct FilterMatch {
    /// Absolute line number, counted from the oldest scrollback row.
    pub abs_line: usize,
    /// The line's text without white space at its end.
    pub text: String,
}

/// A match as contracts see it.
pub struct Found {
    pub abs_line: int,
    pub text: Seq<char>,
}

impl View for FilterMatch {
    type V = Found;

    open spec fn view(&self) -> Found {
        Found { abs_line: self.abs_line as int, text: self.text@ }
    }
}

/// The views of a sequence of matches.
pub open spec fn found_of(v: Seq<FilterMatch>) -> Seq<Found> {
    Seq::new(v.len(), |i: int| v[i]@)
}

/// The text of a row without white space at its end.
pub open spec fn row_text(line: Line) -> Seq<char> {
    trim_end(chars_of(line.cells))
}

/// Whether the row holds the query, letter case aside: the lower-case form
/// of the query occurs in the lower-case form of the row's text.
pub open spec fn line_matches(line: Line, query: Seq<char>) -> bool {
    contains(lowercase(row_text(line)), lowercase(query))
}

/// The matches among the rows from `i` on, in order. A row is reported by
/// its line number, so the rows end where the numbers of a machine word end.
pub open spec fn matches_from(all: Seq<Line>, query: Seq<char>, i: int) -> Seq<Found>
    decreases all.len() - i,
{
    if 0 <= i < all.len() && i <= usize::MAX {
        if line_matches(all[i], query) {
            seq![Found { abs_line: i, text: row_text(all[i]) }] + matches_from(all, query, i + 1)
        } else {
            matches_from(all, query, i + 1)
        }
    } else {
        Seq::empty()
    }
}

/// The text `https://`.
pub open spec fn https_prefix() -> Seq<char> {
    seq!['h', 't', 't', 'p', 's', ':', '/', '/']
}

/// The text `http://`.
pub open spec fn http_prefix() -> Seq<char> {
    seq!['h', 't', 't', 'p', ':', '/', '/']
}

/// Whether `p` stands in `chars` at position `i`.
pub open spec fn has_prefix_at(chars: Seq<char>, i: int, p: Seq<char>) -> bool {
    0 <= i && i + p.len() <= chars.len() && chars.subrange(i, i + p.len()) == p
}

/// The length of the scheme that starts an address at `i`, zero if none does.
pub open spec fn scheme_len(chars: Seq<char>, i: int) -> int {
    if has_prefix_at(chars, i, https_prefix()) {
        8
    } else if has_prefix_at(chars, i, http_prefix()) {
        7
    } else {
        0
    }
}

/// Whether `c` ends an address: a space, a control character, a quote, an
/// angle bracket or a backtick.
pub open spec fn url_stop(c: char) -> bool {
    c <= ' ' || c == '"' || c == '\'' || c == '<' || c == '>' || c == '`'
}

/// Whether `c` is punctuation that is left off the end of an address.
pub open spec fn trailing_punct(c: char) -> bool {
    c == '.' || c == ',' || c == ';' || c == ':' || c == ')' || c == ']'
}

/// Where an address that runs through `end` stops: at the first character
/// that ends an address, or at the end of the row.
pub open spec fn url_extent(chars: Seq<char>, end: int) -> int
    decreases chars.len() - end,
{
    if 0 <= end < chars.len() && !url_stop(chars[end]) {
        url_extent(chars, end + 1)
    } else {
        end
    }
}

/// The end of the address `start .. end` without its trailing punctuation.
pub open spec fn url_trim(chars: Seq<char>, start: int, end: int) -> int
    decreases end - start,
{
    if end > start && 0 < end <= chars.len() && trailing_punct(chars[end - 1]) {
        url_trim(chars, start, end - 1)
    } else {
        end
    }
}

/// A span of columns, the end excluded.
pub struct Span {
    pub start: int,
    pub end: int,
}

/// The address, among those found from `i` on, that covers column `col`.
/// Addresses are found left to right and do not overlap.
pub open spec fn url_scan(chars: Seq<char>, col: int, i: int) -> Option<Span>
    decreases
        (if chars.len() > i {
            chars.len() - i
        } else {
            0
        }),
{
    if 0 <= i < chars.len() {
        if scheme_len(chars, i) == 0 {
            url_scan(chars, col, i + 1)
        } else {
            let end = url_trim(chars, i, url_extent(chars, i + scheme_len(chars, i)));
            if i <= col < end {
                Some(Span { start: i, end })
            } else if end > i {
                url_scan(chars, col, end)
            } else {
                url_scan(chars, col, i + 1)
            }
        }
    } else {
        None
    }
}

/// An address found under a cell.
pub struct Link {
    pub start: int,
    pub end: int,
    pub url: Seq<char>,
}

impl Screen {
    /// The lines that hold `query`, letter case aside, oldest first; none for
    /// the empty query.
    pub open spec fn search_lines(self, query: Seq<char>) -> Seq<Found> {
        if query.len() == 0 {
            Seq::empty()
        } else {
            matches_from(self.all_lines(), query, 0)
        }
    }

    /// The web address under column `col` of the shown row `visible_row`,
    /// with the columns that it spans.
    pub open spec fn url_at(self, visible_row: int, col: int) -> Option<Link> {
        if 0 <= visible_row < self.rows && 0 <= col < self.cols {
            match url_scan(chars_of(self.visible()[visible_row].cells), col, 0) {
                Some(span) => Some(
                    Link {
                        start: span.start,
                        end: span.end,
                        url: chars_of(self.visible()[visible_row].cells).subrange(
                            span.start,
                            span.end,
                        ),
                    },
                ),
                None => None,
            }
        } else {
            None
        }
    }
}

/// The characters that the cells show.
pub fn row_chars(cells: &[Cell]) -> (chars: Vec<char>)
    ensures
        chars@ == chars_of(cells@),
{
    let mut chars: Vec<char> = Vec::new();
    let mut i: usize = 0;
    while i < cells.len()
        invariant
            i <= cells.len(),
            chars@.len() == i,
            forall|j: int| 0 <= j < i ==> chars@[j] == cells@[j].c,
        decreases cells.len() - i,
    {
        chars.push(cells[i].c);
        i += 1;
    }
    assert(chars@ =~= chars_of(cells@));
    chars
}

/// Whether the row holds the query, given both in lower case.
pub fn lowered_match(lowered_row: &str, lowered_query: &Vec<char>) -> (r: bool)
    ensures
        r == contains(lowered_row@, lowered_query@),
{
    let hay = chars_of_str(lowered_row);
    contains_chars(&hay, lowered_query)
}

/// Looks at one row for the query and appends the match, if it is one.
fn search_row(row: &Row, abs_line: usize, query: &str, lowered_query: &Vec<char>, out: &mut Vec<FilterMatch>)
    requires
        lowered_query@ == lowercase(query@),
    ensures
        found_of(final(out)@) == found_of(old(out)@) + (if line_matches(row@, query@) {
            seq![Found { abs_line: abs_line as int, text: row_text(row@) }]
        } else {
            Seq::<Found>::empty()
        }),
{
    let ghost before = found_of(out@);
    let chars = row_chars(row.cells.as_slice());
    let n = trimmed_end(&chars);
    let text = string_of(&chars, 0, n);
    assert(text@ == row_text(row@));
    let lowered = text.as_str().to_lowercase();
    if lowered_match(lowered.as_str(), lowered_query) {
        out.push(FilterMatch { abs_line, text });
        assert(found_of(out@) =~= before + seq![
            Found { abs_line: abs_line as int, text: row_text(row@) },
        ]);
    } else {
        assert(found_of(out@) =~= before + Seq::<Found>::empty());
    }
}

/// Whether `chars` holds the characters of `prefix` at position `i`.
fn prefix_here(chars: &Vec<char>, i: usize, prefix: &[char]) -> (r: bool)
    requires
        i <= chars.len(),
    ensures
        r == has_prefix_at(chars@, i as int, prefix@),
{
    if prefix.len() > chars.len() - i {
        return false;
    }
    let mut j: usize = 0;
    while j < prefix.len()
        invariant
            j <= prefix.len(),
            i + prefix.len() <= chars.len(),
            forall|t: int| 0 <= t < j ==> chars@[i + t] == prefix@[t],
        decreases prefix.len() - j,
    {
        if chars[i + j] != prefix[j] {
            assert(chars@.subrange(i as int, i + prefix.len())[j as int] != prefix@[j as int]);
            return false;
        }
        j += 1;
    }
    assert(chars@.subrange(i as int, i + prefix.len()) =~= prefix@);
    true
}

/// The length of the scheme that starts an address at `i`, zero if none does.
fn scheme_here(chars: &Vec<char>, i: usize) -> (r: usize)
    requires
        i <= chars.len(),
    ensures
        r == scheme_len(chars@, i as int),
{
    let https: [char; 8] = ['h', 't', 't', 'p', 's', ':', '/', '/'];
    let http: [char; 7] = ['h', 't', 't', 'p', ':', '/', '/'];
    assert(https@ =~= https_prefix());
    assert(http@ =~= http_prefix());
    if prefix_here(chars, i, https.as_slice()) {
        8
    } else if prefix_here(chars, i, http.as_slice()) {
        7
    } else {
        0
    }
}

fn is_url_stop(c: char) -> (r: bool)
    ensures
        r == url_stop(c),
{
    c <= ' ' || c == '"' || c == '\'' || c == '<' || c == '>' || c == '`'
}

fn is_trailing_punct(c: char) -> (r: bool)
    ensures
        r == trailing_punct(c),
{
    c == '.' || c == ',' || c == ';' || c == ':' || c == ')' || c == ']'
}

/// The address in `chars` that covers column `col`, as the columns it spans.
pub fn find_url(chars: &Vec<char>, col: usize) -> (r: Option<(usize, usize)>)
    ensures
        match r {
            Some((start, end)) => url_scan(chars@, col as int, 0) == Some(
                Span { start: start as int, end: end as int },
            ) && start <= col < end <= chars.len(),
            None => url_scan(chars@, col as int, 0) is None,
        },
{
    let len = chars.len();
    let mut i: usize = 0;
    while i < len
        invariant
            len == chars.len(),
            i <= len,
            url_scan(chars@, col as int, i as int) == url_scan(chars@, col as int, 0),
        decreases len - i,
    {
        let p = scheme_here(chars, i);
        if p == 0 {
            i += 1;
            continue ;
        }
        let start = i;
        let mut end: usize = start + p;
        while end < len && !is_url_stop(chars[end])
            invariant
                len == chars.len(),
                start + p <= end <= len,
                url_extent(chars@, end as int) == url_extent(chars@, start + p),
            decreases len - end,
        {
            end += 1;
        }
        let ghost reach = end;
        while end > start && is_trailing_punct(chars[end - 1])
            invariant
                len == chars.len(),
                start <= end <= len,
                url_trim(chars@, start as int, end as int) == url_trim(
                    chars@,
                    start as int,
                    reach as int,
                ),
            decreases end - start,
        {
            end -= 1;
        }
        if col >= start && col < end {
            return Some((start, end));
        }
        i = if end > start {
            end
        } else {
            start + 1
        };
    }
    None
}

impl TerminalState {
    /// The lines that hold `query`, letter case aside, oldest first, each
    /// with its absolute line number and its text. The empty query finds
    /// nothing.
    pub fn search_lines(&self, query: &str) -> (r: Vec<FilterMatch>)
        requires
            self.wf(),
        ensures
            found_of(r@) == self@.search_lines(query@),
    {
        let mut results: Vec<FilterMatch> = Vec::new();
        if query.is_empty() {
            assert(found_of(results@) =~= Seq::<Found>::empty());
            return results;
        }
        let lowered = query.to_lowercase();
        let lowered_query = chars_of_str(lowered.as_str());
        let ghost all = self@.all_lines();
        let ghost target = matches_from(all, query@, 0);
        let sb_len = self.scrollback.len();
        let mut i: usize = 0;
        assert(found_of(results@) + target =~= target);
        while i < sb_len
            invariant
                i <= sb_len,
                sb_len == self.scrollback.len(),
                all == self@.all_lines(),
                lowered_query@ == lowercase(query@),
                found_of(results@) + matches_from(all, query@, i as int) == target,
            decreases sb_len - i,
        {
            let ghost before = found_of(results@);
            assert(all[i as int] == self.scrollback@[i as int]@);
            search_row(&self.scrollback[i], i, query, &lowered_query, &mut results);
            assert(found_of(results@) + matches_from(all, query@, i + 1) =~= before
                + matches_from(all, query@, i as int));
            i += 1;
        }
        let rows = self.grid.len();
        let mut k: usize = 0;
        while k < rows && k <= usize::MAX - sb_len
            invariant
                self.wf(),
                k <= rows,
                rows == self.grid.len(),
                sb_len == self.scrollback.len(),
                all == self@.all_lines(),
                lowered_query@ == lowercase(query@),
                found_of(results@) + matches_from(all, query@, sb_len + k) == target,
            decreases rows - k,
        {
            let ghost before = found_of(results@);
            assert(all[sb_len + k] == self.grid@[k as int]@);
            search_row(&self.grid[k], sb_len + k, query, &lowered_query, &mut results);
            assert(found_of(results@) + matches_from(all, query@, sb_len + k + 1) =~= before
                + matches_from(all, query@, sb_len + k));
            k += 1;
        }
        results
    }

    /// The web address under column `col` of the shown row `visible_row`:
    /// the first column of the address, the column after its last, and its
    /// text. An address starts with `http://` or `https://`, runs up to the
    /// next space, control character, quote, angle bracket or backtick, and
    /// does not take in punctuation at its end.
    pub fn url_at(&self, visible_row: usize, col: u16) -> (r: Option<(u16, u16, String)>)
        requires
            self.wf(),
        ensures
            match r {
                Some((start, end, url)) => self@.url_at(visible_row as int, col as int) == Some(
                    Link { start: start as int, end: end as int, url: url@ },
                ),
                None => self@.url_at(visible_row as int, col as int) is None,
            },
    {
        if visible_row >= self.rows as usize || col >= self.cols {
            return None;
        }
        let display = self.visible_lines();
        let cells = display[visible_row];
        let ghost line = self@.visible()[visible_row as int];
        assert(cells@ == line.cells);
        assert(line.cells.len() == self@.cols) by {
            let first = self@.first_visible();
            assert(line == self@.all_lines()[first + visible_row]);
            if first + visible_row < self@.scrollback.len() {
                assert(line == self@.scrollback[first + visible_row]);
            } else {
                assert(line == self@.grid[first + visible_row - self@.scrollback.len()]);
            }
        }
        let chars = row_chars(cells);
        match find_url(&chars, col as usize) {
            Some((start, end)) => {
                let url = string_of(&chars, start, end);
                Some((start as u16, end as u16, url))
            },
            None => None,
        }
    }
}

} // verus!

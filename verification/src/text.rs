//! Characters and strings: what the standard library decides about them,
//! and the plain operations on character sequences built on that.

use vstd::prelude::*;

verus! {

/// Whether a character beyond ASCII is white space in the sense of the
/// Unicode character database, as `char::is_whitespace` reports it.
pub uninterp spec fn wide_whitespace(c: char) -> bool;

/// Whether `c` is white space in the sense of the Unicode character
/// database. Of the ASCII characters these are the space and the controls
/// from the tab to the carriage return.
pub open spec fn is_whitespace(c: char) -> bool {
    if c <= '\x7f' {
        c == ' ' || ('\t' <= c && c <= '\r')
    } else {
        wide_whitespace(c)
    }
}

/// `char::is_whitespace`: the answer is the white-space property of the
/// character and nothing else. For ASCII the contract spells the property
/// out; beyond ASCII it only gives it a name.
pub assume_specification[ char::is_whitespace ](c: char) -> (b: bool)
    ensures
        b == is_whitespace(c),
        c > '\x7f' ==> b == wide_whitespace(c),
;

/// `String::push` appends one character at the end.
pub assume_specification[ String::push ](s: &mut String, c: char)
    ensures
        final(s)@ == old(s)@.push(c),
;

/// The lower-case form of a text, as `str::to_lowercase` gives it.
pub uninterp spec fn lowercase(s: Seq<char>) -> Seq<char>;

/// `str::to_lowercase`: the result depends on the characters of the text
/// alone.
pub assume_specification[ str::to_lowercase ](s: &str) -> (r: String)
    ensures
        r@ == lowercase(s@),
;

/// The text that a lossy UTF-8 decoding reads from `bytes`, as
/// `String::from_utf8_lossy` gives it.
pub uninterp spec fn lossy_text(bytes: Seq<u8>) -> Seq<char>;

/// `String::from_utf8_lossy`: decodes the bytes as UTF-8 and puts the
/// replacement character where they are not valid. The result depends on the
/// bytes alone.
#[verifier::external_body]
pub(crate) fn utf8_lossy(bytes: &[u8]) -> (s: String)
    ensures
        s@ == lossy_text(bytes@),
{
    String::from_utf8_lossy(bytes).into_owned()
}

/// The length of `s` without the white space at its end.
pub open spec fn trim_end_len(s: Seq<char>) -> int
    decreases s.len(),
{
    if s.len() > 0 && is_whitespace(s.last()) {
        trim_end_len(s.drop_last())
    } else {
        s.len() as int
    }
}

/// `s` without the white space at its end.
pub open spec fn trim_end(s: Seq<char>) -> Seq<char> {
    s.take(trim_end_len(s))
}

/// The number of white-space characters at the start of `s`.
pub open spec fn trim_start_len(s: Seq<char>) -> int
    decreases s.len(),
{
    if s.len() > 0 && is_whitespace(s.first()) {
        1 + trim_start_len(s.drop_first())
    } else {
        0
    }
}

/// `s` without the white space at either end.
pub open spec fn trim(s: Seq<char>) -> Seq<char> {
    trim_end(s.skip(trim_start_len(s)))
}

/// Whether `needle` occurs in `hay` as a run of neighbouring characters.
pub open spec fn contains(hay: Seq<char>, needle: Seq<char>) -> bool {
    exists|k: int| occurs_at(hay, needle, k)
}

/// Whether `needle` occurs in `hay` at position `k`.
pub open spec fn occurs_at(hay: Seq<char>, needle: Seq<char>, k: int) -> bool {
    0 <= k && k + needle.len() <= hay.len() && hay.subrange(k, k + needle.len()) == needle
}

/// The characters of `s`.
pub fn chars_of_str(s: &str) -> (v: Vec<char>)
    ensures
        v@ == s@,
{
    let mut v: Vec<char> = Vec::new();
    for c in it: s.chars()
        invariant
            v@ == it.seq().take(it.index()),
            it.seq() == s@,
    {
        v.push(c);
    }
    v
}

/// The string made of the characters `chars[from .. to]`.
pub fn string_of(chars: &Vec<char>, from: usize, to: usize) -> (s: String)
    requires
        from <= to <= chars.len(),
    ensures
        s@ == chars@.subrange(from as int, to as int),
{
    let mut s = String::new();
    let mut i: usize = from;
    while i < to
        invariant
            from <= i <= to <= chars.len(),
            s@ == chars@.subrange(from as int, i as int),
        decreases to - i,
    {
        s.push(chars[i]);
        assert(chars@.subrange(from as int, i + 1) =~= chars@.subrange(from as int, i as int).push(
            chars@[i as int],
        ));
        i += 1;
    }
    s
}

/// Appends `chars[from .. to]` to `out`.
pub fn push_chars(out: &mut String, chars: &Vec<char>, from: usize, to: usize)
    requires
        from <= to <= chars.len(),
    ensures
        final(out)@ == old(out)@ + chars@.subrange(from as int, to as int),
{
    let mut i: usize = from;
    assert(out@ =~= old(out)@ + chars@.subrange(from as int, from as int));
    while i < to
        invariant
            from <= i <= to <= chars.len(),
            out@ == old(out)@ + chars@.subrange(from as int, i as int),
        decreases to - i,
    {
        out.push(chars[i]);
        assert(old(out)@ + chars@.subrange(from as int, i + 1) =~= (old(out)@ + chars@.subrange(
            from as int,
            i as int,
        )).push(chars@[i as int]));
        i += 1;
    }
}

/// The length of `chars` without the white space at its end.
pub fn trimmed_end(chars: &Vec<char>) -> (n: usize)
    ensures
        n == trim_end_len(chars@),
        n <= chars.len(),
{
    let mut n: usize = chars.len();
    assert(chars@.take(n as int) =~= chars@);
    while n > 0 && chars[n - 1].is_whitespace()
        invariant
            n <= chars.len(),
            trim_end_len(chars@) == trim_end_len(chars@.take(n as int)),
        decreases n,
    {
        assert(chars@.take(n as int).drop_last() =~= chars@.take(n - 1));
        n -= 1;
    }
    n
}

/// Whether `needle` occurs in `hay` at position `k`.
fn occurs_here(hay: &Vec<char>, needle: &Vec<char>, k: usize) -> (r: bool)
    requires
        k + needle.len() <= hay.len(),
    ensures
        r == occurs_at(hay@, needle@, k as int),
{
    let mut j: usize = 0;
    while j < needle.len()
        invariant
            j <= needle.len(),
            k + needle.len() <= hay.len(),
            forall|t: int| 0 <= t < j ==> hay@[k + t] == needle@[t],
        decreases needle.len() - j,
    {
        if hay[k + j] != needle[j] {
            assert(hay@.subrange(k as int, k + needle.len())[j as int] != needle@[j as int]);
            return false;
        }
        j += 1;
    }
    assert(hay@.subrange(k as int, k + needle.len()) =~= needle@);
    true
}

/// Whether `needle` occurs in `hay` as a run of neighbouring characters.
/// The empty text occurs in every text.
pub fn contains_chars(hay: &Vec<char>, needle: &Vec<char>) -> (r: bool)
    ensures
        r == contains(hay@, needle@),
{
    if needle.len() > hay.len() {
        return false;
    }
    let last = hay.len() - needle.len();
    let mut k: usize = 0;
    loop
        invariant
            needle.len() <= hay.len(),
            last == hay.len() - needle.len(),
            k <= last,
            forall|t: int| 0 <= t < k ==> !occurs_at(hay@, needle@, t),
        decreases last - k,
    {
        if occurs_here(hay, needle, k) {
            return true;
        }
        if k == last {
            return false;
        }
        k += 1;
    }
}

/// Where the text `chars[from .. to]` starts and ends once the white space
/// at both of its ends is left off.
pub fn trim_range(chars: &Vec<char>, from: usize, to: usize) -> (r: (usize, usize))
    requires
        from <= to <= chars.len(),
    ensures
        from <= r.0 <= r.1 <= to,
        chars@.subrange(r.0 as int, r.1 as int) == trim(chars@.subrange(from as int, to as int)),
{
    let ghost part = chars@.subrange(from as int, to as int);
    let mut a: usize = from;
    assert(part.skip(0) =~= part);
    while a < to && chars[a].is_whitespace()
        invariant
            from <= a <= to <= chars.len(),
            part == chars@.subrange(from as int, to as int),
            trim_start_len(part) == (a - from) + trim_start_len(part.skip(a - from)),
        decreases to - a,
    {
        assert(part.skip(a - from).first() == chars@[a as int]);
        assert(part.skip(a - from).drop_first() =~= part.skip(a - from + 1));
        a += 1;
    }
    assert(trim_start_len(part) == a - from) by {
        if a < to {
            assert(part.skip(a - from).first() == chars@[a as int]);
        }
    }
    let ghost rest = part.skip(a - from);
    let mut b: usize = to;
    assert(rest.take(b - a) =~= rest);
    while b > a && chars[b - 1].is_whitespace()
        invariant
            a <= b <= to <= chars.len(),
            from <= a,
            rest == chars@.subrange(from as int, to as int).skip(a - from),
            trim_end_len(rest) == trim_end_len(rest.take(b - a)),
        decreases b,
    {
        assert(rest.take(b - a).last() == chars@[b - 1]);
        assert(rest.take(b - a).drop_last() =~= rest.take(b - a - 1));
        b -= 1;
    }
    assert(trim_end_len(rest) == b - a) by {
        if b > a {
            assert(rest.take(b - a).last() == chars@[b - 1]);
        }
    }
    assert(chars@.subrange(a as int, b as int) =~= trim(part));
    (a, b)
}

} // verus!

//! The escape interpreter: what each token of the byte stream does to the
//! screen buffer, and what is to be written back to the child.

use vstd::prelude::*;
use crate::state::{
    instant_of, max_int, text_of, CursorShape, Meta, Modes, Screen, Signals, TerminalState,
};
use crate::text::{chars_of_str, lossy_text, string_of, trim, trim_range, utf8_lossy};

verus! {

/// What the caller has to do after a token has been applied. Each of them
/// is done without holding the lock on the screen buffer.
#[derive(Debug)]
pub enum Effect {
    /// Nothing.
    Nothing,
    /// Write these bytes to the child.
    Reply(Vec<u8>),
    /// The child reported this working directory: find the branch checked
    /// out there and hand both to `set_working_directory`.
    ChangeDirectory(String),
}

/// An effect as contracts see it.
pub enum Outcome {
    Nothing,
    Reply(Seq<u8>),
    ChangeDirectory(Seq<char>),
}

impl View for Effect {
    type V = Outcome;

    open spec fn view(&self) -> Outcome {
        match self {
            Effect::Nothing => Outcome::Nothing,
            Effect::Reply(bytes) => Outcome::Reply(bytes@),
            Effect::ChangeDirectory(path) => Outcome::ChangeDirectory(path@),
        }
    }
}

/// Parameter `i`, or `default` where the list has none there.
pub open spec fn param(params: Seq<u16>, i: int, default: int) -> int {
    if 0 <= i < params.len() {
        params[i] as int
    } else {
        default
    }
}

/// Parameter `i` as a count: one if it is missing or zero.
pub open spec fn count(params: Seq<u16>, i: int) -> int {
    max_int(param(params, i, 1), 1)
}

/// The decimal digits of `n` in ASCII.
pub open spec fn decimal(n: int) -> Seq<u8>
    decreases n,
{
    if n >= 10 {
        decimal(n / 10).push((48 + n % 10) as u8)
    } else {
        seq![(48 + n) as u8]
    }
}

/// The bytes `ESC [`.
pub open spec fn csi() -> Seq<u8> {
    seq![0x1bu8, 0x5bu8]
}

/// The cursor position report `ESC [ row ; col R`, both counted from one.
pub open spec fn position_report(row: int, col: int) -> Seq<u8> {
    csi() + decimal(row) + seq![0x3bu8] + decimal(col) + seq![0x52u8]
}

/// The primary device attributes `ESC [ ? 62 ; 22 c`.
pub open spec fn device_attributes() -> Seq<u8> {
    seq![0x1bu8, 0x5bu8, 0x3fu8, 0x36u8, 0x32u8, 0x3bu8, 0x32u8, 0x32u8, 0x63u8]
}

/// The answer to the extended keyboard query, `ESC [ ? 0 u`: no flags.
pub open spec fn keyboard_flags() -> Seq<u8> {
    seq![0x1bu8, 0x5bu8, 0x3fu8, 0x30u8, 0x75u8]
}

/// The private mode report `ESC [ ? mode ; value $ y`.
pub open spec fn mode_report(mode: int, value: int) -> Seq<u8> {
    csi() + seq![0x3fu8] + decimal(mode) + seq![0x3bu8] + decimal(value) + seq![0x24u8, 0x79u8]
}

/// 1 for a mode that is set, 2 for one that is reset.
pub open spec fn set_or_reset(on: bool) -> int {
    if on {
        1
    } else {
        2
    }
}

/// The mode flags after private mode `mode` has been set or reset.
#[verifier::opaque]
pub open spec fn private_flag(modes: Modes, mode: int, on: bool) -> Modes {
    if mode == 1 {
        Modes { cursor_keys_application: on, ..modes }
    } else if mode == 7 {
        Modes { auto_wrap: on, ..modes }
    } else if mode == 25 {
        Modes { cursor_visible: on, ..modes }
    } else if mode == 1004 {
        Modes { focus_reporting: on, ..modes }
    } else if mode == 2004 {
        Modes { bracketed_paste: on, ..modes }
    } else if mode == 2026 {
        Modes { synchronized_output: on, ..modes }
    } else {
        modes
    }
}

/// The mode flags after mode `mode` of the standard has been set or reset.
#[verifier::opaque]
pub open spec fn plain_flag(modes: Modes, mode: int, on: bool) -> Modes {
    if mode == 4 {
        Modes { insert_mode: on, ..modes }
    } else {
        modes
    }
}

impl Screen {
    /// The value reported for a private mode: 1 set, 2 reset, 0 unknown.
    pub open spec fn mode_value(self, mode: int) -> int {
        if mode == 1 {
            set_or_reset(self.modes.cursor_keys_application)
        } else if mode == 7 {
            set_or_reset(self.modes.auto_wrap)
        } else if mode == 25 {
            set_or_reset(self.modes.cursor_visible)
        } else if mode == 1004 {
            set_or_reset(self.modes.focus_reporting)
        } else if mode == 1049 {
            set_or_reset(self.in_alt_screen())
        } else if mode == 2004 {
            set_or_reset(self.modes.bracketed_paste)
        } else if mode == 2026 {
            set_or_reset(self.modes.synchronized_output)
        } else {
            0
        }
    }

    /// The screen with other mode flags.
    pub open spec fn with_modes(self, modes: Modes) -> Screen {
        Screen { modes, ..self }
    }

    /// Sets or resets one private mode: cursor keys (1), auto-wrap (7),
    /// cursor visibility (25), focus reporting (1004), the alternate screen
    /// (1049), bracketed paste (2004) and synchronized output (2026), which
    /// records `now` as the time it was switched on. Others change nothing.
    pub open spec fn private_mode(self, mode: int, on: bool, now: int) -> Screen {
        let s = self.with_modes(private_flag(self.modes, mode, on));
        if mode == 1049 {
            if on {
                self.enter_alt_screen()
            } else {
                self.leave_alt_screen()
            }
        } else if mode == 25 {
            s.dirtied()
        } else if mode == 2026 {
            if on {
                Screen { sync_output_since: Some(now), ..s }
            } else {
                Screen { sync_output_since: None, ..s }.dirtied()
            }
        } else {
            s
        }
    }

    /// Sets or resets the private modes from position `i` of the list on.
    pub open spec fn private_modes_from(self, params: Seq<u16>, i: int, on: bool, now: int) -> Screen
        decreases params.len() - i,
    {
        if 0 <= i < params.len() {
            self.private_mode(params[i] as int, on, now).private_modes_from(params, i + 1, on, now)
        } else {
            self
        }
    }

    /// Sets or resets one mode of the standard: 4 is insert mode.
    pub open spec fn plain_mode(self, mode: int, on: bool) -> Screen {
        self.with_modes(plain_flag(self.modes, mode, on))
    }

    /// Sets or resets the modes of the standard from position `i` of the
    /// list on.
    pub open spec fn plain_modes_from(self, params: Seq<u16>, i: int, on: bool) -> Screen
        decreases params.len() - i,
    {
        if 0 <= i < params.len() {
            self.plain_mode(params[i] as int, on).plain_modes_from(params, i + 1, on)
        } else {
            self
        }
    }

    /// The cursor shape that style `ps` asks for.
    pub open spec fn shape_of(ps: int) -> CursorShape {
        if ps == 3 || ps == 4 {
            CursorShape::Underline
        } else if ps == 5 || ps == 6 {
            CursorShape::Bar
        } else {
            CursorShape::Block
        }
    }

    /// A printable character.
    pub open spec fn print(self, c: char) -> Screen {
        self.put_char(c)
    }

    /// A control byte: backspace, tab, the three line feeds, carriage return
    /// and the bell, which only raises the bell flag. Others do nothing.
    pub open spec fn execute(self, byte: u8) -> Screen {
        if byte == 0x08 {
            self.backspace()
        } else if byte == 0x09 {
            self.tab()
        } else if byte == 0x0a || byte == 0x0b || byte == 0x0c {
            self.newline()
        } else if byte == 0x0d {
            self.carriage_return()
        } else if byte == 0x07 {
            Screen { signals: Signals { bell: true, ..self.signals }, ..self }
        } else {
            self
        }
    }

    /// The screen after a control sequence with no intermediate byte.
    pub open spec fn csi_plain(self, params: Seq<u16>, action: char) -> Screen {
        if action == 'A' {
            self.cursor_up(count(params, 0))
        } else if action == 'B' {
            self.cursor_down(count(params, 0))
        } else if action == 'C' {
            self.cursor_forward(count(params, 0))
        } else if action == 'D' {
            self.cursor_backward(count(params, 0))
        } else if action == 'E' {
            self.cursor_down(count(params, 0)).carriage_return()
        } else if action == 'F' {
            self.cursor_up(count(params, 0)).carriage_return()
        } else if action == 'G' {
            self.set_cursor_pos(self.cursor.y, count(params, 0) - 1)
        } else if action == 'H' || action == 'f' {
            self.set_cursor_pos(count(params, 0) - 1, count(params, 1) - 1)
        } else if action == 'J' {
            self.erase_in_display(param(params, 0, 0))
        } else if action == 'K' {
            self.erase_in_line(param(params, 0, 0))
        } else if action == 'L' {
            self.insert_lines(count(params, 0))
        } else if action == 'M' {
            self.delete_lines(count(params, 0))
        } else if action == 'P' {
            self.delete_chars(count(params, 0))
        } else if action == 'S' {
            self.scroll_up(count(params, 0))
        } else if action == 'T' {
            self.scroll_down(count(params, 0))
        } else if action == 'X' {
            self.erase_chars(count(params, 0))
        } else if action == 'd' {
            self.set_cursor_pos(count(params, 0) - 1, self.column())
        } else if action == 'm' {
            self.set_sgr(
                if params.len() == 0 {
                    seq![0u16]
                } else {
                    params
                },
            )
        } else if action == 'r' {
            self.set_scroll_region(
                count(params, 0) - 1,
                max_int(param(params, 1, self.rows), 1) - 1,
            )
        } else if action == 's' {
            self.save_cursor()
        } else if action == 'u' {
            self.restore_cursor()
        } else if action == 'h' {
            self.plain_modes_from(params, 0, true)
        } else if action == 'l' {
            self.plain_modes_from(params, 0, false)
        } else if action == '@' {
            self.insert_chars(count(params, 0))
        } else {
            self
        }
    }

    /// The screen after a control sequence: `params` are its parameters,
    /// `inter` its intermediate bytes, `action` its final character. A
    /// sequence that is not known changes nothing.
    pub open spec fn csi_dispatch(self, params: Seq<u16>, inter: Seq<u8>, action: char, now: int) -> Screen {
        if inter.len() == 0 {
            self.csi_plain(params, action)
        } else if inter =~= seq![0x3fu8] && action == 'h' {
            self.private_modes_from(params, 0, true, now)
        } else if inter =~= seq![0x3fu8] && action == 'l' {
            self.private_modes_from(params, 0, false, now)
        } else if inter =~= seq![0x20u8] && action == 'q' {
            Screen { cursor_shape: Self::shape_of(param(params, 0, 0)), ..self }.dirtied()
        } else {
            self
        }
    }

    /// What a control sequence has written back to the child: the cursor
    /// position for `6 n`, the device attributes for `c` and `? c`, the
    /// private mode report for `? $ p`, and no flags for `> u`.
    pub open spec fn csi_reply(self, params: Seq<u16>, inter: Seq<u8>, action: char) -> Outcome {
        if inter.len() == 0 && action == 'n' && params.len() > 0 && params[0] == 6 {
            Outcome::Reply(position_report(self.cursor.y + 1, self.cursor.x + 1))
        } else if action == 'c' && (inter.len() == 0 || inter =~= seq![0x3fu8]) {
            Outcome::Reply(device_attributes())
        } else if action == 'p' && inter =~= seq![0x3fu8, 0x24u8] && params.len() > 0 {
            Outcome::Reply(mode_report(params[0] as int, self.mode_value(params[0] as int)))
        } else if action == 'u' && inter =~= seq![0x3eu8] {
            Outcome::Reply(keyboard_flags())
        } else {
            Outcome::Nothing
        }
    }

    /// The screen after an escape sequence: `M` is reverse index, `7` and
    /// `8` save and restore the cursor, `c` starts the screen over at its
    /// size. With an intermediate byte, or any other final byte, nothing
    /// changes.
    pub open spec fn esc_dispatch(self, inter: Seq<u8>, byte: u8) -> Screen {
        if inter.len() != 0 {
            self
        } else if byte == 0x4d {
            self.reverse_index()
        } else if byte == 0x37 {
            self.save_cursor()
        } else if byte == 0x38 {
            self.restore_cursor()
        } else if byte == 0x63 {
            Screen::initial(self.cols, self.rows, self.scrollback_limit)
        } else {
            self
        }
    }

    /// The screen with a new title and a redraw due.
    pub open spec fn set_title(self, title: Seq<char>) -> Screen {
        Screen { meta: Meta { title: Some(title), ..self.meta }, ..self }.dirtied()
    }

    /// The screen with a new working directory and branch and a redraw due.
    pub open spec fn set_working_directory(
        self,
        path: Seq<char>,
        branch: Option<Seq<char>>,
    ) -> Screen {
        Screen { meta: Meta { cwd: Some(path), git_branch: branch, ..self.meta }, ..self }.dirtied()
    }

    /// Whether drawing is put off at time `now`: synchronized output is on
    /// and was switched on less than 100 milliseconds ago.
    pub open spec fn sync_deferred(self, now: int) -> bool {
        self.modes.synchronized_output && match self.sync_output_since {
            Some(since) => max_int(now - since, 0) < 100,
            None => false,
        }
    }
}

/// The text `file://`.
pub open spec fn file_scheme() -> Seq<char> {
    seq!['f', 'i', 'l', 'e', ':', '/', '/']
}

/// The text `ref: refs/heads/`.
pub open spec fn head_ref_prefix() -> Seq<char> {
    seq!['r', 'e', 'f', ':', ' ', 'r', 'e', 'f', 's', '/', 'h', 'e', 'a', 'd', 's', '/']
}

/// Whether `s` starts with `p`.
pub open spec fn starts_with(s: Seq<char>, p: Seq<char>) -> bool {
    p.len() <= s.len() && s.take(p.len() as int) == p
}

/// The position of the first `c` in `s` at or after `i`, the length if none.
pub open spec fn find_from(s: Seq<char>, c: char, i: int) -> int
    decreases s.len() - i,
{
    if 0 <= i < s.len() && s[i] != c {
        find_from(s, c, i + 1)
    } else {
        i
    }
}

/// The path that a `file://host/path` address names: what follows the host,
/// from its first slash on. Anything else names no path.
pub open spec fn path_of(uri: Seq<char>) -> Option<Seq<char>> {
    if starts_with(uri, file_scheme()) && find_from(uri, '/', 7) < uri.len() {
        Some(uri.skip(find_from(uri, '/', 7)))
    } else {
        None
    }
}

/// The branch that the text of a `HEAD` file names: after `ref: refs/heads/`
/// the name of the branch, otherwise the first seven characters of the
/// commit; white space around the text does not count.
pub open spec fn branch_of(head: Seq<char>) -> Seq<char> {
    if starts_with(trim(head), head_ref_prefix()) {
        trim(head).skip(16)
    } else if trim(head).len() > 7 {
        trim(head).take(7)
    } else {
        trim(head)
    }
}

/// What an operating system command does to the screen: `0` and `2` set the
/// title. Everything else leaves the screen as it is.
pub open spec fn osc_screen(s: Screen, params: Seq<Seq<u8>>) -> Screen {
    if params.len() >= 2 && (params[0] =~= seq![0x30u8] || params[0] =~= seq![0x32u8]) {
        s.set_title(lossy_text(params[1]))
    } else {
        s
    }
}

/// What an operating system command asks of the caller: `7` with a
/// `file://` address reports a working directory.
pub open spec fn osc_outcome(params: Seq<Seq<u8>>) -> Outcome {
    if params.len() >= 2 && params[0] =~= seq![0x37u8] {
        match path_of(lossy_text(params[1])) {
            Some(path) => Outcome::ChangeDirectory(path),
            None => Outcome::Nothing,
        }
    } else {
        Outcome::Nothing
    }
}

/// The byte sequences of a list of parameters.
pub open spec fn bytes_of(params: Seq<&[u8]>) -> Seq<Seq<u8>> {
    Seq::new(params.len(), |i: int| params[i]@)
}

/// Appends the decimal digits of `n`.
pub fn push_decimal(out: &mut Vec<u8>, n: u32)
    ensures
        final(out)@ == old(out)@ + decimal(n as int),
    decreases n,
{
    if n >= 10 {
        push_decimal(out, n / 10);
        out.push(48 + (n % 10) as u8);
        assert(out@ =~= old(out)@ + decimal(n as int));
    } else {
        out.push(48 + n as u8);
        assert(out@ =~= old(out)@ + decimal(n as int));
    }
}

/// The cursor position report for `row`, `col`, both counted from one.
pub fn position_reply(row: u32, col: u32) -> (r: Vec<u8>)
    ensures
        r@ == position_report(row as int, col as int),
{
    let mut out: Vec<u8> = Vec::new();
    out.push(0x1b);
    out.push(0x5b);
    push_decimal(&mut out, row);
    out.push(0x3b);
    push_decimal(&mut out, col);
    out.push(0x52);
    assert(out@ =~= position_report(row as int, col as int));
    out
}

/// The report of private mode `mode` with value `value`.
pub fn mode_reply(mode: u16, value: u8) -> (r: Vec<u8>)
    ensures
        r@ == mode_report(mode as int, value as int),
{
    let mut out: Vec<u8> = Vec::new();
    out.push(0x1b);
    out.push(0x5b);
    out.push(0x3f);
    push_decimal(&mut out, mode as u32);
    out.push(0x3b);
    push_decimal(&mut out, value as u32);
    out.push(0x24);
    out.push(0x79);
    assert(out@ =~= mode_report(mode as int, value as int));
    out
}

/// The path that a `file://host/path` address names.
pub fn path_of_uri(uri: &str) -> (r: Option<String>)
    ensures
        text_of(r) == path_of(uri@),
{
    let chars = chars_of_str(uri);
    if chars.len() < 7 {
        return None;
    }
    if !(chars[0] == 'f' && chars[1] == 'i' && chars[2] == 'l' && chars[3] == 'e' && chars[4]
        == ':' && chars[5] == '/' && chars[6] == '/') {
        assert(chars@.take(7)[0] == chars@[0]);
        assert(chars@.take(7)[1] == chars@[1]);
        assert(chars@.take(7)[2] == chars@[2]);
        assert(chars@.take(7)[3] == chars@[3]);
        assert(chars@.take(7)[4] == chars@[4]);
        assert(chars@.take(7)[5] == chars@[5]);
        assert(chars@.take(7)[6] == chars@[6]);
        return None;
    }
    assert(chars@.take(7) =~= file_scheme());
    let mut i: usize = 7;
    while i < chars.len() && chars[i] != '/'
        invariant
            7 <= i <= chars.len(),
            find_from(chars@, '/', i as int) == find_from(chars@, '/', 7),
        decreases chars.len() - i,
    {
        i += 1;
    }
    if i < chars.len() {
        let path = string_of(&chars, i, chars.len());
        assert(chars@.subrange(i as int, chars.len() as int) =~= chars@.skip(i as int));
        Some(path)
    } else {
        None
    }
}

/// The branch that the text of a `HEAD` file names: after `ref: refs/heads/`
/// the name of the branch, otherwise the first seven characters of the
/// commit.
pub fn branch_from_head(content: &str) -> (r: String)
    ensures
        r@ == branch_of(content@),
{
    let chars = chars_of_str(content);
    assert(chars@.subrange(0, chars.len() as int) =~= chars@);
    let (from, to) = trim_range(&chars, 0, chars.len());
    let ghost text = trim(content@);
    let prefix: [char; 16] = [
        'r',
        'e',
        'f',
        ':',
        ' ',
        'r',
        'e',
        'f',
        's',
        '/',
        'h',
        'e',
        'a',
        'd',
        's',
        '/',
    ];
    assert(prefix@ =~= head_ref_prefix());
    let mut is_ref = to - from >= 16;
    let mut j: usize = 0;
    while is_ref && j < 16
        invariant
            j <= 16,
            from <= to <= chars.len(),
            is_ref ==> to - from >= 16,
            prefix@ == head_ref_prefix(),
            text == chars@.subrange(from as int, to as int),
            is_ref ==> forall|t: int| 0 <= t < j ==> chars@[from + t] == prefix@[t],
            !is_ref ==> !starts_with(text, head_ref_prefix()),
        decreases 16 - j + (if is_ref {
            1int
        } else {
            0int
        }),
    {
        if chars[from + j] != prefix[j] {
            is_ref = false;
            assert(text.take(16)[j as int] != head_ref_prefix()[j as int]);
        } else {
            j += 1;
        }
    }
    if is_ref {
        assert(text.take(16) =~= head_ref_prefix());
        let r = string_of(&chars, from + 16, to);
        assert(chars@.subrange(from + 16, to as int) =~= text.skip(16));
        r
    } else if to - from > 7 {
        let r = string_of(&chars, from, from + 7);
        assert(chars@.subrange(from as int, from + 7) =~= text.take(7));
        r
    } else {
        string_of(&chars, from, to)
    }
}

/// Parameter `i` as a count: one if it is missing or zero.
fn count_of(params: &[u16], i: usize) -> (r: u16)
    ensures
        r == count(params@, i as int),
        r >= 1,
{
    if i < params.len() && params[i] >= 1 {
        params[i]
    } else {
        1
    }
}

/// Parameter `i`, or `default` where the list has none there.
fn param_of(params: &[u16], i: usize, default: u16) -> (r: u16)
    ensures
        r == param(params@, i as int, default as int),
{
    if i < params.len() {
        params[i]
    } else {
        default
    }
}

fn is_one_byte(bytes: &[u8], b: u8) -> (r: bool)
    ensures
        r == (bytes@ =~= seq![b]),
{
    let r = bytes.len() == 1 && bytes[0] == b;
    proof {
        if r {
            assert(bytes@ =~= seq![b]);
        } else if bytes.len() == 1 {
            assert(seq![b][0] == b);
        } else {
            assert(seq![b].len() == 1);
        }
    }
    r
}

fn is_two_bytes(bytes: &[u8], a: u8, b: u8) -> (r: bool)
    ensures
        r == (bytes@ =~= seq![a, b]),
{
    let r = bytes.len() == 2 && bytes[0] == a && bytes[1] == b;
    proof {
        if r {
            assert(bytes@ =~= seq![a, b]);
        } else if bytes.len() == 2 {
            assert(seq![a, b][0] == a);
            assert(seq![a, b][1] == b);
        } else {
            assert(seq![a, b].len() == 2);
        }
    }
    r
}

fn with_private_flag(modes: Modes, mode: u16, on: bool) -> (r: Modes)
    ensures
        r == private_flag(modes, mode as int, on),
{
    reveal(private_flag);
    let mut m = modes;
    if mode == 1 {
        m.cursor_keys_application = on;
    } else if mode == 7 {
        m.auto_wrap = on;
    } else if mode == 25 {
        m.cursor_visible = on;
    } else if mode == 1004 {
        m.focus_reporting = on;
    } else if mode == 2004 {
        m.bracketed_paste = on;
    } else if mode == 2026 {
        m.synchronized_output = on;
    }
    m
}

fn with_plain_flag(modes: Modes, mode: u16, on: bool) -> (r: Modes)
    ensures
        r == plain_flag(modes, mode as int, on),
{
    reveal(plain_flag);
    let mut m = modes;
    if mode == 4 {
        m.insert_mode = on;
    }
    m
}

fn one_or_two(on: bool) -> (r: u8)
    ensures
        r == set_or_reset(on),
{
    if on {
        1
    } else {
        2
    }
}

impl TerminalState {
    /// A printable character goes to the screen.
    pub fn print(&mut self, c: char)
        requires
            old(self).wf(),
        ensures
            final(self)@ == old(self)@.print(c),
            final(self).wf(),
    {
        self.put_char(c);
    }

    /// Carries out a control byte.
    pub fn execute(&mut self, byte: u8)
        requires
            old(self).wf(),
        ensures
            final(self)@ == old(self)@.execute(byte),
            final(self).wf(),
    {
        if byte == 0x08 {
            self.backspace();
        } else if byte == 0x09 {
            self.tab();
        } else if byte == 0x0a || byte == 0x0b || byte == 0x0c {
            self.newline();
        } else if byte == 0x0d {
            self.carriage_return();
        } else if byte == 0x07 {
            self.bell = true;
        }
    }

    /// The value reported for a private mode: 1 set, 2 reset, 0 unknown.
    pub fn mode_value(&self, mode: u16) -> (r: u8)
        ensures
            r == self@.mode_value(mode as int),
    {
        if mode == 1 {
            one_or_two(self.modes.cursor_keys_application)
        } else if mode == 7 {
            one_or_two(self.modes.auto_wrap)
        } else if mode == 25 {
            one_or_two(self.modes.cursor_visible)
        } else if mode == 1004 {
            one_or_two(self.modes.focus_reporting)
        } else if mode == 1049 {
            one_or_two(self.kept.is_some())
        } else if mode == 2004 {
            one_or_two(self.modes.bracketed_paste)
        } else if mode == 2026 {
            one_or_two(self.modes.synchronized_output)
        } else {
            0
        }
    }

    fn set_modes(&mut self, modes: Modes)
        requires
            old(self).wf(),
        ensures
            final(self)@ == old(self)@.with_modes(modes),
            final(self).wf(),
    {
        self.modes = modes;
    }

    fn set_sync_since(&mut self, since: Option<u64>)
        requires
            old(self).wf(),
        ensures
            final(self)@ == (Screen { sync_output_since: instant_of(since), ..old(self)@ }),
            final(self).wf(),
    {
        self.sync_output_since = since;
    }

    /// Asks for a redraw.
    pub fn mark_dirty(&mut self)
        requires
            old(self).wf(),
        ensures
            final(self)@ == old(self)@.dirtied(),
            final(self).wf(),
    {
        self.dirty = true;
    }

    fn set_private_mode(&mut self, mode: u16, on: bool, now: u64)
        requires
            old(self).wf(),
        ensures
            final(self)@ == old(self)@.private_mode(mode as int, on, now as int),
            final(self).wf(),
    {
        if mode == 1049 {
            if on {
                self.enter_alt_screen();
            } else {
                self.leave_alt_screen();
            }
            return ;
        }
        self.set_modes(with_private_flag(self.modes, mode, on));
        if mode == 25 {
            self.mark_dirty();
        } else if mode == 2026 {
            if on {
                self.set_sync_since(Some(now));
            } else {
                self.set_sync_since(None);
                self.mark_dirty();
            }
        }
    }

    fn set_private_modes(&mut self, params: &[u16], on: bool, now: u64)
        requires
            old(self).wf(),
        ensures
            final(self)@ == old(self)@.private_modes_from(params@, 0, on, now as int),
            final(self).wf(),
    {
        let mut i: usize = 0;
        while i < params.len()
            invariant
                i <= params.len(),
                self.wf(),
                self@.private_modes_from(params@, i as int, on, now as int) == old(
                    self,
                )@.private_modes_from(params@, 0, on, now as int),
            decreases params.len() - i,
        {
            self.set_private_mode(params[i], on, now);
            i += 1;
        }
    }

    fn set_plain_modes(&mut self, params: &[u16], on: bool)
        requires
            old(self).wf(),
        ensures
            final(self)@ == old(self)@.plain_modes_from(params@, 0, on),
            final(self).wf(),
    {
        let mut i: usize = 0;
        while i < params.len()
            invariant
                i <= params.len(),
                self.wf(),
                self@.plain_modes_from(params@, i as int, on) == old(self)@.plain_modes_from(
                    params@,
                    0,
                    on,
                ),
            decreases params.len() - i,
        {
            self.set_modes(with_plain_flag(self.modes, params[i], on));
            i += 1;
        }
    }

    fn csi_plain(&mut self, params: &[u16], action: char)
        requires
            old(self).wf(),
        ensures
            final(self)@ == old(self)@.csi_plain(params@, action),
            final(self).wf(),
    {
        let n = count_of(params, 0);
        if action == 'A' {
            self.cursor_up(n);
        } else if action == 'B' {
            self.cursor_down(n);
        } else if action == 'C' {
            self.cursor_forward(n);
        } else if action == 'D' {
            self.cursor_backward(n);
        } else if action == 'E' {
            self.cursor_down(n);
            self.carriage_return();
        } else if action == 'F' {
            self.cursor_up(n);
            self.carriage_return();
        } else if action == 'G' {
            let row = self.cursor_y;
            self.set_cursor_pos(row, n - 1);
        } else if action == 'H' || action == 'f' {
            let col = count_of(params, 1);
            self.set_cursor_pos(n - 1, col - 1);
        } else if action == 'J' {
            self.erase_in_display(param_of(params, 0, 0));
        } else if action == 'K' {
            self.erase_in_line(param_of(params, 0, 0));
        } else if action == 'L' {
            self.insert_lines(n);
        } else if action == 'M' {
            self.delete_lines(n);
        } else if action == 'P' {
            self.delete_chars(n);
        } else if action == 'S' {
            self.scroll_up_region(n);
        } else if action == 'T' {
            self.scroll_down_region(n);
        } else if action == 'X' {
            self.erase_chars(n);
        } else if action == 'd' {
            let col = self.column();
            self.set_cursor_pos(n - 1, col);
        } else if action == 'm' {
            if params.len() == 0 {
                let reset: [u16; 1] = [0];
                assert(reset@ =~= seq![0u16]);
                self.set_sgr(reset.as_slice());
            } else {
                self.set_sgr(params);
            }
        } else if action == 'r' {
            let given = param_of(params, 1, self.rows);
            let bottom: u16 = if given >= 1 {
                given - 1
            } else {
                0
            };
            self.set_scroll_region(n - 1, bottom);
        } else if action == 's' {
            self.save_cursor();
        } else if action == 'u' {
            self.restore_cursor();
        } else if action == 'h' {
            self.set_plain_modes(params, true);
        } else if action == 'l' {
            self.set_plain_modes(params, false);
        } else if action == '@' {
            self.insert_chars(n);
        }
    }

    /// What a control sequence has written back to the child.
    pub fn csi_reply(&self, params: &[u16], intermediates: &[u8], action: char) -> (r: Effect)
        requires
            self.wf(),
        ensures
            r@ == self@.csi_reply(params@, intermediates@, action),
    {
        let private = is_one_byte(intermediates, 0x3f);
        if intermediates.len() == 0 && action == 'n' && params.len() > 0 && params[0] == 6 {
            Effect::Reply(position_reply(self.cursor_y as u32 + 1, self.cursor_x as u32 + 1))
        } else if action == 'c' && (intermediates.len() == 0 || private) {
            let mut out: Vec<u8> = Vec::new();
            out.push(0x1b);
            out.push(0x5b);
            out.push(0x3f);
            out.push(0x36);
            out.push(0x32);
            out.push(0x3b);
            out.push(0x32);
            out.push(0x32);
            out.push(0x63);
            assert(out@ =~= device_attributes());
            Effect::Reply(out)
        } else if action == 'p' && is_two_bytes(intermediates, 0x3f, 0x24) && params.len() > 0 {
            Effect::Reply(mode_reply(params[0], self.mode_value(params[0])))
        } else if action == 'u' && is_one_byte(intermediates, 0x3e) {
            let mut out: Vec<u8> = Vec::new();
            out.push(0x1b);
            out.push(0x5b);
            out.push(0x3f);
            out.push(0x30);
            out.push(0x75);
            assert(out@ =~= keyboard_flags());
            Effect::Reply(out)
        } else {
            Effect::Nothing
        }
    }

    /// Carries out a control sequence and says what is to be written back to
    /// the child. `now` is the caller's monotonic clock in milliseconds; it
    /// is recorded when the sequence switches synchronized output on.
    pub fn csi_dispatch(
        &mut self,
        params: &[u16],
        intermediates: &[u8],
        action: char,
        now: u64,
    ) -> (r: Effect)
        requires
            old(self).wf(),
        ensures
            final(self)@ == old(self)@.csi_dispatch(params@, intermediates@, action, now as int),
            r@ == old(self)@.csi_reply(params@, intermediates@, action),
            final(self).wf(),
    {
        let reply = self.csi_reply(params, intermediates, action);
        let private = is_one_byte(intermediates, 0x3f);
        if intermediates.len() == 0 {
            self.csi_plain(params, action);
        } else if private && action == 'h' {
            self.set_private_modes(params, true, now);
        } else if private && action == 'l' {
            self.set_private_modes(params, false, now);
        } else if is_one_byte(intermediates, 0x20) && action == 'q' {
            let ps = param_of(params, 0, 0);
            self.cursor_shape = if ps == 3 || ps == 4 {
                CursorShape::Underline
            } else if ps == 5 || ps == 6 {
                CursorShape::Bar
            } else {
                CursorShape::Block
            };
            self.dirty = true;
        }
        reply
    }

    /// Carries out an escape sequence.
    pub fn esc_dispatch(&mut self, intermediates: &[u8], byte: u8)
        requires
            old(self).wf(),
        ensures
            final(self)@ == old(self)@.esc_dispatch(intermediates@, byte),
            final(self).wf(),
    {
        if intermediates.len() != 0 {
            return ;
        }
        if byte == 0x4d {
            self.reverse_index();
        } else if byte == 0x37 {
            self.save_cursor();
        } else if byte == 0x38 {
            self.restore_cursor();
        } else if byte == 0x63 {
            *self = TerminalState::new(self.cols, self.rows, self.scrollback_limit);
        }
    }

    /// Sets the window title.
    pub fn set_title(&mut self, title: String)
        requires
            old(self).wf(),
        ensures
            final(self)@ == old(self)@.set_title(title@),
            final(self).wf(),
    {
        self.title = Some(title);
        self.dirty = true;
    }

    /// Records the working directory that the child reported and the branch
    /// checked out there, if it lies in a repository.
    pub fn set_working_directory(&mut self, path: String, branch: Option<String>)
        requires
            old(self).wf(),
        ensures
            final(self)@ == old(self)@.set_working_directory(path@, text_of(branch)),
            final(self).wf(),
    {
        self.cwd = Some(path);
        self.git_branch = branch;
        self.dirty = true;
    }

    /// Carries out an operating system command. `0` and `2` set the title; `7`
    /// reports a working directory, which is handed back for the caller to
    /// look up the branch. A command that is not known changes nothing.
    pub fn osc_dispatch(&mut self, params: &[&[u8]]) -> (r: Effect)
        requires
            old(self).wf(),
        ensures
            final(self)@ == osc_screen(old(self)@, bytes_of(params@)),
            r@ == osc_outcome(bytes_of(params@)),
            final(self).wf(),
    {
        if params.len() < 2 {
            return Effect::Nothing;
        }
        let code = params[0];
        let value = params[1];
        assert(bytes_of(params@)[0] == code@);
        assert(bytes_of(params@)[1] == value@);
        if is_one_byte(code, 0x30) || is_one_byte(code, 0x32) {
            let title = utf8_lossy(value);
            self.set_title(title);
            assert(!(code@ =~= seq![0x37u8])) by {
                assert(seq![0x37u8][0] == 0x37u8);
                assert(seq![0x30u8][0] == 0x30u8);
                assert(seq![0x32u8][0] == 0x32u8);
            }
            Effect::Nothing
        } else if is_one_byte(code, 0x37) {
            let uri = utf8_lossy(value);
            match path_of_uri(uri.as_str()) {
                Some(path) => Effect::ChangeDirectory(path),
                None => Effect::Nothing,
            }
        } else {
            Effect::Nothing
        }
    }

    /// Whether drawing is put off at time `now` on the caller's monotonic
    /// clock: synchronized output is on and was switched on less than 100
    /// milliseconds ago.
    pub fn sync_deferred(&self, now: u64) -> (r: bool)
        ensures
            r == self@.sync_deferred(now as int),
    {
        if !self.modes.synchronized_output {
            return false;
        }
        match self.sync_output_since {
            Some(since) => {
                let elapsed: u64 = if now >= since {
                    now - since
                } else {
                    0
                };
                elapsed < 100
            },
            None => false,
        }
    }
}

} // verus!

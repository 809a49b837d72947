//! Key combinations and the actions of the terminal that they are bound to.

use std::collections::HashMap;
use vstd::prelude::*;
use crate::text::{chars_of_str, trim, trim_range};

verus! {

/// A key.
#[derive(Clone, Copy, Debug, PartialEq, Eq, Hash, Structural)]
pub enum Key {
    Char(char),
    Up,
    Down,
    Left,
    Right,
    Backspace,
    Enter,
}

/// A key with the modifiers held down.
#[derive(Clone, Copy, Debug, PartialEq, Eq, Hash, Structural)]
pub struct KeyCombo {
    pub cmd: bool,
    pub ctrl: bool,
    pub option: bool,
    pub shift: bool,
    pub key: Key,
}

/// What a key combination asks of the terminal.
#[derive(Clone, Copy, Debug, PartialEq, Eq, Structural)]
pub enum TerminalAction {
    KillLine,
    Home,
    End,
    WordBack,
    WordForward,
    ShiftEnter,
}

/// The special key that a virtual key code stands for, if it does.
pub open spec fn special_key(code: u16) -> Option<Key> {
    if code == 0x24 {
        Some(Key::Enter)
    } else if code == 0x33 {
        Some(Key::Backspace)
    } else if code == 0x7e {
        Some(Key::Up)
    } else if code == 0x7d {
        Some(Key::Down)
    } else if code == 0x7b {
        Some(Key::Left)
    } else if code == 0x7c {
        Some(Key::Right)
    } else {
        None
    }
}

/// The arrow keys, enter and backspace by their virtual key code. Every
/// other key is told by the character it types.
pub fn keycode_to_special(code: u16) -> (r: Option<Key>)
    ensures
        r == special_key(code),
{
    match code {
        0x24 => Some(Key::Enter),
        0x33 => Some(Key::Backspace),
        0x7e => Some(Key::Up),
        0x7d => Some(Key::Down),
        0x7b => Some(Key::Left),
        0x7c => Some(Key::Right),
        _ => None,
    }
}

/// The bytes that an action of the terminal sends to the child.
pub open spec fn action_bytes(action: TerminalAction) -> Seq<u8> {
    match action {
        TerminalAction::KillLine => seq![0x15u8],
        TerminalAction::Home => seq![0x1bu8, 0x5bu8, 0x48u8],
        TerminalAction::End => seq![0x1bu8, 0x5bu8, 0x46u8],
        TerminalAction::WordBack => seq![0x1bu8, 0x62u8],
        TerminalAction::WordForward => seq![0x1bu8, 0x66u8],
        TerminalAction::ShiftEnter => seq![0x1bu8, 0x5bu8, 0x31u8, 0x33u8, 0x3bu8, 0x32u8, 0x75u8],
    }
}

impl TerminalAction {
    /// The bytes that the action sends to the child.
    pub fn bytes(&self) -> (r: Vec<u8>)
        ensures
            r@ == action_bytes(*self),
    {
        let r = match self {
            TerminalAction::KillLine => vec![0x15u8],
            TerminalAction::Home => vec![0x1bu8, 0x5bu8, 0x48u8],
            TerminalAction::End => vec![0x1bu8, 0x5bu8, 0x46u8],
            TerminalAction::WordBack => vec![0x1bu8, 0x62u8],
            TerminalAction::WordForward => vec![0x1bu8, 0x66u8],
            TerminalAction::ShiftEnter => vec![
                0x1bu8,
                0x5bu8,
                0x31u8,
                0x33u8,
                0x3bu8,
                0x32u8,
                0x75u8,
            ],
        };
        assert(r@ =~= action_bytes(*self));
        r
    }
}

/// The lower-case form of an ASCII capital; any other character as it is.
pub open spec fn ascii_lower(c: char) -> char {
    if 'A' <= c && c <= 'Z' {
        ((c as u8) + 32) as char
    } else {
        c
    }
}

/// The text with its ASCII capitals in lower case.
pub open spec fn ascii_lowered(s: Seq<char>) -> Seq<char> {
    Seq::new(s.len(), |i: int| ascii_lower(s[i]))
}

/// A key combination without modifiers and without a key.
pub open spec fn no_combo() -> KeyCombo {
    KeyCombo { cmd: false, ctrl: false, option: false, shift: false, key: Key::Char('\0') }
}

/// The combination with the modifier that `name` names held down as well:
/// `cmd` or `command`, `ctrl` or `control`, `option`, `alt` or `opt`, and
/// `shift`, in any letter case. Any other name adds nothing.
pub open spec fn with_modifier(combo: KeyCombo, name: Seq<char>) -> KeyCombo {
    let n = ascii_lowered(name);
    if n == seq!['c', 'm', 'd'] || n == seq!['c', 'o', 'm', 'm', 'a', 'n', 'd'] {
        KeyCombo { cmd: true, ..combo }
    } else if n == seq!['c', 't', 'r', 'l'] || n == seq!['c', 'o', 'n', 't', 'r', 'o', 'l'] {
        KeyCombo { ctrl: true, ..combo }
    } else if n == seq!['o', 'p', 't', 'i', 'o', 'n'] || n == seq!['a', 'l', 't'] || n == seq![
        'o',
        'p',
        't',
    ] {
        KeyCombo { option: true, ..combo }
    } else if n == seq!['s', 'h', 'i', 'f', 't'] {
        KeyCombo { shift: true, ..combo }
    } else {
        combo
    }
}

/// The key that `name` names, in any letter case: the arrow keys by their
/// direction, `backspace` or `delete`, `enter` or `return`, and a single
/// ASCII character for itself. Any other name names no key.
pub open spec fn key_named(name: Seq<char>) -> Key {
    let n = ascii_lowered(name);
    if n == seq!['u', 'p'] {
        Key::Up
    } else if n == seq!['d', 'o', 'w', 'n'] {
        Key::Down
    } else if n == seq!['l', 'e', 'f', 't'] {
        Key::Left
    } else if n == seq!['r', 'i', 'g', 'h', 't'] {
        Key::Right
    } else if n == seq!['b', 'a', 'c', 'k', 's', 'p', 'a', 'c', 'e'] || n == seq![
        'd',
        'e',
        'l',
        'e',
        't',
        'e',
    ] {
        Key::Backspace
    } else if n == seq!['e', 'n', 't', 'e', 'r'] || n == seq!['r', 'e', 't', 'u', 'r', 'n'] {
        Key::Enter
    } else if n.len() == 1 && n[0] <= '\x7f' {
        Key::Char(n[0])
    } else {
        Key::Char('\0')
    }
}

/// The combination that the text adds to `combo`, read from position `i`
/// on, where the part being read started at `start`: the parts between `+`
/// signs, without white space around them, are modifiers, and the last part
/// is the key.
pub open spec fn combo_scan(s: Seq<char>, start: int, i: int, combo: KeyCombo) -> KeyCombo
    decreases s.len() - i,
{
    if 0 <= i < s.len() {
        if s[i] == '+' {
            combo_scan(s, i + 1, i + 1, with_modifier(combo, trim(s.subrange(start, i))))
        } else {
            combo_scan(s, start, i + 1, combo)
        }
    } else {
        KeyCombo { key: key_named(trim(s.subrange(start, s.len() as int))), ..combo }
    }
}

/// The key combination that a text names.
pub open spec fn combo_of(s: Seq<char>) -> KeyCombo {
    combo_scan(s, 0, 0, no_combo())
}

fn lower(c: char) -> (r: char)
    ensures
        r == ascii_lower(c),
{
    if 'A' <= c && c <= 'Z' {
        ((c as u8) + 32) as char
    } else {
        c
    }
}

/// Whether `chars[from .. to]`, with its ASCII capitals in lower case, is
/// `word`.
fn is_word(chars: &Vec<char>, from: usize, to: usize, word: &[char]) -> (r: bool)
    requires
        from <= to <= chars.len(),
    ensures
        r == (ascii_lowered(chars@.subrange(from as int, to as int)) == word@),
{
    let ghost part = ascii_lowered(chars@.subrange(from as int, to as int));
    if to - from != word.len() {
        return false;
    }
    let mut j: usize = 0;
    while j < word.len()
        invariant
            j <= word.len(),
            from <= to <= chars.len(),
            to - from == word.len(),
            part == ascii_lowered(chars@.subrange(from as int, to as int)),
            forall|t: int| 0 <= t < j ==> part[t] == word@[t],
        decreases word.len() - j,
    {
        if lower(chars[from + j]) != word[j] {
            assert(part[j as int] != word@[j as int]);
            return false;
        }
        j += 1;
    }
    assert(part =~= word@);
    true
}

fn add_modifier(combo: KeyCombo, chars: &Vec<char>, from: usize, to: usize) -> (r: KeyCombo)
    requires
        from <= to <= chars.len(),
    ensures
        r == with_modifier(combo, chars@.subrange(from as int, to as int)),
{
    let cmd: [char; 3] = ['c', 'm', 'd'];
    let command: [char; 7] = ['c', 'o', 'm', 'm', 'a', 'n', 'd'];
    let ctrl: [char; 4] = ['c', 't', 'r', 'l'];
    let control: [char; 7] = ['c', 'o', 'n', 't', 'r', 'o', 'l'];
    let option: [char; 6] = ['o', 'p', 't', 'i', 'o', 'n'];
    let alt: [char; 3] = ['a', 'l', 't'];
    let opt: [char; 3] = ['o', 'p', 't'];
    let shift: [char; 5] = ['s', 'h', 'i', 'f', 't'];
    assert(cmd@ =~= seq!['c', 'm', 'd']);
    assert(command@ =~= seq!['c', 'o', 'm', 'm', 'a', 'n', 'd']);
    assert(ctrl@ =~= seq!['c', 't', 'r', 'l']);
    assert(control@ =~= seq!['c', 'o', 'n', 't', 'r', 'o', 'l']);
    assert(option@ =~= seq!['o', 'p', 't', 'i', 'o', 'n']);
    assert(alt@ =~= seq!['a', 'l', 't']);
    assert(opt@ =~= seq!['o', 'p', 't']);
    assert(shift@ =~= seq!['s', 'h', 'i', 'f', 't']);
    let mut r = combo;
    if is_word(chars, from, to, cmd.as_slice()) || is_word(chars, from, to, command.as_slice()) {
        r.cmd = true;
    } else if is_word(chars, from, to, ctrl.as_slice()) || is_word(
        chars,
        from,
        to,
        control.as_slice(),
    ) {
        r.ctrl = true;
    } else if is_word(chars, from, to, option.as_slice()) || is_word(
        chars,
        from,
        to,
        alt.as_slice(),
    ) || is_word(chars, from, to, opt.as_slice()) {
        r.option = true;
    } else if is_word(chars, from, to, shift.as_slice()) {
        r.shift = true;
    }
    r
}

fn key_for(chars: &Vec<char>, from: usize, to: usize) -> (r: Key)
    requires
        from <= to <= chars.len(),
    ensures
        r == key_named(chars@.subrange(from as int, to as int)),
{
    let up: [char; 2] = ['u', 'p'];
    let down: [char; 4] = ['d', 'o', 'w', 'n'];
    let left: [char; 4] = ['l', 'e', 'f', 't'];
    let right: [char; 5] = ['r', 'i', 'g', 'h', 't'];
    let backspace: [char; 9] = ['b', 'a', 'c', 'k', 's', 'p', 'a', 'c', 'e'];
    let delete: [char; 6] = ['d', 'e', 'l', 'e', 't', 'e'];
    let enter: [char; 5] = ['e', 'n', 't', 'e', 'r'];
    let ret: [char; 6] = ['r', 'e', 't', 'u', 'r', 'n'];
    assert(up@ =~= seq!['u', 'p']);
    assert(down@ =~= seq!['d', 'o', 'w', 'n']);
    assert(left@ =~= seq!['l', 'e', 'f', 't']);
    assert(right@ =~= seq!['r', 'i', 'g', 'h', 't']);
    assert(backspace@ =~= seq!['b', 'a', 'c', 'k', 's', 'p', 'a', 'c', 'e']);
    assert(delete@ =~= seq!['d', 'e', 'l', 'e', 't', 'e']);
    assert(enter@ =~= seq!['e', 'n', 't', 'e', 'r']);
    assert(ret@ =~= seq!['r', 'e', 't', 'u', 'r', 'n']);
    if is_word(chars, from, to, up.as_slice()) {
        Key::Up
    } else if is_word(chars, from, to, down.as_slice()) {
        Key::Down
    } else if is_word(chars, from, to, left.as_slice()) {
        Key::Left
    } else if is_word(chars, from, to, right.as_slice()) {
        Key::Right
    } else if is_word(chars, from, to, backspace.as_slice()) || is_word(
        chars,
        from,
        to,
        delete.as_slice(),
    ) {
        Key::Backspace
    } else if is_word(chars, from, to, enter.as_slice()) || is_word(
        chars,
        from,
        to,
        ret.as_slice(),
    ) {
        Key::Enter
    } else if to - from == 1 && lower(chars[from]) <= '\x7f' {
        assert(ascii_lowered(chars@.subrange(from as int, to as int))[0] == ascii_lower(
            chars@[from as int],
        ));
        Key::Char(lower(chars[from]))
    } else {
        Key::Char('\0')
    }
}

/// Reads a key combination such as `cmd+shift+d`: modifiers and a key,
/// joined by `+`, in any letter case and with white space around the parts
/// allowed. What is not understood is left out.
pub fn parse_key_combo(s: &str) -> (r: KeyCombo)
    ensures
        r == combo_of(s@),
{
    let chars = chars_of_str(s);
    let len = chars.len();
    let mut combo = KeyCombo {
        cmd: false,
        ctrl: false,
        option: false,
        shift: false,
        key: Key::Char('\0'),
    };
    let mut start: usize = 0;
    let mut i: usize = 0;
    while i < len
        invariant
            len == chars.len(),
            start <= i <= len,
            chars@ == s@,
            combo_scan(chars@, start as int, i as int, combo) == combo_of(s@),
        decreases len - i,
    {
        if chars[i] == '+' {
            let (a, b) = trim_range(&chars, start, i);
            combo = add_modifier(combo, &chars, a, b);
            start = i + 1;
        }
        i += 1;
    }
    let (a, b) = trim_range(&chars, start, len);
    combo.key = key_for(&chars, a, b);
    combo
}

/// The key combinations of the terminal's own actions, as texts.
pub struct TerminalKeysConfig {
    pub kill_line: String,
    pub home: String,
    pub end: String,
    pub word_back: String,
    pub word_forward: String,
    pub shift_enter: String,
}

impl Default for TerminalKeysConfig {
    fn default() -> (r: TerminalKeysConfig)
        ensures
            r.kill_line@ == "cmd+backspace"@,
            r.home@ == "cmd+left"@,
            r.end@ == "cmd+right"@,
            r.word_back@ == "option+left"@,
            r.word_forward@ == "option+right"@,
            r.shift_enter@ == "shift+enter"@,
    {
        TerminalKeysConfig {
            kill_line: "cmd+backspace".to_owned(),
            home: "cmd+left".to_owned(),
            end: "cmd+right".to_owned(),
            word_back: "option+left".to_owned(),
            word_forward: "option+right".to_owned(),
            shift_enter: "shift+enter".to_owned(),
        }
    }
}

/// The number that stands for a key: the code point of a character, and the
/// numbers behind the last code point for the keys without one.
pub open spec fn key_code(key: Key) -> int {
    match key {
        Key::Char(c) => c as int,
        Key::Up => 0x110000,
        Key::Down => 0x110001,
        Key::Left => 0x110002,
        Key::Right => 0x110003,
        Key::Backspace => 0x110004,
        Key::Enter => 0x110005,
    }
}

/// One for a modifier that is held down, nothing for one that is not.
pub open spec fn held(down: bool) -> int {
    if down {
        1
    } else {
        0
    }
}

/// The number that stands for a key combination: the number of its key, and
/// above it one bit for each modifier.
pub open spec fn combo_code(combo: KeyCombo) -> int {
    key_code(combo.key) + 0x200000 * held(combo.cmd) + 0x400000 * held(combo.ctrl) + 0x800000
        * held(combo.option) + 0x1000000 * held(combo.shift)
}

/// No two key combinations have the same number.
pub proof fn lemma_code_tells_combos_apart(a: KeyCombo, b: KeyCombo)
    requires
        combo_code(a) == combo_code(b),
    ensures
        a == b,
{
    assert(0 <= key_code(a.key) < 0x200000);
    assert(0 <= key_code(b.key) < 0x200000);
    assert(a.shift == b.shift);
    assert(a.option == b.option);
    assert(a.ctrl == b.ctrl);
    assert(a.cmd == b.cmd);
    assert(key_code(a.key) == key_code(b.key));
}

fn code_of_key(key: &Key) -> (r: u64)
    ensures
        r == key_code(*key),
{
    match key {
        Key::Char(c) => *c as u64,
        Key::Up => 0x110000,
        Key::Down => 0x110001,
        Key::Left => 0x110002,
        Key::Right => 0x110003,
        Key::Backspace => 0x110004,
        Key::Enter => 0x110005,
    }
}

/// The number that stands for a key combination.
pub fn code_of(combo: &KeyCombo) -> (r: u64)
    ensures
        r == combo_code(*combo),
{
    let mut r: u64 = code_of_key(&combo.key);
    if combo.cmd {
        r = r + 0x200000;
    }
    if combo.ctrl {
        r = r + 0x400000;
    }
    if combo.option {
        r = r + 0x800000;
    }
    if combo.shift {
        r = r + 0x1000000;
    }
    r
}

/// The map with the combination that `text` names bound to `action`.
pub open spec fn bound(
    map: Map<u64, TerminalAction>,
    text: Seq<char>,
    action: TerminalAction,
) -> Map<u64, TerminalAction> {
    map.insert(combo_code(combo_of(text)) as u64, action)
}

/// The bindings that the configuration asks for, each by the number of its
/// combination. Where two actions ask for the same combination, the one that
/// is named later has it.
pub open spec fn bindings_of(keys: TerminalKeysConfig) -> Map<u64, TerminalAction> {
    bound(
        bound(
            bound(
                bound(
                    bound(
                        bound(Map::empty(), keys.kill_line@, TerminalAction::KillLine),
                        keys.home@,
                        TerminalAction::Home,
                    ),
                    keys.end@,
                    TerminalAction::End,
                ),
                keys.word_back@,
                TerminalAction::WordBack,
            ),
            keys.word_forward@,
            TerminalAction::WordForward,
        ),
        keys.shift_enter@,
        TerminalAction::ShiftEnter,
    )
}

/// The action that a map of bindings holds for a combination.
pub open spec fn bound_action(map: Map<u64, TerminalAction>, combo: KeyCombo) -> Option<
    TerminalAction,
> {
    if map.contains_key(combo_code(combo) as u64) {
        Some(map[combo_code(combo) as u64])
    } else {
        None
    }
}

/// The bindings of the terminal's own actions, by the number of their key
/// combination.
pub struct Keybindings {
    pub terminal_map: HashMap<u64, TerminalAction>,
}

fn bind(map: &mut HashMap<u64, TerminalAction>, text: &str, action: TerminalAction)
    ensures
        final(map)@ == bound(old(map)@, text@, action),
{
    broadcast use vstd::std_specs::hash::group_hash_axioms;

    let combo = parse_key_combo(text);
    let _ = map.insert(code_of(&combo), action);
}

impl Keybindings {
    /// Reads the bindings from the configuration.
    pub fn from_config(keys: &TerminalKeysConfig) -> (r: Keybindings)
        ensures
            r.terminal_map@ == bindings_of(*keys),
    {
        let mut terminal_map: HashMap<u64, TerminalAction> = HashMap::new();
        assert(terminal_map@ =~= Map::<u64, TerminalAction>::empty());
        bind(&mut terminal_map, keys.kill_line.as_str(), TerminalAction::KillLine);
        bind(&mut terminal_map, keys.home.as_str(), TerminalAction::Home);
        bind(&mut terminal_map, keys.end.as_str(), TerminalAction::End);
        bind(&mut terminal_map, keys.word_back.as_str(), TerminalAction::WordBack);
        bind(&mut terminal_map, keys.word_forward.as_str(), TerminalAction::WordForward);
        bind(&mut terminal_map, keys.shift_enter.as_str(), TerminalAction::ShiftEnter);
        Keybindings { terminal_map }
    }

    /// The action that the combination is bound to.
    pub fn terminal_action(&self, combo: &KeyCombo) -> (r: Option<TerminalAction>)
        ensures
            r == bound_action(self.terminal_map@, *combo),
    {
        broadcast use vstd::std_specs::hash::group_hash_axioms;

        let code = code_of(combo);
        match self.terminal_map.get(&code) {
            Some(action) => Some(*action),
            None => None,
        }
    }
}

} // verus!

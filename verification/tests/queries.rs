use kova::state::{GridPos, Selection, TerminalState};
use kova::text::{chars_of_str, contains_chars};

fn put_str(term: &mut TerminalState, text: &str) {
    for c in text.chars() {
        term.put_char(c);
    }
}

fn write_lines(term: &mut TerminalState, lines: &[&str]) {
    for (i, line) in lines.iter().enumerate() {
        if i > 0 {
            term.newline();
            term.carriage_return();
        }
        put_str(term, line);
    }
}

fn pos(line: usize, col: u16) -> GridPos {
    GridPos { line, col }
}

#[test]
fn url_at_finds_the_address_without_trailing_period() {
    let mut term = TerminalState::new(80, 24, 100);
    put_str(&mut term, "see https://example.com/path.");
    for col in 4..28u16 {
        assert_eq!(term.url_at(0, col), Some((4, 28, "https://example.com/path".to_string())));
    }
    assert_eq!(term.url_at(0, 3), None);
    assert_eq!(term.url_at(0, 28), None);
    assert_eq!(term.url_at(0, 33), None);
    assert_eq!(term.url_at(1, 5), None);
    assert_eq!(term.url_at(24, 5), None);
    assert_eq!(term.url_at(0, 80), None);
}

#[test]
fn url_at_handles_several_addresses_and_delimiters() {
    let mut term = TerminalState::new(80, 4, 100);
    put_str(&mut term, "<http://a.b/c> (https://d.e/f), \"https://g.h\" http://");
    assert_eq!(term.url_at(0, 1), Some((1, 13, "http://a.b/c".to_string())));
    assert_eq!(term.url_at(0, 0), None);
    assert_eq!(term.url_at(0, 13), None);
    assert_eq!(term.url_at(0, 20), Some((16, 29, "https://d.e/f".to_string())));
    assert_eq!(term.url_at(0, 29), None);
    assert_eq!(term.url_at(0, 35), Some((33, 44, "https://g.h".to_string())));
    assert_eq!(term.url_at(0, 47), Some((46, 53, "http://".to_string())));
    term.newline();
    term.carriage_return();
    put_str(&mut term, "httpx://no ftp://no https:/no");
    assert_eq!(term.url_at(1, 2), None);
    assert_eq!(term.url_at(1, 13), None);
    assert_eq!(term.url_at(1, 22), None);
}

#[test]
fn url_at_follows_the_scrolled_view() {
    let mut term = TerminalState::new(40, 2, 100);
    write_lines(&mut term, &["http://old.example", "two", "three"]);
    assert_eq!(term.url_at(0, 3), None);
    term.scroll(1);
    assert_eq!(term.url_at(0, 3), Some((0, 18, "http://old.example".to_string())));
}

#[test]
fn selected_text_is_the_same_in_either_order() {
    let mut term = TerminalState::new(10, 4, 100);
    write_lines(&mut term, &["first", "second", "third"]);
    term.set_selection(pos(0, 2), pos(2, 1));
    let forward = term.selected_text();
    assert_eq!(forward, "rst\nsecond\nth");
    term.set_selection(pos(2, 1), pos(0, 2));
    assert_eq!(term.selected_text(), forward);
    term.set_selection(pos(1, 4), pos(1, 1));
    assert_eq!(term.selected_text(), "econ");
    term.set_selection(pos(1, 1), pos(1, 4));
    assert_eq!(term.selected_text(), "econ");
    for line in 0..4 {
        for col in 0..10 {
            term.selection = Some(Selection { anchor: pos(0, 7), end: pos(2, 3) });
            let a = term.is_selected(line, col);
            term.selection = Some(Selection { anchor: pos(2, 3), end: pos(0, 7) });
            assert_eq!(a, term.is_selected(line, col));
        }
    }
}

#[test]
fn selected_text_joins_soft_wrapped_rows() {
    let mut term = TerminalState::new(5, 4, 100);
    put_str(&mut term, "abcdefgh");
    term.newline();
    term.carriage_return();
    put_str(&mut term, "xy");
    term.set_selection(pos(0, 0), pos(2, 4));
    assert_eq!(term.selected_text(), "abcdefgh\nxy");
    term.set_selection(pos(0, 3), pos(1, 0));
    assert_eq!(term.selected_text(), "def");
}

#[test]
fn selected_text_reaches_into_the_scrollback() {
    let mut term = TerminalState::new(10, 2, 100);
    write_lines(&mut term, &["one", "two", "three", "four"]);
    assert_eq!(term.scrollback_len(), 2);
    term.set_selection(pos(1, 0), pos(2, 9));
    assert_eq!(term.selected_text(), "two\nthree");
    term.set_selection(pos(3, 1), pos(900, 0));
    assert_eq!(term.selected_text(), "our\n");
    term.set_selection(pos(50, 0), pos(60, 0));
    assert_eq!(term.selected_text(), "");
    term.set_selection(pos(0, 20), pos(0, 30));
    assert_eq!(term.selected_text(), "");
    term.clear_selection();
    assert_eq!(term.selected_text(), "");
}

#[test]
fn is_selected_covers_the_span() {
    let mut term = TerminalState::new(10, 4, 100);
    assert!(!term.is_selected(0, 0));
    term.set_selection(pos(1, 3), pos(3, 2));
    assert!(!term.is_selected(0, 9));
    assert!(!term.is_selected(1, 2));
    assert!(term.is_selected(1, 3));
    assert!(term.is_selected(1, 9));
    assert!(term.is_selected(2, 0));
    assert!(term.is_selected(3, 2));
    assert!(!term.is_selected(3, 3));
    assert!(!term.is_selected(4, 0));
    term.set_selection(pos(2, 5), pos(2, 3));
    assert!(term.is_selected(2, 3));
    assert!(term.is_selected(2, 5));
    assert!(!term.is_selected(2, 6));
    assert!(!term.is_selected(2, 2));
}

#[test]
fn clear_selection_asks_for_a_redraw_only_if_there_was_one() {
    let mut term = TerminalState::new(10, 4, 100);
    term.dirty = false;
    term.clear_selection();
    assert!(!term.dirty);
    term.set_selection(pos(0, 0), pos(0, 1));
    assert!(term.dirty);
    term.dirty = false;
    term.clear_selection();
    assert!(term.dirty);
    assert_eq!(term.selection, None);
    assert_eq!(term.ordered_selection(), None);
    term.set_selection(pos(3, 0), pos(0, 1));
    assert_eq!(term.ordered_selection(), Some((pos(0, 1), pos(3, 0))));
}

#[test]
fn search_lines_ignores_letter_case() {
    let mut term = TerminalState::new(20, 2, 100);
    write_lines(&mut term, &["Hello World", "nothing here", "say HELLO  ", "hell"]);
    let found = term.search_lines("hello");
    assert_eq!(found.len(), 2);
    assert_eq!((found[0].abs_line, found[0].text.as_str()), (0, "Hello World"));
    assert_eq!((found[1].abs_line, found[1].text.as_str()), (2, "say HELLO"));
    let found = term.search_lines("HELL");
    let lines: Vec<usize> = found.iter().map(|m| m.abs_line).collect();
    assert_eq!(lines, vec![0, 2, 3]);
    assert!(term.search_lines("").is_empty());
    assert!(term.search_lines("absent").is_empty());
    let found = term.search_lines("\u{c9}T\u{c9}");
    assert!(found.is_empty());
    put_str(&mut term, " \u{e9}t\u{e9}");
    let found = term.search_lines("\u{c9}T\u{c9}");
    assert_eq!(found.len(), 1);
    assert_eq!(found[0].abs_line, 3);
}

#[test]
fn contains_chars_finds_runs() {
    let hay = chars_of_str("abcabd");
    assert!(contains_chars(&hay, &chars_of_str("abd")));
    assert!(contains_chars(&hay, &chars_of_str("")));
    assert!(contains_chars(&hay, &chars_of_str("abcabd")));
    assert!(!contains_chars(&hay, &chars_of_str("abcabda")));
    assert!(!contains_chars(&hay, &chars_of_str("acb")));
    assert!(contains_chars(&chars_of_str(""), &chars_of_str("")));
    assert!(!contains_chars(&chars_of_str(""), &chars_of_str("a")));
}

#[test]
fn row_at_counts_from_the_oldest_row() {
    let mut term = TerminalState::new(10, 2, 100);
    write_lines(&mut term, &["one", "two", "three"]);
    let text = |term: &TerminalState, line: usize| {
        term.row_at(line).map(|r| r.cells.iter().map(|c| c.c).collect::<String>())
    };
    assert_eq!(text(&term, 0).as_deref(), Some("one       "));
    assert_eq!(text(&term, 1).as_deref(), Some("two       "));
    assert_eq!(text(&term, 2).as_deref(), Some("three     "));
    assert_eq!(text(&term, 3), None);
}

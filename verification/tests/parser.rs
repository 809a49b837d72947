use kova::color::{AnsiColor, Color};
use kova::parser::{branch_from_head, mode_reply, path_of_uri, position_reply, Effect};
use kova::state::{CursorShape, TerminalState};

fn row_text(term: &TerminalState, row: usize) -> String {
    let text: String = term.grid[row].cells.iter().map(|c| c.c).collect();
    text.trim_end().to_string()
}

fn feed(term: &mut TerminalState, text: &str) {
    for c in text.chars() {
        term.print(c);
    }
}

fn reply_of(effect: Effect) -> Option<Vec<u8>> {
    match effect {
        Effect::Reply(bytes) => Some(bytes),
        _ => None,
    }
}

#[test]
fn control_bytes_move_the_cursor() {
    let mut term = TerminalState::new(20, 4, 10);
    feed(&mut term, "abc");
    term.execute(0x08);
    assert_eq!(term.cursor_x, 2);
    term.execute(0x09);
    assert_eq!(term.cursor_x, 8);
    term.execute(0x0a);
    assert_eq!((term.cursor_x, term.cursor_y), (8, 1));
    term.execute(0x0b);
    term.execute(0x0c);
    assert_eq!(term.cursor_y, 3);
    term.execute(0x0d);
    assert_eq!(term.cursor_x, 0);
    term.execute(0x00);
    term.execute(0x1f);
    assert_eq!((term.cursor_x, term.cursor_y), (0, 3));
}

#[test]
fn bell_raises_the_bell_flag_only() {
    let mut term = TerminalState::new(20, 4, 10);
    feed(&mut term, "abc");
    assert!(!term.bell);
    term.execute(0x07);
    assert!(term.bell);
    assert_eq!((term.cursor_x, term.cursor_y), (3, 0));
    assert_eq!(row_text(&term, 0), "abc");
}

#[test]
fn csi_cursor_motion() {
    let mut term = TerminalState::new(20, 10, 10);
    let _ = term.csi_dispatch(&[5, 7], &[], 'H', 0);
    assert_eq!((term.cursor_y, term.cursor_x), (4, 6));
    let _ = term.csi_dispatch(&[], &[], 'A', 0);
    assert_eq!(term.cursor_y, 3);
    let _ = term.csi_dispatch(&[0], &[], 'B', 0);
    assert_eq!(term.cursor_y, 4);
    let _ = term.csi_dispatch(&[3], &[], 'C', 0);
    assert_eq!(term.cursor_x, 9);
    let _ = term.csi_dispatch(&[2], &[], 'D', 0);
    assert_eq!(term.cursor_x, 7);
    let _ = term.csi_dispatch(&[2], &[], 'E', 0);
    assert_eq!((term.cursor_y, term.cursor_x), (6, 0));
    let _ = term.csi_dispatch(&[4], &[], 'C', 0);
    let _ = term.csi_dispatch(&[1], &[], 'F', 0);
    assert_eq!((term.cursor_y, term.cursor_x), (5, 0));
    let _ = term.csi_dispatch(&[12], &[], 'G', 0);
    assert_eq!((term.cursor_y, term.cursor_x), (5, 11));
    let _ = term.csi_dispatch(&[2], &[], 'd', 0);
    assert_eq!((term.cursor_y, term.cursor_x), (1, 11));
    let _ = term.csi_dispatch(&[], &[], 'f', 0);
    assert_eq!((term.cursor_y, term.cursor_x), (0, 0));
    let _ = term.csi_dispatch(&[99, 99], &[], 'H', 0);
    assert_eq!((term.cursor_y, term.cursor_x), (9, 19));
}

#[test]
fn csi_erase_and_edit() {
    let mut term = TerminalState::new(8, 3, 10);
    feed(&mut term, "abcdefgh");
    let _ = term.csi_dispatch(&[1, 3], &[], 'H', 0);
    let _ = term.csi_dispatch(&[2], &[], 'P', 0);
    assert_eq!(row_text(&term, 0), "abefgh");
    let _ = term.csi_dispatch(&[], &[], '@', 0);
    assert_eq!(row_text(&term, 0), "ab efgh");
    let _ = term.csi_dispatch(&[3], &[], 'X', 0);
    assert_eq!(row_text(&term, 0), "ab   gh");
    let _ = term.csi_dispatch(&[], &[], 'K', 0);
    assert_eq!(row_text(&term, 0), "ab");
    let _ = term.csi_dispatch(&[1], &[], 'K', 0);
    assert_eq!(row_text(&term, 0), "");
    feed(&mut term, "xy");
    let _ = term.csi_dispatch(&[], &[], 'L', 0);
    assert_eq!(row_text(&term, 0), "");
    assert_eq!(row_text(&term, 1), "  xy");
    let _ = term.csi_dispatch(&[], &[], 'M', 0);
    assert_eq!(row_text(&term, 0), "  xy");
    let _ = term.csi_dispatch(&[], &[], 'T', 0);
    assert_eq!(row_text(&term, 1), "  xy");
    let _ = term.csi_dispatch(&[], &[], 'S', 0);
    assert_eq!(row_text(&term, 0), "  xy");
    assert_eq!(term.scrollback_len(), 1);
    let _ = term.csi_dispatch(&[], &[], 'J', 0);
    assert_eq!(row_text(&term, 0), "  xy");
}

#[test]
fn csi_sgr_sets_the_pen() {
    let mut term = TerminalState::new(8, 3, 10);
    let _ = term.csi_dispatch(&[1, 2, 7, 35], &[], 'm', 0);
    assert!(term.pen.bold && term.pen.dim && term.pen.reversed);
    assert_eq!(term.pen.fg, Color::Palette(AnsiColor::Magenta));
    assert_eq!(term.pen.bg, Color::Foreground);
    let _ = term.csi_dispatch(&[], &[], 'm', 0);
    assert!(!term.pen.bold && !term.pen.dim && !term.pen.reversed);
    assert_eq!(term.pen.fg, Color::Foreground);
    assert_eq!(term.pen.bg, Color::Background);
}

#[test]
fn sgr_colors() {
    let mut term = TerminalState::new(8, 3, 10);
    term.set_sgr(&[30]);
    assert_eq!(term.pen.fg, Color::Palette(AnsiColor::Black));
    term.set_sgr(&[37, 40]);
    assert_eq!(term.pen.fg, Color::Palette(AnsiColor::White));
    assert_eq!(term.pen.bg, Color::Palette(AnsiColor::Black));
    term.set_sgr(&[90, 107]);
    assert_eq!(term.pen.fg, Color::Palette(AnsiColor::BrightBlack));
    assert_eq!(term.pen.bg, Color::Palette(AnsiColor::BrightWhite));
    term.set_sgr(&[97, 100]);
    assert_eq!(term.pen.fg, Color::Palette(AnsiColor::BrightWhite));
    assert_eq!(term.pen.bg, Color::Palette(AnsiColor::BrightBlack));
    term.set_sgr(&[39, 49]);
    assert_eq!(term.pen.fg, Color::Foreground);
    assert_eq!(term.pen.bg, Color::Background);
    term.set_sgr(&[38, 5, 196]);
    assert_eq!(term.pen.fg, Color::Rgb(255, 0, 0));
    term.set_sgr(&[48, 5, 3]);
    assert_eq!(term.pen.bg, Color::Palette(AnsiColor::Yellow));
    term.set_sgr(&[38, 2, 10, 20, 300]);
    assert_eq!(term.pen.fg, Color::Rgb(10, 20, 300));
    term.set_sgr(&[48, 2, 1, 2, 3, 1]);
    assert_eq!(term.pen.bg, Color::Rgb(1, 2, 3));
    assert!(term.pen.bold);
    term.set_sgr(&[38, 5, 256 + 21]);
    assert_eq!(term.pen.fg, Color::Rgb(0, 0, 255));
}

#[test]
fn sgr_cut_short_changes_nothing() {
    let mut term = TerminalState::new(8, 3, 10);
    term.set_sgr(&[31, 44]);
    let before = term.pen;
    term.set_sgr(&[38]);
    term.set_sgr(&[38, 5]);
    term.set_sgr(&[38, 2]);
    term.set_sgr(&[38, 2, 1]);
    term.set_sgr(&[38, 2, 10, 20]);
    term.set_sgr(&[38, 2, 1, 2]);
    term.set_sgr(&[48, 5]);
    term.set_sgr(&[48, 2]);
    term.set_sgr(&[48, 2, 1]);
    term.set_sgr(&[48, 2, 7, 1]);
    assert_eq!(term.pen, before);
    assert!(!term.pen.bold && !term.pen.dim && !term.pen.reversed);
    term.put_char('a');
    let cell = term.grid[0].cells[0];
    assert_eq!(cell.fg, Color::Palette(AnsiColor::Red));
    assert_eq!(cell.bg, Color::Palette(AnsiColor::Blue));
    assert!(!cell.bold && !cell.dim);
}

#[test]
fn sgr_cut_short_ends_the_list_and_keeps_what_came_before() {
    let mut term = TerminalState::new(8, 3, 10);
    term.set_sgr(&[31, 1, 38, 2, 10, 20]);
    assert_eq!(term.pen.fg, Color::Palette(AnsiColor::Red));
    assert!(term.pen.bold);
    assert!(!term.pen.dim);
    term.set_sgr(&[38, 5, 1, 22, 38, 2, 1]);
    assert_eq!(term.pen.fg, Color::Palette(AnsiColor::Red));
    assert!(!term.pen.bold);
    assert!(!term.pen.dim);
    term.set_sgr(&[]);
    assert!(!term.pen.bold);
}

#[test]
fn sgr_reverse_swaps_once() {
    let mut term = TerminalState::new(8, 3, 10);
    term.set_sgr(&[31, 42, 7]);
    assert_eq!(term.pen.fg, Color::Palette(AnsiColor::Green));
    assert_eq!(term.pen.bg, Color::Palette(AnsiColor::Red));
    term.set_sgr(&[7]);
    assert_eq!(term.pen.fg, Color::Palette(AnsiColor::Green));
    term.set_sgr(&[27]);
    assert_eq!(term.pen.fg, Color::Palette(AnsiColor::Red));
    assert_eq!(term.pen.bg, Color::Palette(AnsiColor::Green));
    term.set_sgr(&[27]);
    assert_eq!(term.pen.fg, Color::Palette(AnsiColor::Red));
    assert!(!term.pen.reversed);
    term.set_sgr(&[1, 2, 22]);
    assert!(!term.pen.bold && !term.pen.dim);
}

#[test]
fn csi_scroll_region_and_saved_cursor() {
    let mut term = TerminalState::new(10, 6, 10);
    let _ = term.csi_dispatch(&[2, 4], &[], 'r', 0);
    assert_eq!((term.scroll_top, term.scroll_bottom), (1, 3));
    let _ = term.csi_dispatch(&[3], &[], 'r', 0);
    assert_eq!((term.scroll_top, term.scroll_bottom), (2, 5));
    let _ = term.csi_dispatch(&[], &[], 'r', 0);
    assert_eq!((term.scroll_top, term.scroll_bottom), (0, 5));
    let _ = term.csi_dispatch(&[3, 4], &[], 'H', 0);
    let _ = term.csi_dispatch(&[], &[], 's', 0);
    let _ = term.csi_dispatch(&[], &[], 'H', 0);
    let _ = term.csi_dispatch(&[], &[], 'u', 0);
    assert_eq!((term.cursor_y, term.cursor_x), (2, 3));
}

#[test]
fn dec_private_modes_toggle() {
    let mut term = TerminalState::new(10, 6, 10);
    let _ = term.csi_dispatch(&[1, 1004, 2004, 12, 9999], &[b'?'], 'h', 0);
    assert!(term.modes.cursor_keys_application);
    assert!(term.modes.focus_reporting);
    assert!(term.modes.bracketed_paste);
    let _ = term.csi_dispatch(&[25, 7], &[b'?'], 'l', 0);
    assert!(!term.modes.cursor_visible);
    assert!(!term.modes.auto_wrap);
    let _ = term.csi_dispatch(&[1, 1004, 2004], &[b'?'], 'l', 0);
    assert!(!term.modes.cursor_keys_application);
    assert!(!term.modes.focus_reporting);
    assert!(!term.modes.bracketed_paste);
    let _ = term.csi_dispatch(&[25, 7], &[b'?'], 'h', 0);
    assert!(term.modes.cursor_visible);
    assert!(term.modes.auto_wrap);
    let _ = term.csi_dispatch(&[1049], &[b'?'], 'h', 0);
    assert!(term.in_alt_screen());
    let _ = term.csi_dispatch(&[1049], &[b'?'], 'l', 0);
    assert!(!term.in_alt_screen());
    let _ = term.csi_dispatch(&[4], &[b'?'], 'h', 0);
    assert!(!term.modes.insert_mode);
}

#[test]
fn synchronized_output_holds_drawing_for_a_tenth_of_a_second() {
    let mut term = TerminalState::new(10, 6, 10);
    assert!(!term.sync_deferred(5));
    let _ = term.csi_dispatch(&[2026], &[b'?'], 'h', 1000);
    assert!(term.modes.synchronized_output);
    assert_eq!(term.sync_output_since, Some(1000));
    assert!(term.sync_deferred(1000));
    assert!(term.sync_deferred(1099));
    assert!(!term.sync_deferred(1100));
    assert!(term.sync_deferred(900));
    term.dirty = false;
    let _ = term.csi_dispatch(&[2026], &[b'?'], 'l', 1050);
    assert!(!term.modes.synchronized_output);
    assert_eq!(term.sync_output_since, None);
    assert!(term.dirty);
    assert!(!term.sync_deferred(1051));
}

#[test]
fn cursor_style_sets_the_shape() {
    let mut term = TerminalState::new(10, 6, 10);
    let expected = [
        (0, CursorShape::Block),
        (1, CursorShape::Block),
        (2, CursorShape::Block),
        (3, CursorShape::Underline),
        (4, CursorShape::Underline),
        (5, CursorShape::Bar),
        (6, CursorShape::Bar),
        (7, CursorShape::Block),
    ];
    for (ps, shape) in expected {
        let _ = term.csi_dispatch(&[5], &[b' '], 'q', 0);
        let _ = term.csi_dispatch(&[ps], &[b' '], 'q', 0);
        assert_eq!(term.cursor_shape, shape);
    }
    let _ = term.csi_dispatch(&[5], &[b' '], 'q', 0);
    let _ = term.csi_dispatch(&[], &[b' '], 'q', 0);
    assert_eq!(term.cursor_shape, CursorShape::Block);
}

#[test]
fn device_status_replies() {
    let mut term = TerminalState::new(80, 24, 10);
    let _ = term.csi_dispatch(&[12, 34], &[], 'H', 0);
    let reply = reply_of(term.csi_dispatch(&[6], &[], 'n', 0));
    assert_eq!(reply, Some(b"\x1b[12;34R".to_vec()));
    assert_eq!(reply_of(term.csi_dispatch(&[5], &[], 'n', 0)), None);
    assert_eq!(reply_of(term.csi_dispatch(&[], &[], 'n', 0)), None);
    assert_eq!(reply_of(term.csi_dispatch(&[], &[], 'c', 0)), Some(b"\x1b[?62;22c".to_vec()));
    assert_eq!(reply_of(term.csi_dispatch(&[], &[b'?'], 'c', 0)), Some(b"\x1b[?62;22c".to_vec()));
    assert_eq!(reply_of(term.csi_dispatch(&[], &[b'>'], 'u', 0)), Some(b"\x1b[?0u".to_vec()));
    assert_eq!(reply_of(term.csi_dispatch(&[], &[], 'u', 0)), None);
    assert_eq!((term.cursor_y, term.cursor_x), (11, 33));
}

#[test]
fn private_mode_reports() {
    let mut term = TerminalState::new(80, 24, 10);
    let ask = |term: &mut TerminalState, mode: u16| {
        reply_of(term.csi_dispatch(&[mode], &[b'?', b'$'], 'p', 0))
    };
    assert_eq!(ask(&mut term, 7), Some(b"\x1b[?7;1$y".to_vec()));
    assert_eq!(ask(&mut term, 25), Some(b"\x1b[?25;1$y".to_vec()));
    assert_eq!(ask(&mut term, 1), Some(b"\x1b[?1;2$y".to_vec()));
    assert_eq!(ask(&mut term, 1004), Some(b"\x1b[?1004;2$y".to_vec()));
    assert_eq!(ask(&mut term, 1049), Some(b"\x1b[?1049;2$y".to_vec()));
    assert_eq!(ask(&mut term, 2004), Some(b"\x1b[?2004;2$y".to_vec()));
    assert_eq!(ask(&mut term, 2026), Some(b"\x1b[?2026;2$y".to_vec()));
    assert_eq!(ask(&mut term, 42), Some(b"\x1b[?42;0$y".to_vec()));
    let _ = term.csi_dispatch(&[1049, 2026], &[b'?'], 'h', 0);
    assert_eq!(ask(&mut term, 1049), Some(b"\x1b[?1049;1$y".to_vec()));
    assert_eq!(ask(&mut term, 2026), Some(b"\x1b[?2026;1$y".to_vec()));
    assert_eq!(reply_of(term.csi_dispatch(&[], &[b'?', b'$'], 'p', 0)), None);
    assert_eq!(term.mode_value(7), 1);
    assert_eq!(term.mode_value(3), 0);
}

#[test]
fn reply_formats() {
    assert_eq!(position_reply(1, 1), b"\x1b[1;1R".to_vec());
    assert_eq!(position_reply(65535, 100), b"\x1b[65535;100R".to_vec());
    assert_eq!(position_reply(0, 10), b"\x1b[0;10R".to_vec());
    assert_eq!(mode_reply(2026, 2), b"\x1b[?2026;2$y".to_vec());
    assert_eq!(mode_reply(0, 0), b"\x1b[?0;0$y".to_vec());
}

#[test]
fn unknown_sequences_change_nothing() {
    let mut term = TerminalState::new(10, 4, 10);
    feed(&mut term, "abc");
    term.dirty = false;
    let epoch = term.cursor_move_epoch;
    assert_eq!(reply_of(term.csi_dispatch(&[1, 2], &[], 'z', 0)), None);
    assert_eq!(reply_of(term.csi_dispatch(&[1], &[b'!'], 'p', 0)), None);
    assert_eq!(reply_of(term.csi_dispatch(&[2], &[b'?'], 'J', 0)), None);
    assert_eq!(reply_of(term.csi_dispatch(&[2], &[b' ', b' '], 'q', 0)), None);
    term.esc_dispatch(&[b'('], b'M');
    term.esc_dispatch(&[], b'Z');
    let effect = term.osc_dispatch(&[b"9999", b"whatever"]);
    assert!(matches!(effect, Effect::Nothing));
    let effect = term.osc_dispatch(&[b"0"]);
    assert!(matches!(effect, Effect::Nothing));
    assert_eq!(row_text(&term, 0), "abc");
    assert_eq!((term.cursor_x, term.cursor_y), (3, 0));
    assert!(!term.dirty);
    assert_eq!(term.cursor_move_epoch, epoch);
    assert_eq!(term.title, None);
}

#[test]
fn esc_dispatch_sequences() {
    let mut term = TerminalState::new(10, 4, 10);
    feed(&mut term, "abc");
    term.esc_dispatch(&[], b'7');
    term.set_cursor_pos(2, 5);
    term.esc_dispatch(&[], b'M');
    assert_eq!(term.cursor_y, 1);
    term.esc_dispatch(&[], b'8');
    assert_eq!((term.cursor_x, term.cursor_y), (3, 0));
    term.esc_dispatch(&[], b'M');
    assert_eq!(row_text(&term, 0), "");
    assert_eq!(row_text(&term, 1), "abc");
}

#[test]
fn full_reset_starts_over_at_the_same_size() {
    let mut term = TerminalState::new(10, 4, 7);
    for i in 0..10 {
        feed(&mut term, &format!("row {}", i));
        term.execute(0x0a);
        term.execute(0x0d);
    }
    term.set_sgr(&[1, 31]);
    let _ = term.csi_dispatch(&[2, 3], &[], 'r', 0);
    let _ = term.csi_dispatch(&[1049, 2004], &[b'?'], 'h', 0);
    term.set_title("title".to_string());
    term.esc_dispatch(&[], b'c');
    assert_eq!((term.cols, term.rows, term.scrollback_limit), (10, 4, 7));
    assert_eq!(term.scrollback_len(), 0);
    assert!(!term.in_alt_screen());
    assert!(!term.modes.bracketed_paste);
    assert!(!term.pen.bold);
    assert_eq!(term.pen.fg, Color::Foreground);
    assert_eq!((term.scroll_top, term.scroll_bottom), (0, 3));
    assert_eq!((term.cursor_x, term.cursor_y), (0, 0));
    assert_eq!(term.title, None);
    assert_eq!(row_text(&term, 0), "");
}

#[test]
fn osc_sets_the_title() {
    let mut term = TerminalState::new(10, 4, 10);
    term.dirty = false;
    let effect = term.osc_dispatch(&[b"0", b"first"]);
    assert!(matches!(effect, Effect::Nothing));
    assert_eq!(term.title.as_deref(), Some("first"));
    assert!(term.dirty);
    let _ = term.osc_dispatch(&[b"2", b"second", b"extra"]);
    assert_eq!(term.title.as_deref(), Some("second"));
    let _ = term.osc_dispatch(&[b"2", b"caf\xc3\xa9 \xff!"]);
    assert_eq!(term.title.as_deref(), Some("caf\u{e9} \u{fffd}!"));
    let _ = term.osc_dispatch(&[b"02", b"other"]);
    assert_eq!(term.title.as_deref(), Some("caf\u{e9} \u{fffd}!"));
}

#[test]
fn osc_seven_reports_directory_and_branch_is_resolved() {
    let mut term = TerminalState::new(10, 4, 10);
    let effect = term.osc_dispatch(&[b"7", b"file:///home/user/project"]);
    assert_eq!(term.cwd, None);
    let path = match effect {
        Effect::ChangeDirectory(path) => path,
        _ => panic!("no directory reported"),
    };
    assert_eq!(path, "/home/user/project");
    let branch = branch_from_head("ref: refs/heads/main\n");
    term.dirty = false;
    term.set_working_directory(path, Some(branch));
    assert_eq!(term.cwd.as_deref(), Some("/home/user/project"));
    assert_eq!(term.git_branch.as_deref(), Some("main"));
    assert!(term.dirty);
    term.set_working_directory("/tmp".to_string(), None);
    assert_eq!(term.cwd.as_deref(), Some("/tmp"));
    assert_eq!(term.git_branch, None);
}

#[test]
fn osc_seven_skips_the_host_name() {
    assert_eq!(path_of_uri("file://host.local/Users/me").as_deref(), Some("/Users/me"));
    assert_eq!(path_of_uri("file:///").as_deref(), Some("/"));
    assert_eq!(path_of_uri("file://hostonly"), None);
    assert_eq!(path_of_uri("file://"), None);
    assert_eq!(path_of_uri("file:/"), None);
    assert_eq!(path_of_uri("http://host/path"), None);
    assert_eq!(path_of_uri(""), None);
    let mut term = TerminalState::new(10, 4, 10);
    assert!(matches!(term.osc_dispatch(&[b"7", b"/plain/path"]), Effect::Nothing));
    assert!(matches!(term.osc_dispatch(&[b"7", b"file://h"]), Effect::Nothing));
}

#[test]
fn branch_from_head_reads_branch_or_short_hash() {
    assert_eq!(branch_from_head("ref: refs/heads/main"), "main");
    assert_eq!(branch_from_head("  ref: refs/heads/feature/x \n"), "feature/x");
    assert_eq!(branch_from_head("ref: refs/heads/"), "");
    assert_eq!(branch_from_head("0123456789abcdef0123456789abcdef01234567\n"), "0123456");
    assert_eq!(branch_from_head("abc\n"), "abc");
    assert_eq!(branch_from_head(""), "");
    assert_eq!(branch_from_head("ref: refs/tags/v1"), "ref: re");
}

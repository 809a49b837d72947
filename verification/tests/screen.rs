use kova::cell::Cell;
use kova::color::{AnsiColor, Color};
use kova::state::TerminalState;

fn put_str(term: &mut TerminalState, text: &str) {
    for c in text.chars() {
        term.put_char(c);
    }
}

fn row_string(cells: &[Cell]) -> String {
    cells.iter().map(|c| c.c).collect()
}

fn visible_text(term: &TerminalState) -> Vec<String> {
    term.visible_lines().iter().map(|r| row_string(r).trim_end().to_string()).collect()
}

fn write_lines(term: &mut TerminalState, n: usize) {
    for i in 0..n {
        if i > 0 {
            term.newline();
            term.carriage_return();
        }
        put_str(term, &format!("line {}", i));
    }
}

fn grid_is_sound(term: &TerminalState) -> bool {
    term.grid.len() == term.rows as usize
        && term.grid.iter().all(|r| r.cells.len() == term.cols as usize)
        && term.scrollback.iter().all(|r| r.cells.len() == term.cols as usize)
        && term.scrollback.len() <= term.scrollback_limit
        && term.cursor_x < term.cols
        && term.cursor_y < term.rows
        && term.scroll_top <= term.scroll_bottom
        && term.scroll_bottom < term.rows
}

#[test]
fn new_screen_is_blank_with_defaults() {
    let term = TerminalState::new(80, 24, 100);
    assert_eq!(term.cols, 80);
    assert_eq!(term.rows, 24);
    assert_eq!(term.grid.len(), 24);
    assert!(term.grid.iter().all(|r| r.cells.len() == 80 && !r.wrapped));
    assert!(term.grid.iter().all(|r| r.cells.iter().all(|c| *c == Cell::blank())));
    assert_eq!(term.scrollback_len(), 0);
    assert_eq!((term.cursor_x, term.cursor_y), (0, 0));
    assert_eq!((term.scroll_top, term.scroll_bottom), (0, 23));
    assert!(term.modes.auto_wrap);
    assert!(!term.modes.insert_mode);
    assert!(!term.modes.origin_mode);
    assert!(!term.modes.cursor_keys_application);
    assert!(!term.modes.bracketed_paste);
    assert!(!term.modes.focus_reporting);
    assert!(!term.modes.synchronized_output);
    assert!(term.modes.cursor_visible);
    assert!(term.dirty);
    assert!(!term.in_alt_screen());
    assert_eq!(Cell::default(), Cell::blank());
}

#[test]
fn thirty_lines_leave_six_in_scrollback() {
    let mut term = TerminalState::new(80, 24, 100);
    write_lines(&mut term, 30);
    assert_eq!(term.scrollback_len(), 6);
    let shown = visible_text(&term);
    assert_eq!(shown.len(), 24);
    for (i, text) in shown.iter().enumerate() {
        assert_eq!(text, &format!("line {}", i + 6));
    }
    assert!(grid_is_sound(&term));
}

#[test]
fn erase_display_blanks_every_cell_and_keeps_cursor() {
    let mut term = TerminalState::new(80, 24, 100);
    for row in 0..24u16 {
        term.set_cursor_pos(row, 0);
        for _ in 0..80 {
            term.put_char('x');
        }
    }
    term.set_cursor_pos(5, 7);
    let _ = term.csi_dispatch(&[2], &[], 'J', 0);
    assert_eq!((term.cursor_x, term.cursor_y), (7, 5));
    let shown = term.visible_lines();
    assert_eq!(shown.len(), 24);
    for row in shown {
        assert_eq!(row.len(), 80);
        assert!(row.iter().all(|c| *c == Cell::blank()));
    }
    assert!(term.grid.iter().all(|r| !r.wrapped));
}

#[test]
fn erase_display_twice_is_erase_display_once() {
    let mut once = TerminalState::new(20, 5, 10);
    put_str(&mut once, "some text that wraps around the row");
    let mut twice = TerminalState::new(20, 5, 10);
    put_str(&mut twice, "some text that wraps around the row");
    once.erase_in_display(2);
    twice.erase_in_display(2);
    twice.erase_in_display(2);
    for (a, b) in once.grid.iter().zip(twice.grid.iter()) {
        assert_eq!(a.cells, b.cells);
        assert_eq!(a.wrapped, b.wrapped);
    }
    assert_eq!((once.cursor_x, once.cursor_y), (twice.cursor_x, twice.cursor_y));
}

#[test]
fn ninety_chars_reflow_from_eighty_to_forty() {
    let mut term = TerminalState::new(80, 24, 100);
    let text = "0123456789".repeat(9);
    put_str(&mut term, &text);
    assert!(term.grid[0].wrapped);
    assert!(!term.grid[1].wrapped);
    assert_eq!(row_string(&term.grid[0].cells), text[..80]);
    assert_eq!(row_string(&term.grid[1].cells).trim_end(), &text[80..]);
    term.resize(40, 24);
    assert_eq!(term.cols, 40);
    assert_eq!(row_string(&term.grid[0].cells), text[..40]);
    assert_eq!(row_string(&term.grid[1].cells), text[40..80]);
    assert_eq!(row_string(&term.grid[2].cells).trim_end(), &text[80..]);
    assert!(term.grid[0].wrapped);
    assert!(term.grid[1].wrapped);
    assert!(!term.grid[2].wrapped);
    assert_eq!((term.cursor_x, term.cursor_y), (10, 2));
    assert!(grid_is_sound(&term));
}

#[test]
fn reflow_there_and_back_restores_rows_and_cursor() {
    let mut term = TerminalState::new(20, 12, 50);
    put_str(&mut term, "the quick brown fox jumps over the lazy dog");
    term.newline();
    term.carriage_return();
    put_str(&mut term, "second");
    let rows: Vec<(String, bool)> =
        term.grid.iter().map(|r| (row_string(&r.cells), r.wrapped)).collect();
    let cursor = (term.cursor_x, term.cursor_y);
    term.resize(7, 12);
    assert!(grid_is_sound(&term));
    assert_eq!(term.scrollback_len(), 0);
    assert_eq!(row_string(&term.grid[0].cells), "the qui");
    assert_eq!(row_string(&term.grid[6].cells), "g      ");
    assert!(term.grid[5].wrapped);
    assert!(!term.grid[6].wrapped);
    assert_eq!((term.cursor_x, term.cursor_y), (6, 7));
    term.resize(20, 12);
    assert!(grid_is_sound(&term));
    let after: Vec<(String, bool)> =
        term.grid.iter().map(|r| (row_string(&r.cells), r.wrapped)).collect();
    assert_eq!(rows, after);
    assert_eq!(cursor, (term.cursor_x, term.cursor_y));
}

#[test]
fn typed_text_survives_a_change_of_width_and_back() {
    for (cols, rows, len, width) in [(7u16, 5u16, 17usize, 4u16), (4, 5, 17, 7), (10, 3, 25, 9)] {
        let mut term = TerminalState::new(cols, rows, 50);
        let text: String = "abcdefghijklmnopqrstuvwxyz".chars().take(len).collect();
        put_str(&mut term, &text);
        assert_eq!(term.cursor_x as usize, len % cols as usize);
        assert_eq!(term.cursor_y as usize, len / cols as usize);
        let before: Vec<(String, bool)> =
            term.grid.iter().map(|r| (row_string(&r.cells), r.wrapped)).collect();
        let cursor = (term.cursor_x, term.cursor_y);
        term.resize(width, rows);
        assert_eq!(term.scrollback_len(), 0);
        term.resize(cols, rows);
        let after: Vec<(String, bool)> =
            term.grid.iter().map(|r| (row_string(&r.cells), r.wrapped)).collect();
        assert_eq!(before, after);
        assert_eq!(cursor, (term.cursor_x, term.cursor_y));
        assert_eq!(term.scrollback_len(), 0);
    }
}

#[test]
fn cursor_is_held_back_where_a_line_fills_its_rows() {
    let mut term = TerminalState::new(80, 6, 50);
    put_str(&mut term, &"x".repeat(40));
    assert_eq!((term.cursor_x, term.cursor_y), (40, 0));
    term.resize(20, 6);
    assert_eq!((term.cursor_x, term.cursor_y), (19, 1));
    term.resize(80, 6);
    assert_eq!((term.cursor_x, term.cursor_y), (39, 0));
    let text: String = term.grid[0].cells.iter().map(|c| c.c).collect();
    assert_eq!(text.trim_end(), "x".repeat(40));
}

#[test]
fn reflow_splits_a_line_that_spills_into_the_scrollback() {
    let mut term = TerminalState::new(20, 3, 50);
    put_str(&mut term, "the quick brown fox jumps over the lazy dog");
    term.resize(7, 3);
    assert_eq!(term.scrollback_len(), 4);
    assert!(term.scrollback[3].wrapped);
    assert_eq!(row_string(&term.grid[2].cells), "g      ");
    assert!(grid_is_sound(&term));
}

#[test]
fn resize_to_same_width_keeps_wrap_points() {
    let mut term = TerminalState::new(10, 4, 50);
    put_str(&mut term, "abcdefghijklmnopqrstuvwxy");
    let before: Vec<(String, bool)> =
        term.grid.iter().map(|r| (row_string(&r.cells), r.wrapped)).collect();
    term.resize(10, 6);
    let after: Vec<(String, bool)> =
        term.grid.iter().map(|r| (row_string(&r.cells), r.wrapped)).collect();
    assert_eq!(&after[..4], &before[..]);
    assert_eq!(after.len(), 6);
    term.resize(10, 6);
    assert_eq!(term.rows, 6);
}

#[test]
fn blank_logical_line_reflows_to_one_blank_row() {
    let mut term = TerminalState::new(10, 4, 50);
    put_str(&mut term, "ab");
    term.newline();
    term.newline();
    term.carriage_return();
    put_str(&mut term, "cd");
    term.resize(5, 4);
    assert_eq!(row_string(&term.grid[0].cells), "ab   ");
    assert_eq!(row_string(&term.grid[1].cells), "     ");
    assert_eq!(row_string(&term.grid[2].cells), "cd   ");
    assert_eq!((term.cursor_x, term.cursor_y), (2, 2));
}

#[test]
fn shrinking_rows_drops_blank_rows_then_scrolls_the_top_away() {
    let mut term = TerminalState::new(10, 6, 50);
    write_lines(&mut term, 4);
    term.resize(10, 3);
    assert_eq!(term.scrollback_len(), 1);
    assert_eq!(visible_text(&term), vec!["line 1", "line 2", "line 3"]);
    assert_eq!(term.cursor_y, 2);
    assert_eq!((term.scroll_top, term.scroll_bottom), (0, 2));
    term.resize(10, 5);
    assert_eq!(visible_text(&term), vec!["line 1", "line 2", "line 3", "", ""]);
    assert!(grid_is_sound(&term));
}

#[test]
fn scrollback_keeps_the_newest_rows_up_to_its_limit() {
    let mut term = TerminalState::new(20, 4, 5);
    write_lines(&mut term, 20);
    assert_eq!(term.scrollback_len(), 5);
    let kept: Vec<String> =
        term.scrollback.iter().map(|r| row_string(&r.cells).trim_end().to_string()).collect();
    assert_eq!(kept, vec!["line 11", "line 12", "line 13", "line 14", "line 15"]);
    assert_eq!(visible_text(&term), vec!["line 16", "line 17", "line 18", "line 19"]);
}

#[test]
fn scrollback_with_limit_zero_stays_empty() {
    let mut term = TerminalState::new(20, 3, 0);
    write_lines(&mut term, 10);
    assert_eq!(term.scrollback_len(), 0);
    assert_eq!(visible_text(&term), vec!["line 7", "line 8", "line 9"]);
}

#[test]
fn alternate_screen_never_feeds_the_scrollback() {
    let mut term = TerminalState::new(20, 3, 10);
    term.enter_alt_screen();
    write_lines(&mut term, 10);
    assert_eq!(term.scrollback_len(), 0);
}

#[test]
fn alt_screen_round_trip_restores_grid_and_cursor() {
    let mut term = TerminalState::new(20, 4, 10);
    write_lines(&mut term, 3);
    let rows: Vec<(String, bool)> =
        term.grid.iter().map(|r| (row_string(&r.cells), r.wrapped)).collect();
    let cursor = (term.cursor_x, term.cursor_y);
    term.enter_alt_screen();
    assert!(term.in_alt_screen());
    assert_eq!((term.cursor_x, term.cursor_y), (0, 0));
    assert!(term.grid.iter().all(|r| r.cells.iter().all(|c| *c == Cell::blank())));
    term.enter_alt_screen();
    term.leave_alt_screen();
    assert!(!term.in_alt_screen());
    let after: Vec<(String, bool)> =
        term.grid.iter().map(|r| (row_string(&r.cells), r.wrapped)).collect();
    assert_eq!(rows, after);
    assert_eq!(cursor, (term.cursor_x, term.cursor_y));
    term.leave_alt_screen();
    assert_eq!(cursor, (term.cursor_x, term.cursor_y));
}

#[test]
fn alt_screen_resize_cuts_and_pads_without_reflow() {
    let mut term = TerminalState::new(10, 3, 10);
    put_str(&mut term, "primary");
    term.enter_alt_screen();
    put_str(&mut term, "abcdefghij");
    term.resize(5, 4);
    assert_eq!(row_string(&term.grid[0].cells), "abcde");
    assert_eq!(term.grid.len(), 4);
    assert!(term.cursor_x < 5);
    term.leave_alt_screen();
    assert_eq!(row_string(&term.grid[0].cells), "prima");
    assert!(grid_is_sound(&term));
}

#[test]
fn put_char_wraps_at_the_right_margin() {
    let mut term = TerminalState::new(5, 3, 10);
    put_str(&mut term, "abcde");
    assert_eq!((term.cursor_x, term.cursor_y), (4, 0));
    assert!(term.wrap_pending);
    assert!(!term.grid[0].wrapped);
    term.put_char('f');
    assert!(term.grid[0].wrapped);
    assert_eq!((term.cursor_x, term.cursor_y), (1, 1));
    assert_eq!(term.grid[1].cells[0].c, 'f');
}

#[test]
fn put_char_without_auto_wrap_overwrites_last_column() {
    let mut term = TerminalState::new(5, 3, 10);
    let _ = term.csi_dispatch(&[7], &[b'?'], 'l', 0);
    assert!(!term.modes.auto_wrap);
    put_str(&mut term, "abcdefg");
    assert_eq!(row_string(&term.grid[0].cells), "abcdg");
    assert_eq!(term.cursor_y, 0);
    assert!(!term.grid[0].wrapped);
}

#[test]
fn put_char_in_insert_mode_shifts_the_tail() {
    let mut term = TerminalState::new(6, 2, 10);
    put_str(&mut term, "abcdef");
    term.set_cursor_pos(0, 1);
    let _ = term.csi_dispatch(&[4], &[], 'h', 0);
    assert!(term.modes.insert_mode);
    term.put_char('X');
    assert_eq!(row_string(&term.grid[0].cells), "aXbcde");
    assert_eq!(term.grid[0].cells.len(), 6);
    let _ = term.csi_dispatch(&[4], &[], 'l', 0);
    assert!(!term.modes.insert_mode);
}

#[test]
fn put_char_at_bottom_of_region_scrolls() {
    let mut term = TerminalState::new(3, 2, 10);
    put_str(&mut term, "abcdefg");
    assert_eq!(term.scrollback_len(), 1);
    assert_eq!(row_string(&term.scrollback[0].cells), "abc");
    assert!(term.scrollback[0].wrapped);
    assert_eq!(row_string(&term.grid[0].cells), "def");
    assert_eq!(row_string(&term.grid[1].cells), "g  ");
}

#[test]
fn put_char_takes_the_pen() {
    let mut term = TerminalState::new(10, 2, 10);
    term.set_sgr(&[1, 31, 44]);
    term.put_char('a');
    let cell = term.grid[0].cells[0];
    assert_eq!(cell.c, 'a');
    assert_eq!(cell.fg, Color::Palette(AnsiColor::Red));
    assert_eq!(cell.bg, Color::Palette(AnsiColor::Blue));
    assert!(cell.bold);
    assert!(!cell.dim);
    term.set_sgr(&[0, 2]);
    term.put_char('b');
    let cell = term.grid[0].cells[1];
    assert_eq!(cell.fg, Color::Foreground);
    assert_eq!(cell.bg, Color::Background);
    assert!(!cell.bold);
    assert!(cell.dim);
}

#[test]
fn tab_stops_every_eight_columns() {
    let mut term = TerminalState::new(20, 2, 10);
    term.tab();
    assert_eq!(term.cursor_x, 8);
    term.put_char('a');
    term.tab();
    assert_eq!(term.cursor_x, 16);
    term.tab();
    assert_eq!(term.cursor_x, 19);
    term.tab();
    assert_eq!(term.cursor_x, 19);
}

#[test]
fn backspace_and_carriage_return() {
    let mut term = TerminalState::new(5, 2, 10);
    term.backspace();
    assert_eq!(term.cursor_x, 0);
    put_str(&mut term, "abcde");
    term.backspace();
    assert_eq!(term.cursor_x, 4);
    assert!(!term.wrap_pending);
    term.backspace();
    assert_eq!(term.cursor_x, 3);
    term.carriage_return();
    assert_eq!(term.cursor_x, 0);
}

#[test]
fn cursor_moves_are_held_to_the_grid() {
    let mut term = TerminalState::new(10, 5, 10);
    term.cursor_down(3);
    assert_eq!(term.cursor_y, 3);
    term.cursor_down(60000);
    assert_eq!(term.cursor_y, 4);
    term.cursor_up(2);
    assert_eq!(term.cursor_y, 2);
    term.cursor_up(9);
    assert_eq!(term.cursor_y, 0);
    term.cursor_forward(4);
    assert_eq!(term.cursor_x, 4);
    term.cursor_forward(65535);
    assert_eq!(term.cursor_x, 9);
    term.cursor_backward(3);
    assert_eq!(term.cursor_x, 6);
    term.cursor_backward(100);
    assert_eq!(term.cursor_x, 0);
    term.set_cursor_pos(100, 100);
    assert_eq!((term.cursor_x, term.cursor_y), (9, 4));
    term.set_cursor_pos(2, 3);
    assert_eq!((term.cursor_x, term.cursor_y), (3, 2));
}

#[test]
fn cursor_moves_ignore_the_scroll_region() {
    let mut term = TerminalState::new(10, 6, 10);
    term.set_scroll_region(2, 3);
    term.cursor_down(5);
    assert_eq!(term.cursor_y, 5);
    term.cursor_up(5);
    assert_eq!(term.cursor_y, 0);
}

#[test]
fn cursor_move_epoch_counts_moves() {
    let mut term = TerminalState::new(10, 5, 10);
    term.dirty = false;
    let before = term.cursor_move_epoch;
    term.cursor_down(1);
    assert_eq!(term.cursor_move_epoch, before + 1);
    assert!(term.dirty);
    term.cursor_move_epoch = u32::MAX;
    term.carriage_return();
    assert_eq!(term.cursor_move_epoch, 0);
}

#[test]
fn save_and_restore_cursor() {
    let mut term = TerminalState::new(10, 5, 10);
    term.set_cursor_pos(1, 1);
    term.restore_cursor();
    assert_eq!((term.cursor_x, term.cursor_y), (1, 1));
    term.set_cursor_pos(3, 4);
    term.save_cursor();
    term.set_cursor_pos(0, 0);
    term.save_cursor();
    term.set_cursor_pos(2, 2);
    term.restore_cursor();
    assert_eq!((term.cursor_x, term.cursor_y), (0, 0));
    term.set_cursor_pos(4, 9);
    term.save_cursor();
    term.resize(5, 2);
    term.restore_cursor();
    assert!(term.cursor_y < 2);
    assert!(grid_is_sound(&term));
}

#[test]
fn scroll_region_is_set_and_homes_the_cursor() {
    let mut term = TerminalState::new(10, 6, 10);
    term.set_cursor_pos(3, 3);
    term.set_scroll_region(1, 4);
    assert_eq!((term.scroll_top, term.scroll_bottom), (1, 4));
    assert_eq!((term.cursor_x, term.cursor_y), (0, 0));
    term.set_scroll_region(2, 100);
    assert_eq!((term.scroll_top, term.scroll_bottom), (2, 5));
    term.modes.origin_mode = true;
    term.set_scroll_region(3, 4);
    assert_eq!((term.cursor_x, term.cursor_y), (0, 3));
}

#[test]
fn scroll_region_with_top_below_bottom_is_refused() {
    let mut term = TerminalState::new(10, 6, 10);
    term.set_scroll_region(1, 4);
    term.set_cursor_pos(3, 3);
    term.set_scroll_region(5, 2);
    assert_eq!((term.scroll_top, term.scroll_bottom), (1, 4));
    assert_eq!((term.cursor_x, term.cursor_y), (3, 3));
    assert!(grid_is_sound(&term));
}

#[test]
fn scrolling_stays_inside_the_region() {
    let mut term = TerminalState::new(10, 5, 10);
    write_lines(&mut term, 5);
    term.set_scroll_region(1, 3);
    term.scroll_up_region(1);
    assert_eq!(visible_text(&term), vec!["line 0", "line 2", "line 3", "", "line 4"]);
    assert_eq!(term.scrollback_len(), 0);
    term.scroll_down_region(2);
    assert_eq!(visible_text(&term), vec!["line 0", "", "", "line 2", "line 4"]);
    term.scroll_down_region(9);
    assert_eq!(visible_text(&term), vec!["line 0", "", "", "", "line 4"]);
}

#[test]
fn only_a_region_that_is_the_whole_screen_feeds_the_scrollback() {
    let mut term = TerminalState::new(10, 3, 10);
    write_lines(&mut term, 3);
    term.set_scroll_region(0, 1);
    term.scroll_up_region(1);
    assert_eq!(term.scrollback_len(), 0);
    assert_eq!(visible_text(&term), vec!["line 1", "", "line 2"]);
    term.set_cursor_pos(1, 0);
    term.newline();
    assert_eq!(term.scrollback_len(), 0);
    term.set_scroll_region(1, 2);
    term.scroll_up_region(1);
    assert_eq!(term.scrollback_len(), 0);
    term.set_scroll_region(0, 2);
    term.scroll_up_region(1);
    assert_eq!(term.scrollback_len(), 1);
}

#[test]
fn scrolling_up_from_the_first_row_feeds_the_scrollback() {
    let mut term = TerminalState::new(10, 3, 10);
    write_lines(&mut term, 3);
    term.scroll_up_region(5);
    assert_eq!(term.scrollback_len(), 5);
    let kept: Vec<String> =
        term.scrollback.iter().map(|r| row_string(&r.cells).trim_end().to_string()).collect();
    assert_eq!(kept, vec!["line 0", "line 1", "line 2", "", ""]);
    assert_eq!(visible_text(&term), vec!["", "", ""]);
}

#[test]
fn newline_and_reverse_index_at_the_region_edges() {
    let mut term = TerminalState::new(10, 4, 10);
    write_lines(&mut term, 4);
    term.set_scroll_region(1, 2);
    term.set_cursor_pos(2, 0);
    term.newline();
    assert_eq!(term.cursor_y, 2);
    assert_eq!(visible_text(&term), vec!["line 0", "line 2", "", "line 3"]);
    term.set_cursor_pos(1, 0);
    term.reverse_index();
    assert_eq!(term.cursor_y, 1);
    assert_eq!(visible_text(&term), vec!["line 0", "", "line 2", "line 3"]);
    term.set_cursor_pos(3, 0);
    term.newline();
    assert_eq!(term.cursor_y, 3);
    term.reverse_index();
    assert_eq!(term.cursor_y, 2);
    term.set_cursor_pos(0, 0);
    term.reverse_index();
    assert_eq!(term.cursor_y, 0);
    assert_eq!(visible_text(&term), vec!["line 0", "", "line 2", "line 3"]);
}

#[test]
fn insert_and_delete_lines_inside_the_region() {
    let mut term = TerminalState::new(10, 5, 10);
    write_lines(&mut term, 5);
    term.set_scroll_region(0, 3);
    term.set_cursor_pos(1, 0);
    term.insert_lines(1);
    assert_eq!(visible_text(&term), vec!["line 0", "", "line 1", "line 2", "line 4"]);
    term.delete_lines(2);
    assert_eq!(visible_text(&term), vec!["line 0", "line 2", "", "", "line 4"]);
    assert_eq!(term.scrollback_len(), 0);
    term.set_cursor_pos(4, 0);
    term.insert_lines(1);
    term.delete_lines(1);
    assert_eq!(visible_text(&term), vec!["line 0", "line 2", "", "", "line 4"]);
    assert!(grid_is_sound(&term));
}

#[test]
fn insert_delete_and_erase_chars() {
    let mut term = TerminalState::new(8, 2, 10);
    put_str(&mut term, "abcdefgh");
    term.set_cursor_pos(0, 2);
    term.delete_chars(2);
    assert_eq!(row_string(&term.grid[0].cells), "abefgh  ");
    term.insert_chars(3);
    assert_eq!(row_string(&term.grid[0].cells), "ab   efg");
    term.set_cursor_pos(0, 5);
    term.erase_chars(2);
    assert_eq!(row_string(&term.grid[0].cells), "ab     g");
    term.erase_chars(100);
    assert_eq!(row_string(&term.grid[0].cells), "ab      ");
    term.set_cursor_pos(0, 0);
    term.delete_chars(100);
    assert_eq!(row_string(&term.grid[0].cells), "        ");
    assert_eq!(term.grid[0].cells.len(), 8);
}

#[test]
fn erase_in_line_modes() {
    let mut term = TerminalState::new(6, 2, 10);
    put_str(&mut term, "abcdefg");
    assert!(term.grid[0].wrapped);
    term.set_cursor_pos(0, 2);
    term.erase_in_line(1);
    assert_eq!(row_string(&term.grid[0].cells), "   def");
    assert!(term.grid[0].wrapped);
    term.erase_in_line(0);
    assert_eq!(row_string(&term.grid[0].cells), "      ");
    assert!(!term.grid[0].wrapped);
    put_str(&mut term, "abcdefg");
    term.set_cursor_pos(0, 5);
    assert!(term.grid[0].wrapped);
    term.erase_in_line(1);
    assert_eq!(row_string(&term.grid[0].cells), "      ");
    assert!(!term.grid[0].wrapped);
    term.set_cursor_pos(1, 0);
    term.erase_in_line(7);
    assert_eq!(row_string(&term.grid[1].cells), "efg   ");
    term.erase_in_line(2);
    assert_eq!(row_string(&term.grid[1].cells), "      ");
}

#[test]
fn erase_in_display_modes() {
    let mut term = TerminalState::new(4, 3, 10);
    put_str(&mut term, "abcdefghijkl");
    term.set_cursor_pos(1, 1);
    term.erase_in_display(0);
    assert_eq!(visible_text(&term), vec!["abcd", "e", ""]);
    assert!(term.grid[0].wrapped);
    assert!(!term.grid[1].wrapped);
    let mut term = TerminalState::new(4, 3, 10);
    put_str(&mut term, "abcdefghijkl");
    term.set_cursor_pos(1, 1);
    term.erase_in_display(1);
    assert_eq!(row_string(&term.grid[0].cells), "    ");
    assert_eq!(row_string(&term.grid[1].cells), "  gh");
    assert_eq!(row_string(&term.grid[2].cells), "ijkl");
    assert!(!term.grid[0].wrapped);
    term.erase_in_display(9);
    assert_eq!(row_string(&term.grid[2].cells), "ijkl");
    term.erase_in_display(3);
    assert_eq!(visible_text(&term), vec!["", "", ""]);
}

#[test]
fn clear_scrollback_and_screen_starts_over() {
    let mut term = TerminalState::new(10, 3, 10);
    write_lines(&mut term, 8);
    term.scroll(2);
    term.clear_scrollback_and_screen();
    assert_eq!(term.scrollback_len(), 0);
    assert_eq!(term.scroll_offset(), 0);
    assert_eq!((term.cursor_x, term.cursor_y), (0, 0));
    assert_eq!(visible_text(&term), vec!["", "", ""]);
}

#[test]
fn view_scrolls_through_history_and_holds_while_reading() {
    let mut term = TerminalState::new(10, 3, 10);
    write_lines(&mut term, 8);
    assert_eq!(term.scrollback_len(), 5);
    term.scroll(2);
    assert_eq!(term.scroll_offset(), 2);
    assert!(term.user_scrolled);
    assert_eq!(visible_text(&term), vec!["line 3", "line 4", "line 5"]);
    term.put_char('x');
    assert_eq!(term.scroll_offset(), 2);
    term.scroll(100);
    assert_eq!(term.scroll_offset(), 5);
    assert_eq!(visible_text(&term), vec!["line 0", "line 1", "line 2"]);
    term.scroll(-100);
    assert_eq!(term.scroll_offset(), 0);
    assert!(!term.user_scrolled);
    term.scroll_to_abs_line(1);
    assert_eq!(term.scroll_offset(), 5);
    term.put_char('y');
    assert_eq!(term.scroll_offset(), 0);
    term.scroll_to_abs_line(4);
    assert_eq!(term.scroll_offset(), 2);
    term.scroll_to_abs_line(6);
    assert_eq!(term.scroll_offset(), 0);
    term.enter_alt_screen();
    term.scroll(3);
    assert_eq!(term.scroll_offset(), 0);
}

#[test]
fn y_offset_rows_counts_trailing_blank_rows() {
    let mut term = TerminalState::new(10, 5, 10);
    assert_eq!(term.y_offset_rows(), 5);
    write_lines(&mut term, 2);
    assert_eq!(term.y_offset_rows(), 3);
    write_lines(&mut term, 9);
    assert_eq!(term.y_offset_rows(), 0);
    term.scroll(1);
    assert_eq!(term.y_offset_rows(), 0);
}

#[test]
fn invariants_hold_along_a_mixed_run() {
    let mut term = TerminalState::new(12, 4, 3);
    write_lines(&mut term, 9);
    assert!(grid_is_sound(&term));
    term.set_scroll_region(1, 2);
    term.insert_lines(3);
    term.delete_lines(1);
    term.scroll_up_region(2);
    assert!(grid_is_sound(&term));
    term.resize(5, 7);
    assert!(grid_is_sound(&term));
    term.enter_alt_screen();
    put_str(&mut term, "alternate screen text");
    term.resize(9, 2);
    assert!(grid_is_sound(&term));
    term.leave_alt_screen();
    assert!(grid_is_sound(&term));
    term.erase_in_display(0);
    term.insert_chars(4);
    term.delete_chars(70);
    term.resize(30, 30);
    assert!(grid_is_sound(&term));
}

use kova::color::{AnsiColor, Color};
use kova::keybindings::{
    code_of, keycode_to_special, parse_key_combo, Key, KeyCombo, Keybindings, TerminalAction,
    TerminalKeysConfig,
};
use kova::pty::{
    arg0_for, login_arg0, resolve_shell, start_dir, window_size, PaneState, PtyEntry,
    PtyRegistry, ReadEvent, ReaderStep, SpawnError, Winsize, DEFAULT_SHELL, TERM, TERM_PROGRAM,
};
use kova::window::{KovaView, TabInfo};

#[test]
fn failed_spawn_leaves_the_registry_unchanged() {
    let mut registry = PtyRegistry::new();
    assert_eq!(registry.complete_spawn(Ok(41)).ok(), Some(41));
    let before = registry.entries.clone();
    let failed = registry.complete_spawn(Err(SpawnError {
        message: "No such file or directory".to_string(),
    }));
    assert_eq!(failed.err().map(|e| e.message), Some("No such file or directory".to_string()));
    assert_eq!(registry.entries, before);
    assert_eq!(registry.len(), 1);
}

#[test]
fn registry_tracks_children() {
    let mut registry = PtyRegistry::new();
    assert_eq!(registry.len(), 0);
    registry.register(10);
    registry.register(20);
    registry.register(30);
    assert_eq!(registry.len(), 3);
    assert!(!registry.is_flagged(20));
    registry.flag(20);
    assert!(registry.is_flagged(20));
    assert!(!registry.is_flagged(10));
    assert!(!registry.is_flagged(99));
    registry.remove(20);
    assert_eq!(
        registry.entries,
        vec![PtyEntry { pid: 10, shutdown: false }, PtyEntry { pid: 30, shutdown: false }]
    );
    registry.remove(20);
    registry.remove(77);
    assert_eq!(registry.len(), 2);
}

#[test]
fn shutdown_all_flags_every_child_and_names_them() {
    let mut registry = PtyRegistry::new();
    registry.register(10);
    registry.register(20);
    let pids = registry.shutdown_all();
    assert_eq!(pids, vec![10, 20]);
    assert!(registry.is_flagged(10));
    assert!(registry.is_flagged(20));
    assert_eq!(registry.len(), 2);
    let again = registry.shutdown_all();
    assert_eq!(again, vec![10, 20]);
    let mut empty = PtyRegistry::new();
    assert!(empty.shutdown_all().is_empty());
}

#[test]
fn reader_follows_the_session_states() {
    let mut state = PaneState::Spawning;
    assert!(!state.is_ready());
    assert!(state.is_alive());
    assert!(state.should_read(false));
    assert!(!state.should_read(true));
    assert!(!PaneState::Exited.should_read(false));
    assert!(PaneState::Running.should_read(false));
    assert_eq!(state.on_read(ReadEvent::Interrupted), ReaderStep::Retry);
    assert_eq!(state, PaneState::Spawning);
    assert_eq!(state.on_read(ReadEvent::Data(12)), ReaderStep::Feed(12));
    assert_eq!(state, PaneState::Running);
    assert!(state.is_ready());
    assert_eq!(state.on_read(ReadEvent::Data(4096)), ReaderStep::Feed(4096));
    assert_eq!(state.on_read(ReadEvent::Interrupted), ReaderStep::Retry);
    assert_eq!(state, PaneState::Running);
    assert_eq!(state.on_read(ReadEvent::Eof), ReaderStep::Stop);
    assert_eq!(state, PaneState::Exited);
    assert!(!state.is_alive());
    assert_eq!(state.on_read(ReadEvent::Data(3)), ReaderStep::Stop);
    assert_eq!(state, PaneState::Exited);
    let mut failed = PaneState::Running;
    assert_eq!(failed.on_read(ReadEvent::Failed), ReaderStep::Stop);
    assert_eq!(failed, PaneState::Exited);
    let mut empty = PaneState::Spawning;
    assert_eq!(empty.on_read(ReadEvent::Data(0)), ReaderStep::Stop);
    assert_eq!(empty, PaneState::Exited);
}

#[test]
fn login_shell_name_is_dash_and_file_name() {
    assert_eq!(login_arg0("/bin/zsh"), "-zsh");
    assert_eq!(login_arg0("/usr/local/bin/fish"), "-fish");
    assert_eq!(login_arg0("bash"), "-bash");
    assert_eq!(login_arg0("/opt/shells/"), "-shells");
    assert_eq!(login_arg0("/"), "-zsh");
    assert_eq!(login_arg0(".."), "-zsh");
    assert_eq!(login_arg0(""), "-zsh");
    assert_eq!(arg0_for(Some("nu")), "-nu");
    assert_eq!(arg0_for(None), "-zsh");
}

#[test]
fn shell_and_start_directory_fall_back() {
    assert_eq!(resolve_shell(Some("/bin/bash".to_string())), "/bin/bash");
    assert_eq!(resolve_shell(None), "/bin/zsh");
    assert_eq!(DEFAULT_SHELL, "/bin/zsh");
    assert_eq!(start_dir(Some("/work"), Some("/home/me".to_string())), "/work");
    assert_eq!(start_dir(None, Some("/home/me".to_string())), "/home/me");
    assert_eq!(start_dir(None, None), "/");
    assert_eq!(TERM, "xterm-256color");
    assert_eq!(TERM_PROGRAM, "Kova");
    assert_eq!(
        window_size(80, 24),
        Winsize { ws_row: 24, ws_col: 80, ws_xpixel: 0, ws_ypixel: 0 }
    );
}

#[test]
fn palette_and_color_table() {
    assert_eq!(AnsiColor::from_index(0), AnsiColor::Black);
    assert_eq!(AnsiColor::from_index(7), AnsiColor::White);
    assert_eq!(AnsiColor::from_index(8), AnsiColor::BrightBlack);
    assert_eq!(AnsiColor::from_index(15), AnsiColor::BrightWhite);
    assert_eq!(AnsiColor::from_index(16), AnsiColor::White);
    assert_eq!(AnsiColor::from_index(255), AnsiColor::White);
    assert_eq!(AnsiColor::from_256(1), Color::Palette(AnsiColor::Red));
    assert_eq!(AnsiColor::from_256(15), Color::Palette(AnsiColor::BrightWhite));
    assert_eq!(AnsiColor::from_256(16), Color::Rgb(0, 0, 0));
    assert_eq!(AnsiColor::from_256(17), Color::Rgb(0, 0, 95));
    assert_eq!(AnsiColor::from_256(67), Color::Rgb(95, 135, 175));
    assert_eq!(AnsiColor::from_256(231), Color::Rgb(255, 255, 255));
    assert_eq!(AnsiColor::from_256(232), Color::Rgb(8, 8, 8));
    assert_eq!(AnsiColor::from_256(255), Color::Rgb(238, 238, 238));
}

#[test]
fn special_keys_and_terminal_actions() {
    assert_eq!(keycode_to_special(0x24), Some(Key::Enter));
    assert_eq!(keycode_to_special(0x33), Some(Key::Backspace));
    assert_eq!(keycode_to_special(0x7e), Some(Key::Up));
    assert_eq!(keycode_to_special(0x7d), Some(Key::Down));
    assert_eq!(keycode_to_special(0x7b), Some(Key::Left));
    assert_eq!(keycode_to_special(0x7c), Some(Key::Right));
    assert_eq!(keycode_to_special(0x00), None);
    assert_eq!(TerminalAction::KillLine.bytes(), b"\x15".to_vec());
    assert_eq!(TerminalAction::Home.bytes(), b"\x1b[H".to_vec());
    assert_eq!(TerminalAction::End.bytes(), b"\x1b[F".to_vec());
    assert_eq!(TerminalAction::WordBack.bytes(), b"\x1bb".to_vec());
    assert_eq!(TerminalAction::WordForward.bytes(), b"\x1bf".to_vec());
    assert_eq!(TerminalAction::ShiftEnter.bytes(), b"\x1b[13;2u".to_vec());
}

#[test]
fn running_processes_lists_title_and_name() {
    let mut view = KovaView {
        tabs: vec![
            TabInfo {
                title: "build".to_string(),
                foreground: vec![Some("cargo".to_string()), None, Some("vim".to_string())],
            },
            TabInfo { title: "idle".to_string(), foreground: vec![None] },
            TabInfo { title: "logs".to_string(), foreground: vec![Some("tail".to_string())] },
        ],
        active_tab: 0,
    };
    assert_eq!(
        view.running_processes(),
        vec![
            ("build".to_string(), "cargo".to_string()),
            ("build".to_string(), "vim".to_string()),
            ("logs".to_string(), "tail".to_string()),
        ]
    );
    view.do_switch_tab(2);
    assert_eq!(view.active_tab, 2);
    view.do_switch_tab(3);
    assert_eq!(view.active_tab, 2);
    let empty = KovaView { tabs: Vec::new(), active_tab: 0 };
    assert!(empty.running_processes().is_empty());
}

fn combo(cmd: bool, ctrl: bool, option: bool, shift: bool, key: Key) -> KeyCombo {
    KeyCombo { cmd, ctrl, option, shift, key }
}

#[test]
fn parse_key_combo_reads_modifiers_and_key() {
    assert_eq!(parse_key_combo("cmd+t"), combo(true, false, false, false, Key::Char('t')));
    assert_eq!(parse_key_combo("cmd+shift+d"), combo(true, false, false, true, Key::Char('d')));
    assert_eq!(
        parse_key_combo("Command + CONTROL + Alt + Shift + Return"),
        combo(true, true, true, true, Key::Enter)
    );
    assert_eq!(parse_key_combo("ctrl+opt+left"), combo(false, true, true, false, Key::Left));
    assert_eq!(parse_key_combo("option+RIGHT"), combo(false, false, true, false, Key::Right));
    assert_eq!(parse_key_combo("cmd+option+up"), combo(true, false, true, false, Key::Up));
    assert_eq!(parse_key_combo("down"), combo(false, false, false, false, Key::Down));
    assert_eq!(parse_key_combo("cmd+backspace"), combo(true, false, false, false, Key::Backspace));
    assert_eq!(parse_key_combo("cmd+Delete"), combo(true, false, false, false, Key::Backspace));
    assert_eq!(parse_key_combo("shift+enter"), combo(false, false, false, true, Key::Enter));
    assert_eq!(parse_key_combo("cmd+shift+["), combo(true, false, false, true, Key::Char('[')));
    assert_eq!(parse_key_combo("cmd+shift+]"), combo(true, false, false, true, Key::Char(']')));
    assert_eq!(parse_key_combo("cmd+Q"), combo(true, false, false, false, Key::Char('q')));
    assert_eq!(parse_key_combo("cmd+1"), combo(true, false, false, false, Key::Char('1')));
}

#[test]
fn parse_key_combo_leaves_out_what_it_does_not_know() {
    assert_eq!(parse_key_combo(""), combo(false, false, false, false, Key::Char('\0')));
    assert_eq!(parse_key_combo("hyper+x"), combo(false, false, false, false, Key::Char('x')));
    assert_eq!(parse_key_combo("cmd+f13"), combo(true, false, false, false, Key::Char('\0')));
    assert_eq!(parse_key_combo("cmd+"), combo(true, false, false, false, Key::Char('\0')));
    assert_eq!(parse_key_combo("cmd++"), combo(true, false, false, false, Key::Char('\0')));
    assert_eq!(parse_key_combo("+a"), combo(false, false, false, false, Key::Char('a')));
    assert_eq!(parse_key_combo("cmd+\u{e9}"), combo(true, false, false, false, Key::Char('\0')));
    assert_eq!(parse_key_combo("shift"), combo(false, false, false, false, Key::Char('\0')));
    assert_eq!(parse_key_combo("x+cmd"), combo(false, false, false, false, Key::Char('\0')));
}

#[test]
fn terminal_bindings_come_from_the_configuration() {
    let keys = TerminalKeysConfig::default();
    assert_eq!(keys.kill_line, "cmd+backspace");
    assert_eq!(keys.home, "cmd+left");
    assert_eq!(keys.end, "cmd+right");
    assert_eq!(keys.word_back, "option+left");
    assert_eq!(keys.word_forward, "option+right");
    assert_eq!(keys.shift_enter, "shift+enter");
    let bindings = Keybindings::from_config(&keys);
    assert_eq!(bindings.terminal_map.len(), 6);
    assert_eq!(
        bindings.terminal_map.get(&code_of(&combo(true, false, false, false, Key::Backspace))),
        Some(&TerminalAction::KillLine)
    );
    let action = |c: KeyCombo| bindings.terminal_action(&c);
    assert_eq!(action(combo(true, false, false, false, Key::Left)), Some(TerminalAction::Home));
    assert_eq!(action(combo(true, false, false, false, Key::Right)), Some(TerminalAction::End));
    assert_eq!(action(combo(false, false, true, false, Key::Left)), Some(TerminalAction::WordBack));
    assert_eq!(
        action(combo(false, false, true, false, Key::Right)),
        Some(TerminalAction::WordForward)
    );
    assert_eq!(
        action(combo(false, false, false, true, Key::Enter)),
        Some(TerminalAction::ShiftEnter)
    );
    assert_eq!(action(combo(false, false, false, false, Key::Enter)), None);
    assert_eq!(action(combo(true, false, false, false, Key::Char('t'))), None);
}

#[test]
fn the_later_of_two_equal_bindings_counts() {
    let keys = TerminalKeysConfig {
        kill_line: "ctrl+u".to_string(),
        home: "cmd+left".to_string(),
        end: "cmd+right".to_string(),
        word_back: "CTRL+U".to_string(),
        word_forward: "option+right".to_string(),
        shift_enter: "shift+enter".to_string(),
    };
    let bindings = Keybindings::from_config(&keys);
    assert_eq!(
        bindings.terminal_action(&combo(false, true, false, false, Key::Char('u'))),
        Some(TerminalAction::WordBack)
    );
    assert_eq!(bindings.terminal_map.len(), 5);
}

#[test]
fn codes_tell_key_combinations_apart() {
    let keys = [
        Key::Char('\0'),
        Key::Char('a'),
        Key::Char('\u{10ffff}'),
        Key::Up,
        Key::Down,
        Key::Left,
        Key::Right,
        Key::Backspace,
        Key::Enter,
    ];
    let mut seen = std::collections::HashSet::new();
    for key in keys {
        for bits in 0..16u8 {
            let c = combo(bits & 1 != 0, bits & 2 != 0, bits & 4 != 0, bits & 8 != 0, key);
            assert!(seen.insert(code_of(&c)));
        }
    }
    assert_eq!(code_of(&combo(false, false, false, false, Key::Char('a'))), 0x61);
    assert_eq!(code_of(&combo(true, false, false, true, Key::Enter)), 0x110005 + 0x1200000);
}

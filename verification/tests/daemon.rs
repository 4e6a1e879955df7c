use popup_core::common::cli::{
    acquire_or_signal, after_probe, parse_command, parse_pid, pid_text, pidfile_path, plan,
    relaunch_with_override, Acquire, Command, Message, Signal, Step, Wait, MAX_PROBES,
    PREVIEW_PAUSE_MS, PROBE_PAUSE_MS,
};
use popup_core::common::keys::{
    default_keybinds, KeyPress, VimMode, CONTROL_MASK, KEY_DOWN, KEY_END, KEY_ESCAPE, KEY_HOME,
    KEY_PAGE_DOWN, KEY_PAGE_UP, KEY_RETURN, KEY_DELETE, KEY_U, KEY_UP,
};
use popup_core::common::session::{
    Caret, Effect, Focus, KeyOutcome, Motion, Request, Session,
};
use popup_core::common::vim::ModalState;

fn args(list: &[&str]) -> Vec<String> {
    list.iter().map(|s| s.to_string()).collect()
}

fn ch(c: char) -> KeyPress {
    KeyPress { key: c as u32, unicode: Some(c), mods: 0 }
}

fn named(key: u32) -> KeyPress {
    KeyPress { key, unicode: None, mods: 0 }
}

fn stop(request: Request) -> KeyOutcome {
    KeyOutcome { stop: true, request }
}

const PASS: KeyOutcome = KeyOutcome { stop: false, request: Request::Nothing };

#[test]
fn command_line_is_read() {
    assert_eq!(parse_command(&args(&[])), Command::Start);
    assert_eq!(parse_command(&args(&["tool"])), Command::Start);
    assert_eq!(parse_command(&args(&["tool", "--help"])), Command::Help);
    assert_eq!(parse_command(&args(&["tool", "-h"])), Command::Help);
    assert_eq!(parse_command(&args(&["tool", "--config"])), Command::ShowConfig);
    assert_eq!(parse_command(&args(&["tool", "--generate-config"])), Command::GenerateConfig);
    assert_eq!(parse_command(&args(&["tool", "--reload"])), Command::Reload);
    assert_eq!(parse_command(&args(&["tool", "toggle"])), Command::Toggle);
    assert_eq!(parse_command(&args(&["tool", "open"])), Command::Open);
    assert_eq!(parse_command(&args(&["tool", "close"])), Command::Close);
    assert_eq!(parse_command(&args(&["tool", "show-themes"])), Command::ShowThemes);
    assert_eq!(parse_command(&args(&["tool", "--themes"])), Command::ShowThemes);
    assert_eq!(parse_command(&args(&["tool", "--theme", "dracula"])), Command::Theme);
    assert_eq!(parse_command(&args(&["tool", "-T", "dracula", "more"])), Command::Theme);
    assert_eq!(parse_command(&args(&["tool", "--theme"])), Command::ThemeUsage);
    assert_eq!(parse_command(&args(&["tool", "-T"])), Command::ThemeUsage);
    assert_eq!(parse_command(&args(&["tool", "--bogus"])), Command::Unknown);
    assert_eq!(parse_command(&args(&["tool", "Toggle"])), Command::Unknown);
    assert_eq!(parse_command(&args(&["tool", ""])), Command::Unknown);
    assert_eq!(parse_command(&args(&["tool", "toggle", "--help"])), Command::Toggle);
}

#[test]
fn pidfile_content_is_read() {
    assert_eq!(parse_pid("4711"), Some(4711));
    assert_eq!(parse_pid("4711\n"), Some(4711));
    assert_eq!(parse_pid("  42\t"), Some(42));
    assert_eq!(parse_pid("+7"), Some(7));
    assert_eq!(parse_pid("2147483647"), Some(i32::MAX));
    assert_eq!(parse_pid("0001"), Some(1));
}

#[test]
fn pidfile_content_that_names_no_process() {
    assert_eq!(parse_pid(""), None);
    assert_eq!(parse_pid("\n"), None);
    assert_eq!(parse_pid("0"), None);
    assert_eq!(parse_pid("-1"), None);
    assert_eq!(parse_pid("-4711"), None);
    assert_eq!(parse_pid("2147483648"), None);
    assert_eq!(parse_pid("47 11"), None);
    assert_eq!(parse_pid("4711x"), None);
    assert_eq!(parse_pid("0x10"), None);
    assert_eq!(parse_pid("pid"), None);
    assert_eq!(parse_pid("+"), None);
}

#[test]
fn pidfile_round_trip() {
    for pid in [1u32, 9, 10, 4711, 99999, 2147483647] {
        assert_eq!(pid_text(pid), pid.to_string());
        assert_eq!(parse_pid(&pid_text(pid)), Some(pid as i32));
    }
    assert_eq!(pid_text(0), "0");
    assert_eq!(pid_text(u32::MAX), "4294967295");
}

#[test]
fn pidfile_path_names_tool_and_user() {
    assert_eq!(pidfile_path("cliphist-gui", 1000), "/tmp/cliphist-gui-1000.pid");
    assert_eq!(pidfile_path("launch-gui", 0), "/tmp/launch-gui-0.pid");
    assert_eq!(pidfile_path("", 4294967295), "/tmp/-4294967295.pid");
}

#[test]
fn daemon_toggle_scenario() {
    // first invocation: no pidfile, so this process becomes the daemon ...
    assert_eq!(acquire_or_signal(None), Acquire::BecomeDaemon);
    assert_eq!(
        plan(Command::Start, None, false),
        vec![Step::WritePidfile, Step::RunDaemon, Step::RemovePidfile]
    );
    // ... and its first activation shows the window
    let mut session = Session::new(false, true);
    assert!(!session.visible);
    let effects = session.toggle();
    assert_eq!(effects.last(), Some(&Effect::ShowWindow));
    assert!(session.visible);
    // second invocation while the daemon lives: toggle it and exit
    assert_eq!(acquire_or_signal(Some(4711)), Acquire::Signal { pid: 4711 });
    let steps = plan(Command::Start, Some(4711), false);
    assert_eq!(steps, vec![Step::Send { pid: 4711, signal: Signal::Toggle }]);
    assert!(!steps.contains(&Step::RunDaemon));
    assert!(!steps.contains(&Step::WritePidfile));
    // the daemon hides the window on that signal
    assert_eq!(session.toggle(), vec![Effect::HideWindow]);
    assert!(!session.visible);
}

#[test]
fn stale_pidfile_is_taken_over() {
    // the pidfile names a process, but the probe found it dead: the caller
    // passes no live pid
    assert_eq!(parse_pid("4711\n"), Some(4711));
    assert_eq!(plan(Command::Start, None, false)[0], Step::WritePidfile);
}

#[test]
fn plans_of_the_simple_commands() {
    for live in [None, Some(7)] {
        assert_eq!(plan(Command::Help, live, false), vec![Step::PrintUsage]);
        assert_eq!(plan(Command::ShowConfig, live, false), vec![Step::ShowConfig]);
        assert_eq!(plan(Command::GenerateConfig, live, false), vec![Step::GenerateConfig]);
        assert_eq!(plan(Command::ShowThemes, live, false), vec![Step::ListThemes]);
        assert_eq!(
            plan(Command::ThemeUsage, live, true),
            vec![Step::Report { message: Message::ThemeUsage }]
        );
        assert_eq!(
            plan(Command::Unknown, live, false),
            vec![Step::Report { message: Message::UnknownOption }, Step::PrintUsage, Step::Fail]
        );
    }
}

#[test]
fn plans_that_signal_the_daemon() {
    let toggle = vec![Step::Send { pid: 7, signal: Signal::Toggle }];
    assert_eq!(plan(Command::Toggle, Some(7), false), toggle);
    assert_eq!(plan(Command::Open, Some(7), false), toggle);
    let not_running = vec![Step::Report { message: Message::NotRunning }];
    assert_eq!(plan(Command::Toggle, None, false), not_running);
    assert_eq!(plan(Command::Open, None, false), not_running);
    assert_eq!(
        plan(Command::Close, Some(7), false),
        vec![Step::Send { pid: 7, signal: Signal::Terminate }]
    );
    assert_eq!(plan(Command::Close, None, false), vec![]);
}

#[test]
fn plans_that_replace_the_daemon() {
    assert_eq!(
        plan(Command::Reload, Some(7), false),
        vec![
            Step::Send { pid: 7, signal: Signal::Terminate },
            Step::AwaitExit { pid: 7 },
            Step::RemovePidfile,
            Step::Spawn { themed: false },
            Step::Report { message: Message::Reloaded },
        ]
    );
    assert_eq!(
        plan(Command::Reload, None, false),
        vec![Step::Spawn { themed: false }, Step::Report { message: Message::Reloaded }]
    );
    assert_eq!(PREVIEW_PAUSE_MS, 100);
    assert_eq!(
        plan(Command::Theme, Some(7), true),
        vec![
            Step::Send { pid: 7, signal: Signal::Terminate },
            Step::Pause { millis: 100 },
            Step::RemovePidfile,
            Step::Spawn { themed: true },
            Step::Report { message: Message::Started },
        ]
    );
    assert_eq!(
        plan(Command::Theme, None, true),
        vec![Step::Spawn { themed: true }, Step::Report { message: Message::Started }]
    );
    assert_eq!(
        plan(Command::Theme, Some(7), false),
        vec![Step::Report { message: Message::UnknownTheme }]
    );
    assert_eq!(relaunch_with_override(Some(7), true), plan(Command::Theme, Some(7), true));
    assert_eq!(relaunch_with_override(None, false), plan(Command::Reload, None, true));
}

#[test]
fn wait_for_exit_is_bounded() {
    assert_eq!((MAX_PROBES, PROBE_PAUSE_MS), (20, 50));
    assert_eq!(after_probe(1, false), Wait::Done);
    assert_eq!(after_probe(20, false), Wait::Done);
    assert_eq!(after_probe(1, true), Wait::PauseThenProbe { millis: 50 });
    assert_eq!(after_probe(19, true), Wait::PauseThenProbe { millis: 50 });
    assert_eq!(after_probe(20, true), Wait::PauseThenDone { millis: 50 });
    assert_eq!(after_probe(u32::MAX, true), Wait::PauseThenDone { millis: 50 });
    // a daemon that never goes is probed twenty times
    let mut probes = 0;
    loop {
        probes += 1;
        match after_probe(probes, true) {
            Wait::PauseThenProbe { .. } => {}
            _ => break,
        }
    }
    assert_eq!(probes, 20);
}

#[test]
fn session_toggle_shows_and_hides() {
    let mut s = Session::new(true, true);
    s.modal = ModalState { mode: VimMode::Insert, pending: None };
    s.set_rows(5);
    s.selected = Some(3);
    let effects = s.toggle();
    assert_eq!(
        effects,
        vec![
            Effect::ReloadConfig,
            Effect::RefreshCandidates,
            Effect::ClearQuery,
            Effect::ShowWindow,
        ]
    );
    assert!(s.visible);
    assert_eq!(s.modal, ModalState { mode: VimMode::Normal, pending: None });
    assert_eq!((s.rows, s.selected), (0, None));
    s.set_rows(4);
    assert_eq!((s.rows, s.selected), (4, Some(0)));
    s.selected = Some(2);
    s.modal = ModalState { mode: VimMode::Normal, pending: Some('g') };
    assert_eq!(s.toggle(), vec![Effect::HideWindow]);
    assert!(!s.visible);
    // hiding keeps the rest
    assert_eq!((s.rows, s.selected), (4, Some(2)));
    assert_eq!(s.modal.pending, Some('g'));
    assert!(s.vim_mode && s.allow_delete);
}

#[test]
fn session_reload_changes_nothing() {
    let mut s = Session::new(false, false);
    s.toggle();
    s.set_rows(3);
    let before = s;
    assert_eq!(s.reload_style(), vec![Effect::ReloadConfig, Effect::ReapplyStyle]);
    assert_eq!(s, before);
    s.configure(true);
    assert!(s.vim_mode);
    assert_eq!(Session { vim_mode: false, ..s }, before);
}

#[test]
fn session_set_rows_selects_the_first_row() {
    let mut s = Session::new(false, false);
    s.set_rows(0);
    assert_eq!(s.selected, None);
    s.set_rows(9);
    assert_eq!(s.selected, Some(0));
    s.selected = Some(8);
    s.set_rows(2);
    assert_eq!(s.selected, Some(0));
}

#[test]
fn session_motions() {
    let mut s = Session::new(false, false);
    s.set_rows(25);
    assert_eq!(s.motion_target(Motion::Next), Some(1));
    assert_eq!(s.motion_target(Motion::Prev), None);
    assert_eq!(s.motion_target(Motion::PageDown), Some(10));
    assert_eq!(s.motion_target(Motion::PageUp), Some(0));
    assert_eq!(s.motion_target(Motion::First), Some(0));
    assert_eq!(s.motion_target(Motion::Last), Some(24));
    s.selected = Some(14);
    assert_eq!(s.motion_target(Motion::Next), Some(15));
    assert_eq!(s.motion_target(Motion::Prev), Some(13));
    assert_eq!(s.motion_target(Motion::PageDown), Some(24));
    assert_eq!(s.motion_target(Motion::PageUp), Some(4));
    s.selected = Some(15);
    assert_eq!(s.motion_target(Motion::PageDown), Some(24));
    s.selected = Some(24);
    assert_eq!(s.motion_target(Motion::Next), None);
    assert_eq!(s.motion_target(Motion::PageDown), Some(24));
    assert_eq!(s.motion_target(Motion::PageUp), Some(14));
    s.selected = None;
    for m in [Motion::Next, Motion::Prev, Motion::PageDown, Motion::PageUp] {
        assert_eq!(s.motion_target(m), None);
    }
    assert_eq!(s.motion_target(Motion::First), Some(0));
    assert_eq!(s.motion_target(Motion::Last), Some(24));
    s.set_rows(0);
    for m in [
        Motion::Next, Motion::Prev, Motion::PageDown, Motion::PageUp, Motion::First, Motion::Last,
    ] {
        assert_eq!(s.motion_target(m), None);
    }
}

#[test]
fn session_keys_without_modal_input() {
    let table = default_keybinds();
    let mut s = Session::new(false, true);
    s.toggle();
    s.set_rows(30);
    assert_eq!(s.handle_key(&table, named(KEY_DOWN)), stop(Request::MoveTo { row: 1 }));
    assert_eq!(s.selected, Some(1));
    assert_eq!(s.handle_key(&table, named(KEY_PAGE_DOWN)), stop(Request::MoveTo { row: 11 }));
    assert_eq!(s.handle_key(&table, named(KEY_UP)), stop(Request::MoveTo { row: 10 }));
    assert_eq!(s.handle_key(&table, named(KEY_PAGE_UP)), stop(Request::MoveTo { row: 0 }));
    assert_eq!(s.handle_key(&table, named(KEY_UP)), stop(Request::Nothing));
    assert_eq!(s.handle_key(&table, named(KEY_END)), stop(Request::MoveTo { row: 29 }));
    assert_eq!(s.handle_key(&table, named(KEY_DOWN)), stop(Request::Nothing));
    assert_eq!(s.handle_key(&table, named(KEY_HOME)), stop(Request::MoveTo { row: 0 }));
    s.selected = Some(4);
    assert_eq!(s.handle_key(&table, named(KEY_RETURN)), stop(Request::Activate { row: 4 }));
    assert_eq!(s.handle_key(&table, named(KEY_DELETE)), stop(Request::Delete { row: 4 }));
    let clear = KeyPress { key: KEY_U, unicode: Some('u'), mods: CONTROL_MASK };
    assert_eq!(s.handle_key(&table, clear), stop(Request::ClearSearch));
    // a key that is not bound goes on to the search field
    assert_eq!(s.handle_key(&table, ch('j')), PASS);
    assert_eq!(s.handle_key(&table, ch('g')), PASS);
    assert_eq!(s.selected, Some(4));
    assert!(s.visible);
    assert_eq!(s.handle_key(&table, named(KEY_ESCAPE)), stop(Request::Hide));
    assert!(!s.visible);
}

#[test]
fn session_delete_needs_the_capability() {
    let table = default_keybinds();
    let mut s = Session::new(false, false);
    s.set_rows(3);
    assert_eq!(s.handle_key(&table, named(KEY_DELETE)), stop(Request::Nothing));
    let mut s = Session::new(true, false);
    s.set_rows(3);
    assert_eq!(s.handle_key(&table, ch('d')), stop(Request::Nothing));
    assert_eq!(s.handle_key(&table, ch('d')), stop(Request::Nothing));
}

#[test]
fn session_keys_on_an_empty_list() {
    let table = default_keybinds();
    let mut s = Session::new(false, true);
    s.set_rows(0);
    for key in [KEY_DOWN, KEY_UP, KEY_HOME, KEY_END, KEY_PAGE_DOWN, KEY_RETURN, KEY_DELETE] {
        assert_eq!(s.handle_key(&table, named(key)), stop(Request::Nothing));
        assert_eq!(s.selected, None);
    }
}

#[test]
fn session_keys_with_modal_input() {
    let table = default_keybinds();
    let mut s = Session::new(true, true);
    s.toggle();
    s.set_rows(40);
    assert_eq!(s.handle_key(&table, ch('j')), stop(Request::MoveTo { row: 1 }));
    assert_eq!(s.handle_key(&table, ch('G')), stop(Request::MoveTo { row: 39 }));
    assert_eq!(s.handle_key(&table, ch('k')), stop(Request::MoveTo { row: 38 }));
    assert_eq!(s.handle_key(&table, ch('g')), stop(Request::Nothing));
    assert_eq!(s.handle_key(&table, ch('g')), stop(Request::MoveTo { row: 0 }));
    let page = KeyPress { key: 'd' as u32, unicode: Some('d'), mods: CONTROL_MASK };
    assert_eq!(s.handle_key(&table, page), stop(Request::MoveTo { row: 10 }));
    let back = KeyPress { key: 'u' as u32, unicode: Some('u'), mods: CONTROL_MASK };
    assert_eq!(s.handle_key(&table, back), stop(Request::MoveTo { row: 0 }));
    // Normal mode consumes every key, bound or not
    assert_eq!(s.handle_key(&table, ch('x')), stop(Request::Nothing));
    assert_eq!(s.handle_key(&table, named(KEY_DOWN)), stop(Request::Nothing));
    s.selected = Some(6);
    assert_eq!(s.handle_key(&table, ch('d')), stop(Request::Nothing));
    assert_eq!(s.handle_key(&table, ch('d')), stop(Request::Delete { row: 6 }));
    assert_eq!(s.handle_key(&table, named(KEY_RETURN)), stop(Request::Activate { row: 6 }));
    // Insert mode and back
    assert_eq!(
        s.handle_key(&table, ch('A')),
        stop(Request::FocusSearch { caret: Caret::End })
    );
    assert_eq!(s.modal.mode, VimMode::Insert);
    assert_eq!(s.handle_key(&table, ch('j')), PASS);
    assert_eq!(s.handle_key(&table, named(KEY_DOWN)), PASS);
    assert_eq!(s.selected, Some(6));
    assert_eq!(s.handle_key(&table, named(KEY_RETURN)), stop(Request::Activate { row: 6 }));
    assert_eq!(s.modal.mode, VimMode::Insert);
    assert_eq!(s.handle_key(&table, named(KEY_ESCAPE)), stop(Request::FocusList));
    assert_eq!(s.modal.mode, VimMode::Normal);
    assert!(s.visible);
    assert_eq!(s.handle_key(&table, named(KEY_ESCAPE)), stop(Request::Hide));
    assert!(!s.visible);
}

#[test]
fn session_caret_of_insert_keys() {
    let table = default_keybinds();
    let cases = [
        ('i', Caret::Keep),
        ('/', Caret::Keep),
        ('a', Caret::End),
        ('A', Caret::End),
        ('I', Caret::Start),
    ];
    for (c, caret) in cases {
        let mut s = Session::new(true, false);
        assert_eq!(s.handle_key(&table, ch(c)), stop(Request::FocusSearch { caret }));
    }
}

#[test]
fn session_focus_follows_the_mode() {
    let table = default_keybinds();
    let mut s = Session::new(false, false);
    assert_eq!(s.focus(), Focus::Search);
    s.configure(true);
    assert_eq!(s.focus(), Focus::List);
    s.handle_key(&table, ch('i'));
    assert_eq!(s.focus(), Focus::Search);
    s.handle_key(&table, named(KEY_ESCAPE));
    assert_eq!(s.focus(), Focus::List);
    s.conceal();
    assert!(!s.visible);
}

use heretek::app::{App, Args, Stream};
use heretek::event::KeyEffect;
use heretek::history::{key_down, key_up, update_from_previous_input};
use heretek::keys::{command, Command, KeyCode, KeyEvent, KeyEventKind, Pane};
use heretek::line::{key_enter, pending_line, process_line, run_line, runnable, LineEffect};
use heretek::mi::{Asm, MemoryMapping, Register, Written};
use heretek::mode::{InputMode, Mode};

fn app() -> App {
    let args: Args<u8> = Args { local: true, remote: None, thirty_two_bit: false };
    App::new_stream(args).1
}

fn key(code: KeyCode) -> KeyEvent {
    KeyEvent { code, modifiers: 0, kind: KeyEventKind::Press }
}

fn type_text(app: &mut App, text: &str) {
    for c in text.chars() {
        assert!(matches!(app.handle_key(key(KeyCode::Char(c)), None), KeyEffect::Continue));
    }
}

/// Enters a line and tells what went to gdb.
fn enter(app: &mut App, text: &str) -> String {
    type_text(app, text);
    match app.handle_key(key(KeyCode::Enter), Some("/home/u")) {
        KeyEffect::Line(LineEffect::Send(line)) => line,
        other => panic!("{:?}", other),
    }
}

fn editing() -> App {
    let mut app = app();
    app.handle_key(key(KeyCode::Char('i')), None);
    assert_eq!(app.input_mode, InputMode::Editing);
    app
}

#[test]
fn starts_with_an_empty_state() {
    let args: Args<u8> = Args { local: true, remote: None, thirty_two_bit: true };
    let (stream, app) = App::new_stream(args);
    match stream {
        Stream::Local(program, arguments) => {
            assert_eq!(program, "gdb");
            assert_eq!(arguments, vec!["--interpreter=mi2", "--quiet", "-nx"]);
        }
        Stream::Remote(_) => panic!(),
    }
    assert!(app.thirty_two_bit);
    assert_eq!(app.mode, Mode::All);
    assert_eq!(app.input_mode, InputMode::Normal);
    assert_eq!(app.sent_input.capacity, 100);
    assert!(app.next_write.is_empty() && app.written.is_empty() && app.stack.is_empty());
    assert!(app.registers.is_empty() && app.instructions.is_empty() && app.output.is_empty());
    assert!(app.register_changed.is_empty() && app.register_names.is_empty());
    assert!(app.filepath.is_none() && app.memory_map.is_none() && app.hexdump.is_none());
}

#[test]
fn remote_sessions_keep_their_address() {
    let args = Args { local: false, remote: Some("127.0.0.1:12345"), thirty_two_bit: false };
    match App::new_stream(args).0 {
        Stream::Remote(address) => assert_eq!(address, "127.0.0.1:12345"),
        Stream::Local(..) => panic!(),
    }
}

#[test]
fn keys_give_commands() {
    let c = |m, k, v| command(m, k, v);
    assert_eq!(c(InputMode::Normal, KeyCode::Char('q'), Mode::All), Command::Quit);
    assert_eq!(c(InputMode::Editing, KeyCode::Char('q'), Mode::All), Command::Edit);
    assert_eq!(c(InputMode::Normal, KeyCode::Esc, Mode::All), Command::Ignore);
    assert_eq!(c(InputMode::Editing, KeyCode::Esc, Mode::All), Command::StopEditing);
    assert_eq!(c(InputMode::Normal, KeyCode::Tab, Mode::All), Command::NextMode);
    assert_eq!(c(InputMode::Editing, KeyCode::Tab, Mode::All), Command::Edit);
    assert_eq!(c(InputMode::Editing, KeyCode::F(7), Mode::All), Command::Show(Mode::OnlyHexdump));
    assert_eq!(c(InputMode::Normal, KeyCode::F(0), Mode::All), Command::Ignore);
    assert_eq!(c(InputMode::Normal, KeyCode::F(8), Mode::All), Command::Ignore);
    assert_eq!(c(InputMode::Editing, KeyCode::F(8), Mode::All), Command::Edit);
    assert_eq!(c(InputMode::Normal, KeyCode::Char('j'), Mode::All), Command::Ignore);
    assert_eq!(
        c(InputMode::Normal, KeyCode::Char('J'), Mode::OnlyMapping),
        Command::ScrollDown(Pane::Mapping, 50)
    );
    assert_eq!(
        c(InputMode::Normal, KeyCode::Char('k'), Mode::OnlyHexdump),
        Command::ScrollUp(Pane::Hexdump, 1)
    );
    assert_eq!(c(InputMode::Editing, KeyCode::Char('j'), Mode::OnlyOutput), Command::Edit);
    assert_eq!(c(InputMode::Normal, KeyCode::Enter, Mode::OnlyOutput), Command::Submit);
    assert_eq!(c(InputMode::Normal, KeyCode::Up, Mode::OnlyOutput), Command::Older);
    assert_eq!(c(InputMode::Editing, KeyCode::Down, Mode::OnlyOutput), Command::Newer);
    assert_eq!(c(InputMode::Normal, KeyCode::Other, Mode::All), Command::Ignore);
    assert_eq!(c(InputMode::Normal, KeyCode::Left, Mode::All), Command::Ignore);
}

#[test]
fn function_keys_and_tab_select_modes() {
    let mut app = app();
    app.handle_key(key(KeyCode::F(5)), None);
    assert_eq!(app.mode, Mode::OnlyOutput);
    app.handle_key(key(KeyCode::Tab), None);
    assert_eq!(app.mode, Mode::OnlyMapping);
    app.handle_key(key(KeyCode::F(1)), None);
    assert_eq!(app.mode, Mode::All);
}

#[test]
fn q_quits_only_in_normal_mode() {
    let mut app = editing();
    type_text(&mut app, "q");
    assert_eq!(app.input.value(), "q");
    app.handle_key(key(KeyCode::Esc), None);
    assert_eq!(app.input_mode, InputMode::Normal);
    assert!(matches!(app.handle_key(key(KeyCode::Char('q')), None), KeyEffect::Quit));
    assert_eq!(app.input.value(), "q");
}

#[test]
fn lists_scroll_in_their_mode() {
    let mut app = app();
    app.output = vec!["x".to_string(); 60];
    app.handle_key(key(KeyCode::Char('j')), None);
    assert_eq!(app.output_scroll, 0);
    app.mode = Mode::OnlyOutput;
    app.handle_key(key(KeyCode::Char('j')), None);
    app.handle_key(key(KeyCode::Char('J')), None);
    assert_eq!((app.output_scroll, app.output_scroll_state.position), (51, 51));
    app.handle_key(key(KeyCode::Char('K')), None);
    app.handle_key(key(KeyCode::Char('k')), None);
    assert_eq!((app.output_scroll, app.output_scroll_state.position), (0, 0));

    app.mode = Mode::OnlyMapping;
    app.handle_key(key(KeyCode::Char('j')), None);
    assert_eq!(app.memory_map_scroll, 0);
    let region = MemoryMapping { start_address: 0, end_address: 1, path: None };
    app.memory_map = Some(vec![region.clone(), region]);
    app.handle_key(key(KeyCode::Char('j')), None);
    app.handle_key(key(KeyCode::Char('j')), None);
    assert_eq!((app.memory_map_scroll, app.memory_map_scroll_state.position), (1, 1));

    app.mode = Mode::OnlyHexdump;
    app.handle_key(key(KeyCode::Char('J')), None);
    assert_eq!(app.hexdump_scroll, 0);
    app.hexdump = Some((0, vec![0; 4]));
    app.handle_key(key(KeyCode::Char('J')), None);
    assert_eq!((app.hexdump_scroll, app.hexdump_scroll_state.position), (50, 50));
    app.handle_key(key(KeyCode::Char('k')), None);
    assert_eq!((app.hexdump_scroll, app.hexdump_scroll_state.position), (49, 49));
}

#[test]
fn lines_go_to_gdb() {
    let mut app = editing();
    assert_eq!(enter(&mut app, "break main"), "break main");
    assert_eq!(app.input.value(), "");
    assert_eq!(app.sent_input.as_slice(), &["break main"]);
    assert_eq!(app.sent_input.offset, 0);
}

#[test]
fn an_empty_line_repeats_the_newest() {
    let mut app = editing();
    assert!(matches!(app.handle_key(key(KeyCode::Enter), None), KeyEffect::Continue));
    enter(&mut app, "a");
    enter(&mut app, "b");
    assert_eq!(pending_line(&app), Some("b".to_string()));
    assert_eq!(enter(&mut app, ""), "b");
    assert_eq!(app.sent_input.as_slice(), &["a", "b"]);
}

#[test]
fn the_newest_line_is_repeated_after_the_history_is_full() {
    let mut app = editing();
    for i in 0..150 {
        enter(&mut app, &format!("line {}", i));
    }
    assert_eq!(app.sent_input.len(), 100);
    assert_eq!(app.sent_input.as_slice()[0], "line 50");
    assert_eq!(enter(&mut app, ""), "line 149");
}

#[test]
fn history_goes_back_and_forth() {
    let mut app = editing();
    key_up(&mut app);
    key_down(&mut app);
    assert_eq!((app.sent_input.offset, app.input.value()), (0, ""));
    for line in ["a", "b", "c"] {
        enter(&mut app, line);
    }
    let mut seen = vec![];
    for _ in 0..4 {
        app.handle_key(key(KeyCode::Up), None);
        seen.push(app.input.value().to_string());
    }
    assert_eq!(seen, vec!["c", "b", "a", "a"]);
    assert_eq!(app.sent_input.offset, 3);
    app.handle_key(key(KeyCode::Down), None);
    assert_eq!(app.input.value(), "b");
    app.handle_key(key(KeyCode::Down), None);
    assert_eq!(app.input.value(), "c");
    app.handle_key(key(KeyCode::Down), None);
    assert_eq!((app.sent_input.offset, app.input.value()), (0, ""));
    type_text(&mut app, "x");
    app.handle_key(key(KeyCode::Down), None);
    assert_eq!((app.sent_input.offset, app.input.value()), (0, "x"));
    update_from_previous_input(&mut app);
    assert_eq!(app.input.value(), "x");
}

#[test]
fn files_are_remembered_and_sent() {
    let mut app = editing();
    assert_eq!(enter(&mut app, "file ~/a.out"), "file ~/a.out");
    assert_eq!(app.filepath, Some("/home/u/a.out".to_string()));
    assert_eq!(enter(&mut app, "file /bin/ls x"), "file /bin/ls x");
    assert_eq!(app.filepath, Some("/bin/ls".to_string()));
    app.save_filepath("file b.out", None);
    assert_eq!(app.filepath, Some("b.out".to_string()));
}

#[test]
fn lines_that_cannot_be_run_are_refused() {
    for line in ["file", "file ~/a.out", "hexdump x 1", "hexdump 1 x", "hexdump 0x 1"] {
        assert!(!runnable(line, None), "{}", line);
        let mut app = editing();
        type_text(&mut app, line);
        assert!(matches!(app.handle_key(key(KeyCode::Enter), None), KeyEffect::Refused));
        assert_eq!(app.input.value(), line);
        assert!(app.sent_input.is_empty());
    }
    for line in ["", "run", "file a", "hexdump", "hexdump 1", "hexdump 1 0x2 z"] {
        assert!(runnable(line, None), "{}", line);
    }
}

#[test]
fn hexdumps_queue_a_memory_read() {
    let mut app = editing();
    type_text(&mut app, "hexdump 0x1000 16");
    let effect = app.handle_key(key(KeyCode::Enter), None);
    assert!(matches!(effect, KeyEffect::Line(LineEffect::Queued)));
    assert_eq!(app.next_write, vec!["-data-read-memory-bytes -o 0 0x1000 16"]);
    assert_eq!(app.written.len(), 1);
    assert!(matches!(app.written[0], Written::Memory));
    assert_eq!(app.input.value(), "");
    assert_eq!(app.take_writes(), vec!["-data-read-memory-bytes -o 0 0x1000 16"]);
    assert!(app.next_write.is_empty());
    assert_eq!(app.written.len(), 1);
}

#[test]
fn hexdumps_of_regions() {
    let mut app = editing();
    app.memory_map = Some(vec![MemoryMapping {
        start_address: 0x5000,
        end_address: 0x6000,
        path: Some("[heap]".to_string()),
    }]);
    let effect = process_line(&mut app, "hexdump $HERETEK_MAPPING_START_[heap] 0x20", None);
    assert!(matches!(effect, LineEffect::Queued));
    assert_eq!(app.next_write, vec!["-data-read-memory-bytes -o 0 0x5000 32"]);
    match process_line(&mut app, "x $HERETEK_MAPPING_END_[heap]", None) {
        LineEffect::Send(line) => assert_eq!(line, "x 0x6000"),
        other => panic!("{:?}", other),
    }
}

#[test]
fn a_hexdump_without_arguments_changes_nothing() {
    let mut app = editing();
    type_text(&mut app, "hexdump 1");
    let effect = key_enter(&mut app, None);
    assert!(matches!(effect, Some(LineEffect::Invalid)));
    assert_eq!(app.input.value(), "hexdump 1");
    assert!(app.next_write.is_empty() && app.written.is_empty());
    assert_eq!(app.sent_input.as_slice(), &["hexdump 1"]);
    assert!(matches!(run_line(&mut app, "hexdump", None), LineEffect::Invalid));
}

#[test]
fn the_status_follows_the_input_mode() {
    let mut app = app();
    app.update_status();
    assert_eq!(app.status, "Press q to exit, i to enter input");
    app.handle_key(key(KeyCode::Char('i')), None);
    app.update_status();
    assert_eq!(app.status, "Press Esc to stop editing, Enter to send input");
}

#[test]
fn every_character_reaches_the_line_while_editing() {
    for c in "iqjkJK \u{e9}0~$".chars() {
        for mode in [Mode::All, Mode::OnlyOutput, Mode::OnlyMapping, Mode::OnlyHexdump] {
            assert_eq!(command(InputMode::Editing, KeyCode::Char(c), mode), Command::Edit);
            assert_ne!(command(InputMode::Normal, KeyCode::Char(c), mode), Command::Edit);
        }
    }
}

#[test]
fn keys_change_nothing_that_gdb_reported() {
    let mut app = editing();
    let region = MemoryMapping { start_address: 1, end_address: 9, path: None };
    app.memory_map = Some(vec![region]);
    app.output = vec!["a".to_string(), "b".to_string()];
    app.hexdump = Some((16, vec![1, 2, 3]));
    app.current_pc = 7;
    app.register_names = vec!["rax".to_string()];
    app.stack.insert(1, vec![2]);
    let rax = Register { number: "0".to_string(), value: Some("0x1".to_string()) };
    app.registers = vec![("rax".to_string(), Some(rax), vec![1])];
    app.instructions = vec![Asm {
        address: 7,
        inst: "nop".to_string(),
        func_name: Some("main".to_string()),
        offset: 0,
    }];
    type_text(&mut app, "hexdump 1 2");
    for code in [
        KeyCode::Enter,
        KeyCode::Up,
        KeyCode::Down,
        KeyCode::F(5),
        KeyCode::Esc,
        KeyCode::Char('j'),
        KeyCode::Tab,
        KeyCode::Char('J'),
        KeyCode::Enter,
    ] {
        app.handle_key(key(code), None);
    }
    assert_eq!(app.memory_map.as_ref().unwrap().len(), 1);
    assert_eq!(app.output, vec!["a", "b"]);
    assert_eq!(app.hexdump, Some((16, vec![1, 2, 3])));
    assert_eq!(app.current_pc, 7);
    assert_eq!(app.register_names, vec!["rax"]);
    assert_eq!(app.stack[&1], vec![2]);
    assert_eq!((app.registers.len(), app.instructions.len()), (1, 1));
    assert_eq!(app.registers[0].0, "rax");
    assert_eq!(app.registers[0].2, vec![1]);
    assert_eq!((app.instructions[0].address, app.instructions[0].inst.as_str()), (7, "nop"));
    assert_eq!(app.next_write.len(), 2);
    assert_eq!(app.written.len(), 2);
}

#[test]
fn the_input_mode_changes_by_i_and_esc() {
    let mut app = app();
    for code in [KeyCode::Esc, KeyCode::Tab, KeyCode::Enter, KeyCode::F(2), KeyCode::Char('x')] {
        app.handle_key(key(code), None);
        assert_eq!(app.input_mode, InputMode::Normal);
    }
    app.handle_key(key(KeyCode::Char('i')), None);
    for code in [KeyCode::Char('i'), KeyCode::Enter, KeyCode::F(2), KeyCode::Other] {
        app.handle_key(key(code), None);
        assert_eq!(app.input_mode, InputMode::Editing);
    }
    app.handle_key(key(KeyCode::Esc), None);
    assert_eq!(app.input_mode, InputMode::Normal);
}

#[test]
fn an_entered_line_comes_back() {
    let mut app = editing();
    enter(&mut app, "info registers");
    assert_eq!(pending_line(&app), Some("info registers".to_string()));
    app.handle_key(key(KeyCode::Up), None);
    assert_eq!(app.input.value(), "info registers");
    assert_eq!(app.input.cursor, 14);
}

#[test]
fn backspace_and_releases_while_editing() {
    let mut app = editing();
    type_text(&mut app, "ab");
    app.handle_key(key(KeyCode::Backspace), None);
    assert_eq!((app.input.value(), app.input.cursor), ("a", 1));
    let release = |code| KeyEvent { code, modifiers: 0, kind: KeyEventKind::Release };
    app.handle_key(release(KeyCode::Char('x')), None);
    app.handle_key(release(KeyCode::Backspace), None);
    assert_eq!((app.input.value(), app.input.cursor), ("a", 1));
}

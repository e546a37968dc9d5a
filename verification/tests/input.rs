use crossterm::event as ct;
use heretek::input::Input;
use heretek::keys::{KeyCode, KeyEvent, KeyEventKind};
use tui_input::backend::crossterm::EventHandler;

fn press(code: KeyCode, modifiers: u8) -> KeyEvent {
    KeyEvent { code, modifiers, kind: KeyEventKind::Press }
}

#[test]
fn new_lines_end_at_the_cursor() {
    let mut input = Input::new("h\u{e9}llo".to_string());
    assert_eq!(input.value(), "h\u{e9}llo");
    assert_eq!(input.cursor, 5);
    input.reset();
    assert_eq!(input.value(), "");
    assert_eq!(input.cursor, 0);
}

#[test]
fn typing_inserts_at_the_cursor() {
    let mut input = Input::new("ac".to_string());
    input.handle_event(press(KeyCode::Left, 0));
    input.handle_event(press(KeyCode::Char('b'), 0));
    assert_eq!((input.value(), input.cursor), ("abc", 2));
    input.handle_event(press(KeyCode::Char('B'), 1));
    assert_eq!((input.value(), input.cursor), ("abBc", 3));
    input.handle_event(press(KeyCode::Backspace, 0));
    assert_eq!((input.value(), input.cursor), ("abc", 2));
}

#[test]
fn releases_change_nothing() {
    let mut input = Input::new("a".to_string());
    input.handle_event(KeyEvent {
        code: KeyCode::Char('b'),
        modifiers: 0,
        kind: KeyEventKind::Release,
    });
    assert_eq!((input.value(), input.cursor), ("a", 1));
    input.handle_event(KeyEvent {
        code: KeyCode::Char('b'),
        modifiers: 0,
        kind: KeyEventKind::Repeat,
    });
    assert_eq!((input.value(), input.cursor), ("ab", 2));
}

#[test]
fn every_key_edits_as_in_the_line_editor() {
    let keys = [
        (KeyCode::Char('a'), ct::KeyCode::Char('a')),
        (KeyCode::Char('b'), ct::KeyCode::Char('b')),
        (KeyCode::Char('d'), ct::KeyCode::Char('d')),
        (KeyCode::Char('e'), ct::KeyCode::Char('e')),
        (KeyCode::Char('f'), ct::KeyCode::Char('f')),
        (KeyCode::Char('h'), ct::KeyCode::Char('h')),
        (KeyCode::Char('k'), ct::KeyCode::Char('k')),
        (KeyCode::Char('u'), ct::KeyCode::Char('u')),
        (KeyCode::Char('w'), ct::KeyCode::Char('w')),
        (KeyCode::Char('\u{e9}'), ct::KeyCode::Char('\u{e9}')),
        (KeyCode::F(9), ct::KeyCode::F(9)),
        (KeyCode::Tab, ct::KeyCode::Tab),
        (KeyCode::Enter, ct::KeyCode::Enter),
        (KeyCode::Esc, ct::KeyCode::Esc),
        (KeyCode::Up, ct::KeyCode::Up),
        (KeyCode::Down, ct::KeyCode::Down),
        (KeyCode::Left, ct::KeyCode::Left),
        (KeyCode::Right, ct::KeyCode::Right),
        (KeyCode::Home, ct::KeyCode::Home),
        (KeyCode::End, ct::KeyCode::End),
        (KeyCode::Backspace, ct::KeyCode::Backspace),
        (KeyCode::Delete, ct::KeyCode::Delete),
        (KeyCode::Other, ct::KeyCode::PageUp),
        (KeyCode::Other, ct::KeyCode::Insert),
        (KeyCode::Other, ct::KeyCode::BackTab),
    ];
    let kinds = [
        (KeyEventKind::Press, ct::KeyEventKind::Press),
        (KeyEventKind::Repeat, ct::KeyEventKind::Repeat),
        (KeyEventKind::Release, ct::KeyEventKind::Release),
    ];
    for (code, outside_code) in keys {
        for (kind, outside_kind) in kinds {
            for modifiers in 0..64u8 {
                for cursor in [0, 3, 6, 11] {
                    let mut input = Input { value: "one two t\u{e9}n".to_string(), cursor };
                    input.handle_event(KeyEvent { code, modifiers, kind });
                    let mut expected =
                        tui_input::Input::new("one two t\u{e9}n".to_string()).with_cursor(cursor);
                    expected.handle_event(&ct::Event::Key(ct::KeyEvent::new_with_kind(
                        outside_code,
                        ct::KeyModifiers::from_bits_truncate(modifiers),
                        outside_kind,
                    )));
                    assert_eq!(input.value(), expected.value());
                    assert_eq!(input.cursor, expected.cursor());
                }
            }
        }
    }
}

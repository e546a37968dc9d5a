use heretek::mode::{InputMode, Mode};
use heretek::title::{heading, legend, status, tabs};

#[test]
fn modes_follow_each_other() {
    let order = [
        Mode::All,
        Mode::OnlyRegister,
        Mode::OnlyStack,
        Mode::OnlyInstructions,
        Mode::OnlyOutput,
        Mode::OnlyMapping,
        Mode::OnlyHexdump,
    ];
    for (i, mode) in order.iter().enumerate() {
        assert_eq!(mode.index(), i);
        assert_eq!(mode.next(), order[(i + 1) % 7]);
    }
    let mut mode = Mode::OnlyStack;
    for _ in 0..7 {
        mode = mode.next();
    }
    assert_eq!(mode, Mode::OnlyStack);
}

#[test]
fn tabs_have_labels() {
    let labels = tabs();
    assert_eq!(
        labels,
        vec![
            "F1 Main",
            "F2 Registers",
            "F3 Stack",
            "F4 Instructions",
            "F5 Output",
            "F6 Mapping",
            "F7 Hexdump"
        ]
    );
    assert_eq!(labels[Mode::OnlyOutput.index()], "F5 Output");
    for (i, label) in labels.iter().enumerate() {
        assert!(label.starts_with(&format!("F{} ", i + 1)));
    }
}

#[test]
fn title_texts() {
    assert_eq!(legend(), vec!["Heap", "Stack", "Code", "String", "Asm"]);
    assert_eq!(heading("gdb", "1.2.3").concat(), "|gdb-v1.2.3|");
    assert_eq!(heading("a", "b"), vec!["|", "a", "-", "v", "b", "|"]);
}

#[test]
fn hints() {
    assert_eq!(status(InputMode::Normal), "Press q to exit, i to enter input");
    assert_eq!(
        status(InputMode::Editing),
        "Press Esc to stop editing, Enter to send input"
    );
}

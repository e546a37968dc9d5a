//! Keys, and the commands that they give.
use vstd::prelude::*;

use crate::mode::{InputMode, Mode, MODES};

verus! {

/// A key. `Other` is any key that neither gives a command nor edits the input line.
#[derive(Debug, Clone, Copy, PartialEq, Eq, Structural)]
pub enum KeyCode {
    Char(char),
    F(u8),
    Tab,
    Enter,
    Esc,
    Up,
    Down,
    Left,
    Right,
    Home,
    End,
    Backspace,
    Delete,
    Other,
}

/// What happened to a key.
#[derive(Debug, Clone, Copy, PartialEq, Eq, Structural)]
pub enum KeyEventKind {
    Press,
    Repeat,
    Release,
}

/// A key event of the terminal.
#[derive(Debug, Clone, Copy, PartialEq, Eq, Structural)]
pub struct KeyEvent {
    pub code: KeyCode,
    /// The modifier keys held, one bit each.
    pub modifiers: u8,
    pub kind: KeyEventKind,
}

/// The bit of the shift key in `KeyEvent::modifiers`.
pub const SHIFT: u8 = 1;

impl KeyEvent {
    /// Whether the key went down with no modifier but shift.
    pub open spec fn is_plain(self) -> bool {
        (self.modifiers == 0 || self.modifiers == SHIFT) && self.kind != KeyEventKind::Release
    }
}

/// The lists that can be scrolled.
#[derive(Debug, Clone, Copy, PartialEq, Eq, Structural)]
pub enum Pane {
    Output,
    Mapping,
    Hexdump,
}

/// What a key asks for.
#[derive(Debug, Clone, Copy, PartialEq, Eq, Structural)]
pub enum Command {
    StartEditing,
    StopEditing,
    Quit,
    NextMode,
    Show(Mode),
    ScrollDown(Pane, usize),
    ScrollUp(Pane, usize),
    Submit,
    Newer,
    Older,
    Edit,
    Ignore,
}

/// The list that a mode shows on the whole screen, if any.
pub open spec fn pane_of(mode: Mode) -> Option<Pane> {
    match mode {
        Mode::OnlyOutput => Some(Pane::Output),
        Mode::OnlyMapping => Some(Pane::Mapping),
        Mode::OnlyHexdump => Some(Pane::Hexdump),
        _ => None,
    }
}

/// The lines that `J` and `K` scroll by.
pub const PAGE: usize = 50;

/// What a key asks for. Function keys, Enter and the arrows up and down do the same in both
/// input modes; all other keys are commands in one mode and editing in the other.
pub open spec fn command_of(input_mode: InputMode, code: KeyCode, mode: Mode) -> Command {
    match code {
        KeyCode::F(n) if 1 <= n <= MODES => Command::Show(Mode::at(n - 1)),
        KeyCode::Enter => Command::Submit,
        KeyCode::Down => Command::Newer,
        KeyCode::Up => Command::Older,
        _ => match input_mode {
            InputMode::Editing => if code == KeyCode::Esc {
                Command::StopEditing
            } else {
                Command::Edit
            },
            InputMode::Normal => match (code, pane_of(mode)) {
                (KeyCode::Char('i'), _) => Command::StartEditing,
                (KeyCode::Char('q'), _) => Command::Quit,
                (KeyCode::Tab, _) => Command::NextMode,
                (KeyCode::Char('j'), Some(pane)) => Command::ScrollDown(pane, 1),
                (KeyCode::Char('k'), Some(pane)) => Command::ScrollUp(pane, 1),
                (KeyCode::Char('J'), Some(pane)) => Command::ScrollDown(pane, PAGE),
                (KeyCode::Char('K'), Some(pane)) => Command::ScrollUp(pane, PAGE),
                _ => Command::Ignore,
            },
        },
    }
}

/// What a key asks for.
pub fn command(input_mode: InputMode, code: KeyCode, mode: Mode) -> (r: Command)
    ensures
        r == command_of(input_mode, code, mode),
{
    match (input_mode, code, mode) {
        (InputMode::Normal, KeyCode::Char('i'), _) => Command::StartEditing,
        (InputMode::Normal, KeyCode::Char('q'), _) => Command::Quit,
        (InputMode::Normal, KeyCode::Tab, _) => Command::NextMode,
        (_, KeyCode::F(1), _) => Command::Show(Mode::All),
        (_, KeyCode::F(2), _) => Command::Show(Mode::OnlyRegister),
        (_, KeyCode::F(3), _) => Command::Show(Mode::OnlyStack),
        (_, KeyCode::F(4), _) => Command::Show(Mode::OnlyInstructions),
        (_, KeyCode::F(5), _) => Command::Show(Mode::OnlyOutput),
        (_, KeyCode::F(6), _) => Command::Show(Mode::OnlyMapping),
        (_, KeyCode::F(7), _) => Command::Show(Mode::OnlyHexdump),
        (InputMode::Editing, KeyCode::Esc, _) => Command::StopEditing,
        (InputMode::Normal, KeyCode::Char('j'), Mode::OnlyOutput) => Command::ScrollDown(
            Pane::Output,
            1,
        ),
        (InputMode::Normal, KeyCode::Char('k'), Mode::OnlyOutput) => Command::ScrollUp(
            Pane::Output,
            1,
        ),
        (InputMode::Normal, KeyCode::Char('J'), Mode::OnlyOutput) => Command::ScrollDown(
            Pane::Output,
            PAGE,
        ),
        (InputMode::Normal, KeyCode::Char('K'), Mode::OnlyOutput) => Command::ScrollUp(
            Pane::Output,
            PAGE,
        ),
        (InputMode::Normal, KeyCode::Char('j'), Mode::OnlyMapping) => Command::ScrollDown(
            Pane::Mapping,
            1,
        ),
        (InputMode::Normal, KeyCode::Char('k'), Mode::OnlyMapping) => Command::ScrollUp(
            Pane::Mapping,
            1,
        ),
        (InputMode::Normal, KeyCode::Char('J'), Mode::OnlyMapping) => Command::ScrollDown(
            Pane::Mapping,
            PAGE,
        ),
        (InputMode::Normal, KeyCode::Char('K'), Mode::OnlyMapping) => Command::ScrollUp(
            Pane::Mapping,
            PAGE,
        ),
        (InputMode::Normal, KeyCode::Char('j'), Mode::OnlyHexdump) => Command::ScrollDown(
            Pane::Hexdump,
            1,
        ),
        (InputMode::Normal, KeyCode::Char('k'), Mode::OnlyHexdump) => Command::ScrollUp(
            Pane::Hexdump,
            1,
        ),
        (InputMode::Normal, KeyCode::Char('J'), Mode::OnlyHexdump) => Command::ScrollDown(
            Pane::Hexdump,
            PAGE,
        ),
        (InputMode::Normal, KeyCode::Char('K'), Mode::OnlyHexdump) => Command::ScrollUp(
            Pane::Hexdump,
            PAGE,
        ),
        (_, KeyCode::Enter, _) => Command::Submit,
        (_, KeyCode::Down, _) => Command::Newer,
        (_, KeyCode::Up, _) => Command::Older,
        (InputMode::Editing, _, _) => Command::Edit,
        _ => Command::Ignore,
    }
}

/// The function key with the number of a tab shows that tab, in either input mode and from any
/// other tab.
pub proof fn law_function_keys_select_tabs(input_mode: InputMode, mode: Mode, wanted: Mode)
    ensures
        command_of(input_mode, KeyCode::F((wanted.position() + 1) as u8), mode) == Command::Show(
            wanted,
        ),
{
}

/// While the input line is edited, no printable key gives a command; it reaches the line.
pub proof fn law_editing_takes_every_character(c: char, mode: Mode)
    ensures
        command_of(InputMode::Editing, KeyCode::Char(c), mode) == Command::Edit,
{
}

/// While the input line is not edited, no key changes it as an editing key.
pub proof fn law_normal_mode_edits_nothing(code: KeyCode, mode: Mode)
    ensures
        command_of(InputMode::Normal, code, mode) != Command::Edit,
{
}

/// Which keys give which command, and that no other key gives it.
pub proof fn law_commands(input_mode: InputMode, code: KeyCode, mode: Mode)
    ensures
        ({
            let c = command_of(input_mode, code, mode);
            let normal = input_mode == InputMode::Normal;
            let tab_key = code matches KeyCode::F(n) && 1 <= n <= 7;
            &&& c == Command::StartEditing <==> normal && code == KeyCode::Char('i')
            &&& c == Command::StopEditing <==> !normal && code == KeyCode::Esc
            &&& c == Command::Quit <==> normal && code == KeyCode::Char('q')
            &&& c == Command::NextMode <==> normal && code == KeyCode::Tab
            &&& c == Command::Submit <==> code == KeyCode::Enter
            &&& c == Command::Newer <==> code == KeyCode::Down
            &&& c == Command::Older <==> code == KeyCode::Up
            &&& c is Show <==> tab_key
            &&& c == Command::Edit <==> !normal && !tab_key && code != KeyCode::Esc && code
                != KeyCode::Enter && code != KeyCode::Down && code != KeyCode::Up
            &&& code == KeyCode::F(1) ==> c == Command::Show(Mode::All)
            &&& code == KeyCode::F(2) ==> c == Command::Show(Mode::OnlyRegister)
            &&& code == KeyCode::F(3) ==> c == Command::Show(Mode::OnlyStack)
            &&& code == KeyCode::F(4) ==> c == Command::Show(Mode::OnlyInstructions)
            &&& code == KeyCode::F(5) ==> c == Command::Show(Mode::OnlyOutput)
            &&& code == KeyCode::F(6) ==> c == Command::Show(Mode::OnlyMapping)
            &&& code == KeyCode::F(7) ==> c == Command::Show(Mode::OnlyHexdump)
        }),
{
}

/// `j` and `k` scroll by one item, `J` and `K` by fifty, the list that fills the screen, in normal
/// mode only; nothing else scrolls.
pub proof fn law_scroll_keys(
    input_mode: InputMode,
    code: KeyCode,
    mode: Mode,
    pane: Pane,
    n: usize,
)
    ensures
        ({
            let c = command_of(input_mode, code, mode);
            let shown = input_mode == InputMode::Normal && ((mode == Mode::OnlyOutput && pane
                == Pane::Output) || (mode == Mode::OnlyMapping && pane == Pane::Mapping) || (mode
                == Mode::OnlyHexdump && pane == Pane::Hexdump));
            &&& c == Command::ScrollDown(pane, n) <==> shown && ((code == KeyCode::Char('j') && n
                == 1) || (code == KeyCode::Char('J') && n == 50))
            &&& c == Command::ScrollUp(pane, n) <==> shown && ((code == KeyCode::Char('k') && n
                == 1) || (code == KeyCode::Char('K') && n == 50))
        }),
{
}

/// A key is plain where it went down with no modifier or with shift alone.
pub proof fn law_plain_keys(key: KeyEvent)
    ensures
        key.is_plain() <==> (key.modifiers == 0 || key.modifiers == 1) && (key.kind
            == KeyEventKind::Press || key.kind == KeyEventKind::Repeat),
{
}

} // verus!

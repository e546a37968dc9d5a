//! The input line.
use crossterm::event::Event;
use crossterm::event::KeyCode::{
    Backspace, Char, Delete, Down, End, Enter, Esc, Home, Left, Null, Right, Tab, Up, F,
};
use crossterm::event::KeyEventKind::{Press, Release, Repeat};
use crossterm::event::{KeyEvent as TerminalKey, KeyModifiers};
use tui_input::backend::crossterm::EventHandler;
use tui_input::Input as LineEditor;
use vstd::prelude::*;

use crate::keys::{KeyCode, KeyEvent, KeyEventKind};

verus! {

/// The text of the input line, and the number of characters before the cursor.
#[derive(Debug)]
pub struct Input {
    pub value: String,
    pub cursor: usize,
}

/// The model of the input line.
#[verifier::ext_equal]
pub struct InputView {
    pub value: Seq<char>,
    pub cursor: int,
}

impl View for Input {
    type V = InputView;

    open spec fn view(&self) -> InputView {
        InputView { value: self.value@, cursor: self.cursor as int }
    }
}

impl InputView {
    /// The cursor lies in the text or at its end.
    pub open spec fn wf(self) -> bool {
        0 <= self.cursor <= self.value.len()
    }

    /// The empty line.
    pub open spec fn empty() -> InputView {
        InputView { value: Seq::empty(), cursor: 0 }
    }

    /// A line that holds a text, with the cursor at its end.
    pub open spec fn holding(value: Seq<char>) -> InputView {
        InputView { value, cursor: value.len() as int }
    }

    /// The line with a character inserted before the cursor.
    pub open spec fn typed(self, c: char) -> InputView {
        InputView { value: self.value.insert(self.cursor, c), cursor: self.cursor + 1 }
    }

    /// The line without the character before the cursor.
    pub open spec fn erased(self) -> InputView {
        InputView { value: self.value.remove(self.cursor - 1), cursor: self.cursor - 1 }
    }
}

/// The text and the cursor after the line editor of the crate `tui-input` has handled a key.
pub uninterp spec fn edited(value: Seq<char>, cursor: usize, key: KeyEvent) -> (Seq<char>, usize);

/// Calls `tui_input::backend::crossterm::EventHandler::handle_event` on a line with the given
/// text and cursor. A key that the line editor does not know is handed on as the null key.
///
/// The text and the cursor that come out depend on the arguments alone and have the name
/// `edited`. The cursor stays in the text. With the cursor in the text, a character typed
/// without a modifier or with shift is inserted before the cursor, backspace takes away the
/// character before the cursor, and the release of a key changes nothing.
#[verifier::external_body]
fn edit(value: &str, cursor: usize, key: KeyEvent) -> (r: (String, usize))
    ensures
        (r.0@, r.1) == edited(value@, cursor, key),
        r.1 <= r.0@.len(),
        cursor <= value@.len() && key.is_plain() ==> (key.code matches KeyCode::Char(c) ==> r.0@
            == value@.insert(cursor as int, c) && r.1 == cursor + 1),
        0 < cursor <= value@.len() && key.code == KeyCode::Backspace && key.modifiers == 0
            && key.kind != KeyEventKind::Release ==> r.0@ == value@.remove(cursor - 1) && r.1
            == cursor - 1,
        cursor <= value@.len() && key.kind == KeyEventKind::Release ==> r.0@ == value@ && r.1
            == cursor,
{
    let code = match key.code {
        KeyCode::Char(c) => Char(c), KeyCode::F(n) => F(n), KeyCode::Tab => Tab,
        KeyCode::Enter => Enter, KeyCode::Esc => Esc, KeyCode::Up => Up, KeyCode::Down => Down,
        KeyCode::Left => Left, KeyCode::Right => Right, KeyCode::Home => Home,
        KeyCode::End => End, KeyCode::Backspace => Backspace, KeyCode::Delete => Delete,
        KeyCode::Other => Null,
    };
    let kind = match key.kind {
        KeyEventKind::Press => Press, KeyEventKind::Repeat => Repeat,
        KeyEventKind::Release => Release,
    };
    let mut input = LineEditor::from(value).with_cursor(cursor);
    input.handle_event(&Event::Key(TerminalKey::new_with_kind(
        code, KeyModifiers::from_bits_truncate(key.modifiers), kind)));
    (input.value().to_owned(), input.cursor())
}

impl Input {
    /// A line that holds `value`, with the cursor at its end.
    pub fn new(value: String) -> (r: Self)
        ensures
            r@ == InputView::holding(value@),
    {
        let cursor = value.as_str().unicode_len();
        Input { value, cursor }
    }

    /// Empties the line.
    pub fn reset(&mut self)
        ensures
            final(self)@ == InputView::empty(),
    {
        self.cursor = 0;
        self.value = String::new();
    }

    /// The text of the line.
    pub fn value(&self) -> (r: &str)
        ensures
            r@ == self@.value,
    {
        self.value.as_str()
    }

    /// Hands a key to the line editor.
    pub fn handle_event(&mut self, key: KeyEvent)
        ensures
            (final(self)@.value, final(self).cursor) == edited(
                old(self)@.value,
                old(self).cursor,
                key,
            ),
            final(self)@.wf(),
            old(self)@.wf() && key.is_plain() ==> (key.code matches KeyCode::Char(c)
                ==> final(self)@ == old(self)@.typed(c)),
            old(self)@.wf() && old(self)@.cursor > 0 && key.code == KeyCode::Backspace
                && key.modifiers == 0 && key.kind != KeyEventKind::Release ==> final(self)@
                == old(self)@.erased(),
            old(self)@.wf() && key.kind == KeyEventKind::Release ==> final(self)@ == old(self)@,
    {
        let (value, cursor) = edit(self.value.as_str(), self.cursor, key);
        self.value = value;
        self.cursor = cursor;
    }
}

/// Erasing undoes typing.
pub proof fn law_erasing_undoes_typing(line: InputView, c: char)
    requires
        line.wf(),
    ensures
        line.typed(c).wf(),
        line.typed(c).erased() == line,
{
    assert(line.typed(c).erased() =~= line);
}

/// Typing puts the character where the cursor was, moves what stood behind it by one, and leaves
/// the rest.
pub proof fn law_typing(line: InputView, c: char)
    requires
        0 <= line.cursor <= line.value.len(),
    ensures
        line.typed(c).value == line.value.subrange(0, line.cursor) + seq![c]
            + line.value.subrange(line.cursor, line.value.len() as int),
        line.typed(c).cursor == line.cursor + 1,
{
    assert(line.typed(c).value =~= line.value.subrange(0, line.cursor) + seq![c]
        + line.value.subrange(line.cursor, line.value.len() as int));
}

/// A line that is given a text holds all of it and no more, with the cursor behind it; an emptied
/// line holds nothing.
pub proof fn law_given_lines(value: Seq<char>)
    ensures
        InputView::holding(value).value == value,
        InputView::holding(value).cursor == value.len(),
        InputView::empty().value.len() == 0,
        InputView::empty().cursor == 0,
{
}

/// The model of an input line shows its text and its cursor.
pub proof fn law_input_view(input: Input)
    ensures
        input@.value == input.value@,
        input@.cursor == input.cursor,
        input@.wf() <==> input.cursor <= input.value@.len(),
{
}

} // verus!

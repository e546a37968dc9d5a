//! What a key does.
use vstd::prelude::*;

use crate::app::{App, AppView};
use crate::history::{key_down, key_up, newer, older};
use crate::input::{edited, InputView};
use crate::keys::{command, command_of, Command, KeyCode, KeyEvent, KeyEventKind, Pane, PAGE};
use crate::line::{
    after_enter, can_enter, effect_of, expand, expanded, is_runnable, key_enter, pending,
    pending_line, runnable, LineEffect, LineEffectView,
};
use crate::mi::Written;
use crate::mode::{InputMode, Mode};
use crate::path::str_view;
use crate::scroll::{can_scroll_down, scroll_down, scroll_up, scrolled_up};

verus! {

/// What is left to do after a key.
#[derive(Debug)]
pub enum KeyEffect {
    /// Nothing.
    Continue,
    /// The front end ends.
    Quit,
    /// A line was entered.
    Line(LineEffect),
    /// The line to enter cannot be run.
    Refused,
}

/// The model of `KeyEffect`.
pub enum KeyEffectView {
    Continue,
    Quit,
    Line(LineEffectView),
    Refused,
}

impl View for KeyEffect {
    type V = KeyEffectView;

    open spec fn view(&self) -> KeyEffectView {
        match self {
            KeyEffect::Continue => KeyEffectView::Continue,
            KeyEffect::Quit => KeyEffectView::Quit,
            KeyEffect::Line(effect) => KeyEffectView::Line(effect@),
            KeyEffect::Refused => KeyEffectView::Refused,
        }
    }
}

/// The number of items in a list; `None` where there is no list yet.
pub open spec fn pane_len(a: AppView, pane: Pane) -> Option<int> {
    match pane {
        Pane::Output => Some(a.output.len() as int),
        Pane::Mapping => match a.memory_map {
            Some(map) => Some(map.len() as int),
            None => None,
        },
        Pane::Hexdump => match a.hexdump {
            Some(dump) => Some(dump.1@.len() as int),
            None => None,
        },
    }
}

/// The first item of a list that is shown.
pub open spec fn pane_scroll(a: AppView, pane: Pane) -> int {
    match pane {
        Pane::Output => a.output_scroll,
        Pane::Mapping => a.memory_map_scroll,
        Pane::Hexdump => a.hexdump_scroll,
    }
}

/// The state with a list, and its scroll bar, moved to an item.
pub open spec fn moved(a: AppView, pane: Pane, scroll: int) -> AppView {
    match pane {
        Pane::Output => AppView { output_scroll: scroll, output_bar: scroll, ..a },
        Pane::Mapping => AppView { memory_map_scroll: scroll, memory_map_bar: scroll, ..a },
        Pane::Hexdump => AppView { hexdump_scroll: scroll, hexdump_bar: scroll, ..a },
    }
}

/// The state after scrolling a list down. A list that is not there does not move.
pub open spec fn after_scroll_down(a: AppView, pane: Pane, n: int) -> AppView {
    match pane_len(a, pane) {
        Some(len) if can_scroll_down(pane_scroll(a, pane), len) => moved(
            a,
            pane,
            pane_scroll(a, pane) + n,
        ),
        _ => a,
    }
}

/// The state after scrolling a list up.
pub open spec fn after_scroll_up(a: AppView, pane: Pane, n: int) -> AppView {
    moved(a, pane, scrolled_up(pane_scroll(a, pane), n))
}

/// The state after the line editor has handled a key.
pub open spec fn after_edit(a: AppView, key: KeyEvent) -> AppView {
    let (value, cursor) = edited(a.input.value, a.input.cursor as usize, key);
    AppView { input: InputView { value, cursor: cursor as int }, ..a }
}

/// The state after a key.
pub open spec fn after_key(a: AppView, key: KeyEvent, home: Option<Seq<char>>) -> AppView {
    match command_of(a.input_mode, key.code, a.mode) {
        Command::StartEditing => AppView { input_mode: InputMode::Editing, ..a },
        Command::StopEditing => AppView { input_mode: InputMode::Normal, ..a },
        Command::Quit => a,
        Command::NextMode => AppView { mode: a.mode.following(), ..a },
        Command::Show(mode) => AppView { mode, ..a },
        Command::ScrollDown(pane, n) => after_scroll_down(a, pane, n as int),
        Command::ScrollUp(pane, n) => after_scroll_up(a, pane, n as int),
        Command::Submit => if can_enter(a, home) {
            after_enter(a, home)
        } else {
            a
        },
        Command::Newer => newer(a),
        Command::Older => older(a),
        Command::Edit => after_edit(a, key),
        Command::Ignore => a,
    }
}

/// What is left to do after a key.
pub open spec fn effect_of_key(
    a: AppView,
    key: KeyEvent,
    home: Option<Seq<char>>,
) -> KeyEffectView {
    match command_of(a.input_mode, key.code, a.mode) {
        Command::Quit => KeyEffectView::Quit,
        Command::Submit => match pending(a) {
            Some(line) => if can_enter(a, home) {
                KeyEffectView::Line(effect_of(expanded(line, a.memory_map)))
            } else {
                KeyEffectView::Refused
            },
            None => KeyEffectView::Continue,
        },
        _ => KeyEffectView::Continue,
    }
}

impl App {
    /// Scrolls a list down by `n` items.
    pub fn scroll_pane_down(&mut self, pane: Pane, n: usize)
        requires
            old(self)@.lists_fit(),
            n <= PAGE,
        ensures
            final(self)@ == after_scroll_down(old(self)@, pane, n as int),
            old(self)@.wf() ==> final(self)@.wf(),
    {
        match pane {
            Pane::Output => {
                let len = self.output.len();
                scroll_down(n, &mut self.output_scroll, &mut self.output_scroll_state, len);
            },
            Pane::Mapping => {
                if let Some(map) = &self.memory_map {
                    let len = map.len();
                    scroll_down(
                        n,
                        &mut self.memory_map_scroll,
                        &mut self.memory_map_scroll_state,
                        len,
                    );
                }
            },
            Pane::Hexdump => {
                if let Some(dump) = &self.hexdump {
                    let len = dump.1.len();
                    scroll_down(n, &mut self.hexdump_scroll, &mut self.hexdump_scroll_state, len);
                }
            },
        }
        assert(self@ =~= after_scroll_down(old(self)@, pane, n as int));
    }

    /// Scrolls a list up by `n` items.
    pub fn scroll_pane_up(&mut self, pane: Pane, n: usize)
        ensures
            final(self)@ == after_scroll_up(old(self)@, pane, n as int),
            old(self)@.wf() ==> final(self)@.wf(),
    {
        match pane {
            Pane::Output => {
                scroll_up(n, &mut self.output_scroll, &mut self.output_scroll_state);
            },
            Pane::Mapping => {
                scroll_up(n, &mut self.memory_map_scroll, &mut self.memory_map_scroll_state);
            },
            Pane::Hexdump => {
                scroll_up(n, &mut self.hexdump_scroll, &mut self.hexdump_scroll_state);
            },
        }
        assert(self@ =~= after_scroll_up(old(self)@, pane, n as int));
    }

    /// Handles a key. `home` is the home directory, where there is one.
    pub fn handle_key(&mut self, key: KeyEvent, home: Option<&str>) -> (r: KeyEffect)
        requires
            old(self)@.lists_fit(),
        ensures
            r@ == effect_of_key(old(self)@, key, str_view(home)),
            final(self)@ == after_key(old(self)@, key, str_view(home)),
            old(self)@.wf() ==> final(self)@.wf(),
            final(self)@.lists_fit(),
            old(self)@.wf() && old(self)@.input_mode == InputMode::Editing && key.is_plain() ==> (
            key.code matches KeyCode::Char(c) ==> final(self)@.input == old(self)@.input.typed(c)),
            old(self)@.wf() && old(self)@.input_mode == InputMode::Editing
                && old(self)@.input.cursor > 0 && key.code == KeyCode::Backspace
                && key.modifiers == 0 && key.kind != KeyEventKind::Release ==> final(self)@.input
                == old(self)@.input.erased(),
            old(self)@.wf() && key.kind == KeyEventKind::Release && command_of(
                old(self)@.input_mode,
                key.code,
                old(self)@.mode,
            ) == Command::Edit ==> final(self)@ == old(self)@,
    {
        match command(self.input_mode, key.code, self.mode) {
            Command::StartEditing => {
                self.input_mode = InputMode::Editing;
            },
            Command::StopEditing => {
                self.input_mode = InputMode::Normal;
            },
            Command::Quit => {
                return KeyEffect::Quit;
            },
            Command::NextMode => {
                self.mode = self.mode.next();
            },
            Command::Show(mode) => {
                self.mode = mode;
            },
            Command::ScrollDown(pane, n) => {
                self.scroll_pane_down(pane, n);
            },
            Command::ScrollUp(pane, n) => {
                self.scroll_pane_up(pane, n);
            },
            Command::Submit => {
                if let Some(line) = pending_line(self) {
                    let line = expand(self, line.as_str());
                    if !runnable(line.as_str(), home) {
                        return KeyEffect::Refused;
                    }
                }
                return match key_enter(self, home) {
                    Some(effect) => KeyEffect::Line(effect),
                    None => KeyEffect::Continue,
                };
            },
            Command::Newer => {
                key_down(self);
            },
            Command::Older => {
                key_up(self);
            },
            Command::Edit => {
                self.input.handle_event(key);
            },
            Command::Ignore => {},
        }
        assert(self@ =~= after_key(old(self)@, key, str_view(home)));
        KeyEffect::Continue
    }
}

/// Only `q` ends the front end, and only while the input line is not edited.
pub proof fn law_only_q_quits(a: AppView, key: KeyEvent, home: Option<Seq<char>>)
    ensures
        effect_of_key(a, key, home) == KeyEffectView::Quit <==> a.input_mode == InputMode::Normal
            && key.code == KeyCode::Char('q'),
{
}

/// No key changes what was learned from gdb.
pub proof fn law_keys_leave_debugger_data(a: AppView, key: KeyEvent, home: Option<Seq<char>>)
    ensures
        ({
            let b = after_key(a, key, home);
            &&& b.thirty_two_bit == a.thirty_two_bit
            &&& b.endian == a.endian
            &&& b.memory_map == a.memory_map
            &&& b.current_pc == a.current_pc
            &&& b.output == a.output
            &&& b.stream_output_prompt == a.stream_output_prompt
            &&& b.register_changed == a.register_changed
            &&& b.register_names == a.register_names
            &&& b.registers == a.registers
            &&& b.stack == a.stack
            &&& b.instructions == a.instructions
            &&& b.hexdump == a.hexdump
        }),
{
}

/// Each text that a key queues for gdb comes with a note that its answer is awaited, and a key
/// queues at most one.
pub proof fn law_queued_reads_are_awaited(a: AppView, key: KeyEvent, home: Option<Seq<char>>)
    ensures
        ({
            let b = after_key(a, key, home);
            ||| b.next_write == a.next_write && b.written == a.written
            ||| b.next_write.len() == a.next_write.len() + 1 && b.next_write.drop_last()
                == a.next_write && b.written == a.written.push(Written::Memory)
        }),
{
    let b = after_key(a, key, home);
    if b.next_write.len() != a.next_write.len() {
        assert(b.next_write.drop_last() =~= a.next_write);
    }
}

/// The input mode changes only by `i` and by Esc.
pub proof fn law_input_mode_changes(a: AppView, key: KeyEvent, home: Option<Seq<char>>)
    ensures
        after_key(a, key, home).input_mode == (if key.code == KeyCode::Char('i') {
            InputMode::Editing
        } else if key.code == KeyCode::Esc {
            InputMode::Normal
        } else {
            a.input_mode
        }),
{
}

/// The state after a row of keys.
pub open spec fn after_keys(a: AppView, keys: Seq<KeyEvent>, home: Option<Seq<char>>) -> AppView
    decreases keys.len(),
{
    if keys.len() == 0 {
        a
    } else {
        after_key(after_keys(a, keys.drop_last(), home), keys.last(), home)
    }
}

/// Whatever keys are pressed, the history never holds more lines than its capacity, and the
/// capacity stays what it was.
pub proof fn law_history_is_bounded(a: AppView, keys: Seq<KeyEvent>, home: Option<Seq<char>>)
    requires
        0 < a.sent_capacity,
        a.sent.len() <= a.sent_capacity,
    ensures
        after_keys(a, keys, home).sent.len() <= a.sent_capacity,
        after_keys(a, keys, home).sent_capacity == a.sent_capacity,
    decreases keys.len(),
{
    if keys.len() > 0 {
        law_history_is_bounded(a, keys.drop_last(), home);
    }
}

/// Scrolling a list up undoes scrolling it down by as many items.
pub proof fn law_pane_up_undoes_down(a: AppView, pane: Pane, n: int)
    requires
        a.wf(),
        0 <= pane_scroll(a, pane),
        0 <= n,
        pane_len(a, pane) matches Some(len) && can_scroll_down(pane_scroll(a, pane), len),
    ensures
        after_scroll_up(after_scroll_down(a, pane, n), pane, n) == a,
{
}

/// What each key does to the state, and to which part of it.
pub proof fn law_keys(a: AppView, key: KeyEvent, home: Option<Seq<char>>)
    ensures
        ({
            let b = after_key(a, key, home);
            let normal = a.input_mode == InputMode::Normal;
            let scrolls = key.code == KeyCode::Char('j') || key.code == KeyCode::Char('k')
                || key.code == KeyCode::Char('J') || key.code == KeyCode::Char('K');
            let fills = a.mode == Mode::OnlyOutput || a.mode == Mode::OnlyMapping || a.mode
                == Mode::OnlyHexdump;
            let tab_key = key.code matches KeyCode::F(n) && 1 <= n <= 7;
            let shared = tab_key || key.code == KeyCode::Enter || key.code == KeyCode::Up
                || key.code == KeyCode::Down;
            &&& normal && key.code == KeyCode::Char('i') ==> b == (AppView {
                input_mode: InputMode::Editing,
                ..a
            })
            &&& !normal && key.code == KeyCode::Esc ==> b == (AppView {
                input_mode: InputMode::Normal,
                ..a
            })
            &&& normal && key.code == KeyCode::Tab ==> b == (AppView { mode: b.mode, ..a })
                && b.mode.position() == (a.mode.position() + 1) % 7
            &&& tab_key ==> b == (AppView { mode: b.mode, ..a }) && b.mode.position()
                == key.code->F_0 - 1
            &&& key.code == KeyCode::Up ==> b == older(a)
            &&& key.code == KeyCode::Down ==> b == newer(a)
            &&& key.code == KeyCode::Enter ==> b == (if can_enter(a, home) {
                after_enter(a, home)
            } else {
                a
            })
            &&& !normal && !shared && key.code != KeyCode::Esc ==> b == (AppView {
                input: b.input,
                ..a
            }) && b.input.value == edited(a.input.value, a.input.cursor as usize, key).0
                && b.input.cursor == edited(a.input.value, a.input.cursor as usize, key).1
            &&& normal && !shared && key.code != KeyCode::Char('i') && key.code != KeyCode::Tab
                && !(scrolls && fills) ==> b == a
        }),
{
}

/// What the keys that scroll do: they move the list that fills the screen, as far as there is
/// one, and change nothing else.
pub proof fn law_scrolling_keys(a: AppView, key: KeyEvent, home: Option<Seq<char>>)
    requires
        a.input_mode == InputMode::Normal,
    ensures
        ({
            let b = after_key(a, key, home);
            let pane = if a.mode == Mode::OnlyOutput {
                Pane::Output
            } else if a.mode == Mode::OnlyMapping {
                Pane::Mapping
            } else {
                Pane::Hexdump
            };
            a.mode == Mode::OnlyOutput || a.mode == Mode::OnlyMapping || a.mode
                == Mode::OnlyHexdump ==> {
                &&& key.code == KeyCode::Char('j') ==> b == after_scroll_down(a, pane, 1)
                &&& key.code == KeyCode::Char('J') ==> b == after_scroll_down(a, pane, 50)
                &&& key.code == KeyCode::Char('k') ==> b == after_scroll_up(a, pane, 1)
                &&& key.code == KeyCode::Char('K') ==> b == after_scroll_up(a, pane, 50)
            }
        }),
{
}

/// A list, and its scroll bar with it, moves down by the step while its last item has not been
/// reached, and up by the step or to its first item. The other lists stay, and so does all else.
pub proof fn law_scrolling_lists(a: AppView, n: int)
    requires
        0 <= n,
    ensures
        after_scroll_down(a, Pane::Output, n) == (if a.output_scroll < a.output.len() - 1 {
            AppView { output_scroll: a.output_scroll + n, output_bar: a.output_scroll + n, ..a }
        } else {
            a
        }),
        after_scroll_down(a, Pane::Mapping, n) == (if a.memory_map is Some && a.memory_map_scroll
            < a.memory_map->0.len() - 1 {
            AppView {
                memory_map_scroll: a.memory_map_scroll + n,
                memory_map_bar: a.memory_map_scroll + n,
                ..a
            }
        } else {
            a
        }),
        after_scroll_down(a, Pane::Hexdump, n) == (if a.hexdump is Some && a.hexdump_scroll
            < (a.hexdump->0).1@.len() - 1 {
            AppView { hexdump_scroll: a.hexdump_scroll + n, hexdump_bar: a.hexdump_scroll + n, ..a }
        } else {
            a
        }),
        ({
            let s = if a.output_scroll > n {
                a.output_scroll - n
            } else {
                0
            };
            after_scroll_up(a, Pane::Output, n) == (AppView {
                output_scroll: s,
                output_bar: s,
                ..a
            })
        }),
        ({
            let s = if a.memory_map_scroll > n {
                a.memory_map_scroll - n
            } else {
                0
            };
            after_scroll_up(a, Pane::Mapping, n) == (AppView {
                memory_map_scroll: s,
                memory_map_bar: s,
                ..a
            })
        }),
        ({
            let s = if a.hexdump_scroll > n {
                a.hexdump_scroll - n
            } else {
                0
            };
            after_scroll_up(a, Pane::Hexdump, n) == (AppView {
                hexdump_scroll: s,
                hexdump_bar: s,
                ..a
            })
        }),
{
}

/// Only Enter leaves something to do besides ending: nothing where no line is pending, else what
/// the line asks for, or the refusal of a line that cannot be run.
pub proof fn law_effects(a: AppView, key: KeyEvent, home: Option<Seq<char>>)
    ensures
        ({
            let effect = effect_of_key(a, key, home);
            &&& key.code != KeyCode::Enter && !(a.input_mode == InputMode::Normal && key.code
                == KeyCode::Char('q')) ==> effect == KeyEffectView::Continue
            &&& key.code == KeyCode::Enter ==> match pending(a) {
                None => effect == KeyEffectView::Continue,
                Some(line) => if is_runnable(expanded(line, a.memory_map), home) {
                    effect == KeyEffectView::Line(effect_of(expanded(line, a.memory_map)))
                } else {
                    effect == KeyEffectView::Refused && after_key(a, key, home) == a
                },
            }
        }),
{
}

/// What is left to do after a key is seen in full.
pub proof fn law_key_effect_views(effect: KeyEffect)
    ensures
        effect is Continue <==> effect@ is Continue,
        effect is Quit <==> effect@ is Quit,
        effect is Refused <==> effect@ is Refused,
        effect matches KeyEffect::Line(line) ==> effect@ == KeyEffectView::Line(line@),
{
}

} // verus!

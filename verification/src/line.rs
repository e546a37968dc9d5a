//! What a line of input does.
use vstd::prelude::*;

use crate::app::{App, AppView};
use crate::buffer::{law_push, pushed};
use crate::history::older;
use crate::input::InputView;
use crate::mapping::{
    address_of, law_lines_without_dollar_stay, law_single_reference, path_char,
    replace_mapping_end, replace_mapping_start, replaced, unicode_word, Bound,
};
use crate::mi::{
    data_read_memory_bytes, law_read_memory_text, read_memory_text, MemoryMapping, Written,
};
use crate::path::{resolve_home, resolved, str_view, string_view};
use crate::text::{
    digits_of, has_prefix, hex_text, law_decimal_reads_back, law_hex_reads_back,
    lemma_decimal_chars, lemma_first_word, lemma_hex_text_chars, lemma_leading_space, number_value,
    parse_number, split_whitespace, starts_with, views, words_of,
};

verus! {

/// What is left to do after a line has been processed.
#[derive(Debug)]
pub enum LineEffect {
    /// The text goes to gdb.
    Send(String),
    /// A memory read was queued.
    Queued,
    /// `hexdump` lacks an argument.
    Invalid,
}

/// The model of `LineEffect`.
pub enum LineEffectView {
    Send(Seq<char>),
    Queued,
    Invalid,
}

impl View for LineEffect {
    type V = LineEffectView;

    open spec fn view(&self) -> LineEffectView {
        match self {
            LineEffect::Send(text) => LineEffectView::Send(text@),
            LineEffect::Queued => LineEffectView::Queued,
            LineEffect::Invalid => LineEffectView::Invalid,
        }
    }
}

/// Whether a line names the file to debug.
pub open spec fn is_file(line: Seq<char>) -> bool {
    has_prefix(line, "file"@)
}

/// Whether a line asks for a hexdump.
pub open spec fn is_hexdump(line: Seq<char>) -> bool {
    !is_file(line) && has_prefix(line, "hexdump"@)
}

/// Whether a line can be run: a file is named with a path that can be resolved, a hexdump with
/// two arguments has numbers for them.
pub open spec fn is_runnable(line: Seq<char>, home: Option<Seq<char>>) -> bool {
    let words = words_of(line);
    &&& is_file(line) ==> words.len() >= 2 && resolved(words[1], home) is Some
    &&& is_hexdump(line) && words.len() >= 3 ==> number_value(words[1]) is Some && number_value(
        words[2],
    ) is Some
}

/// What is left to do after a line has been run. All but hexdumps go to gdb as they are.
pub open spec fn effect_of(line: Seq<char>) -> LineEffectView {
    if !is_hexdump(line) {
        LineEffectView::Send(line)
    } else if words_of(line).len() < 3 {
        LineEffectView::Invalid
    } else {
        LineEffectView::Queued
    }
}

/// The state after a line has been run: the file is remembered, a hexdump queues a memory read
/// and notes that its answer is awaited, and the input line is emptied. A hexdump that lacks an
/// argument changes nothing.
pub open spec fn after_line(a: AppView, line: Seq<char>, home: Option<Seq<char>>) -> AppView {
    let words = words_of(line);
    if is_file(line) {
        AppView { filepath: resolved(words[1], home), input: InputView::empty(), ..a }
    } else if !is_hexdump(line) {
        AppView { input: InputView::empty(), ..a }
    } else if words.len() < 3 {
        a
    } else {
        AppView {
            next_write: a.next_write.push(
                read_memory_text(number_value(words[1])->0, 0, number_value(words[2])->0),
            ),
            written: a.written.push(Written::Memory),
            input: InputView::empty(),
            ..a
        }
    }
}

/// A line with its references to mapped regions replaced, first those to starts, then those to
/// ends.
pub open spec fn expanded(line: Seq<char>, map: Option<Seq<MemoryMapping>>) -> Seq<char> {
    replaced(replaced(line, map, Bound::Start), map, Bound::End)
}

/// The line that Enter sends: the input line, or the newest line of the history where the input
/// line is empty.
pub open spec fn pending(a: AppView) -> Option<Seq<char>> {
    if a.input.value.len() > 0 {
        Some(a.input.value)
    } else if a.sent.len() > 0 {
        Some(a.sent.last())
    } else {
        None
    }
}

/// The state after the pending line has been entered into the history. A line that was taken
/// from the history is not entered again.
pub open spec fn recorded(a: AppView) -> AppView {
    AppView {
        sent_offset: 0,
        sent: if a.input.value.len() > 0 {
            pushed(a.sent, a.sent_capacity, a.input.value)
        } else {
            a.sent
        },
        ..a
    }
}

/// The state after Enter.
pub open spec fn after_enter(a: AppView, home: Option<Seq<char>>) -> AppView {
    match pending(a) {
        Some(line) => after_line(recorded(a), expanded(line, a.memory_map), home),
        None => recorded(a),
    }
}

/// Whether Enter sends nothing or a line that can be run.
pub open spec fn can_enter(a: AppView, home: Option<Seq<char>>) -> bool {
    pending(a) matches Some(line) ==> is_runnable(expanded(line, a.memory_map), home)
}

/// What is left to do of an optional line effect.
pub open spec fn effect_view(effect: Option<LineEffect>) -> Option<LineEffectView> {
    match effect {
        Some(e) => Some(e@),
        None => None,
    }
}

impl App {
    /// Remembers the path of a `file <path>` command.
    pub fn save_filepath(&mut self, val: &str, home: Option<&str>)
        requires
            words_of(val@).len() >= 2,
            resolved(words_of(val@)[1], str_view(home)) is Some,
        ensures
            final(self)@ == (AppView {
                filepath: resolved(words_of(val@)[1], str_view(home)),
                ..old(self)@
            }),
    {
        let words = split_whitespace(val);
        assert(views(words@)[1] == words@[1]@);
        self.filepath = resolve_home(words[1].as_str(), home);
        assert(self@ =~= AppView {
            filepath: resolved(words_of(val@)[1], str_view(home)),
            ..old(self)@
        });
    }
}

/// Whether a line can be run.
pub fn runnable(line: &str, home: Option<&str>) -> (r: bool)
    ensures
        r == is_runnable(line@, str_view(home)),
{
    let words = split_whitespace(line);
    assert(forall|i: int| 0 <= i < words@.len() ==> views(words@)[i] == #[trigger] words@[i]@);
    if starts_with(line, "file") {
        words.len() >= 2 && resolve_home(words[1].as_str(), home).is_some()
    } else if starts_with(line, "hexdump") && words.len() >= 3 {
        parse_number(words[1].as_str()).is_some() && parse_number(words[2].as_str()).is_some()
    } else {
        true
    }
}

/// Runs a line in which no references are left to replace.
pub fn run_line(app: &mut App, line: &str, home: Option<&str>) -> (r: LineEffect)
    requires
        is_runnable(line@, str_view(home)),
    ensures
        r@ == effect_of(line@),
        final(app)@ == after_line(old(app)@, line@, str_view(home)),
        old(app)@.wf() ==> final(app)@.wf(),
{
    if starts_with(line, "file") {
        app.save_filepath(line, home);
    } else if starts_with(line, "hexdump") {
        let words = split_whitespace(line);
        assert(forall|i: int| 0 <= i < words@.len() ==> views(words@)[i] == #[trigger] words@[i]@);
        if words.len() < 3 {
            return LineEffect::Invalid;
        }
        let addr = parse_number(words[1].as_str()).unwrap();
        let len = parse_number(words[2].as_str()).unwrap();
        app.next_write.push(data_read_memory_bytes(addr, 0, len));
        app.written.push_back(Written::Memory);
        app.input.reset();
        assert(app@.next_write =~= old(app)@.next_write.push(read_memory_text(addr, 0, len)));
        assert(app@ =~= after_line(old(app)@, line@, str_view(home)));
        return LineEffect::Queued;
    }
    app.input.reset();
    assert(app@ =~= after_line(old(app)@, line@, str_view(home)));
    LineEffect::Send(line.to_owned())
}

/// Replaces the references of a line to mapped regions.
pub fn expand(app: &App, line: &str) -> (r: String)
    ensures
        r@ == expanded(line@, app@.memory_map),
{
    let mut val = line.to_owned();
    replace_mapping_start(app, &mut val);
    replace_mapping_end(app, &mut val);
    val
}

/// Processes a line of input.
pub fn process_line(app: &mut App, val: &str, home: Option<&str>) -> (r: LineEffect)
    requires
        is_runnable(expanded(val@, old(app)@.memory_map), str_view(home)),
    ensures
        r@ == effect_of(expanded(val@, old(app)@.memory_map)),
        final(app)@ == after_line(
            old(app)@,
            expanded(val@, old(app)@.memory_map),
            str_view(home),
        ),
        old(app)@.wf() ==> final(app)@.wf(),
{
    let line = expand(app, val);
    run_line(app, line.as_str(), home)
}

/// The line that Enter sends.
pub fn pending_line(app: &App) -> (r: Option<String>)
    ensures
        string_view(r) == pending(app@),
{
    if !app.input.value().is_empty() {
        Some(app.input.value().to_owned())
    } else {
        let messages = app.sent_input.as_slice();
        if messages.len() > 0 {
            Some(messages[messages.len() - 1].clone())
        } else {
            None
        }
    }
}

/// Sends the input line, or the newest line of the history where the input line is empty.
pub fn key_enter(app: &mut App, home: Option<&str>) -> (r: Option<LineEffect>)
    requires
        can_enter(old(app)@, str_view(home)),
    ensures
        effect_view(r) == (match pending(old(app)@) {
            Some(line) => Some(effect_of(expanded(line, old(app)@.memory_map))),
            None => None,
        }),
        final(app)@ == after_enter(old(app)@, str_view(home)),
        old(app)@.wf() ==> final(app)@.wf(),
{
    let line = pending_line(app);
    app.sent_input.offset = 0;
    if !app.input.value().is_empty() {
        let value = app.input.value().to_owned();
        app.sent_input.push(value);
    }
    assert(app@ =~= recorded(old(app)@));
    match line {
        Some(line) => Some(process_line(app, line.as_str(), home)),
        None => None,
    }
}

/// A line that was entered is the first one that the history gives back, and stays the one that
/// Enter sends next.
pub proof fn law_entered_line_comes_back(a: AppView, home: Option<Seq<char>>)
    requires
        a.input.value.len() > 0,
    ensures
        older(after_enter(a, home)).input == InputView::holding(a.input.value),
        pending(after_enter(a, home)) == Some(a.input.value),
{
}

/// Enter on an empty input line sends the newest line once more and leaves the history alone.
pub proof fn law_empty_line_repeats(a: AppView, home: Option<Seq<char>>)
    requires
        a.input.value.len() == 0,
        a.sent.len() > 0,
    ensures
        pending(a) == Some(a.sent.last()),
        after_enter(a, home).sent == a.sent,
        pending(after_enter(a, home)) == pending(a),
{
}

/// A line without a dollar sign that asks for no hexdump goes to gdb as it was entered.
pub proof fn law_plain_lines_are_sent_as_they_are(a: AppView, line: Seq<char>)
    requires
        !line.contains('$'),
        !is_hexdump(line),
    ensures
        effect_of(expanded(line, a.memory_map)) == LineEffectView::Send(line),
{
    law_lines_without_dollar_stay(line, a.memory_map, Bound::Start);
    law_lines_without_dollar_stay(line, a.memory_map, Bound::End);
}

/// A hexdump at an address, with the number of bytes in decimal, has three words.
#[verifier::spinoff_prover]
proof fn lemma_hexdump_words(addr: u64, len: u64)
    ensures
        ({
            let line = "hexdump "@ + hex_text(addr) + (" "@ + digits_of(len as int, 10));
            &&& is_hexdump(line)
            &&& words_of(line) == seq!["hexdump"@, hex_text(addr), digits_of(len as int, 10)]
        }),
{
    reveal_strlit("hexdump ");
    reveal_strlit("hexdump");
    reveal_strlit("file");
    reveal_strlit(" ");
    let count = digits_of(len as int, 10);
    let name = "hexdump"@;
    let tail = seq![' '] + count;
    let args = hex_text(addr) + tail;
    let line = "hexdump "@ + hex_text(addr) + (" "@ + count);
    lemma_hex_text_chars(addr);
    lemma_decimal_chars(len);
    assert(line == name + (seq![' '] + args));
    assert(line.take(7) == name);
    assert(line.take(4)[0] == 'h');
    assert(!is_file(line));
    lemma_first_word(name, seq![' '] + args);
    assert(args[0] == hex_text(addr)[0]);
    lemma_leading_space(' ', args);
    lemma_first_word(hex_text(addr), tail);
    lemma_leading_space(' ', count);
    assert(count + Seq::<char>::empty() == count);
    lemma_first_word(count, Seq::empty());
    assert(words_of(Seq::<char>::empty()) == Seq::<Seq<char>>::empty());
    assert(words_of(line) == seq![name, hex_text(addr), count]);
}

/// A hexdump at a reference to a mapped region reads the memory at the address of that region.
#[verifier::spinoff_prover]
pub proof fn law_hexdump_at_region(
    a: AppView,
    map: Seq<MemoryMapping>,
    path: Seq<char>,
    bound: Bound,
    len: u64,
    home: Option<Seq<char>>,
)
    requires
        a.memory_map == Some(map),
        path.len() > 0,
        forall|i: int|
            0 <= i < path.len() ==> path_char(#[trigger] path[i], |c: char| unicode_word(c)),
    ensures
        ({
            let typed = "hexdump "@ + bound.marker() + path + (" "@ + digits_of(len as int, 10));
            let line = expanded(typed, a.memory_map);
            &&& is_runnable(line, home)
            &&& effect_of(line) == LineEffectView::Queued
            &&& after_line(a, line, home) == (AppView {
                next_write: a.next_write.push(
                    read_memory_text(address_of(map, path, bound), 0, len),
                ),
                written: a.written.push(Written::Memory),
                input: InputView::empty(),
                ..a
            })
        }),
{
    let addr = address_of(map, path, bound);
    let behind = " "@ + digits_of(len as int, 10);
    assert(!"hexdump "@.contains('$') && behind.len() > 0 && behind[0] == ' ') by {
        reveal_strlit("hexdump ");
        reveal_strlit(" ");
    }
    assert(!behind.contains('$')) by {
        reveal_strlit(" ");
        lemma_decimal_chars(len);
        assert forall|i: int| 0 <= i < behind.len() implies behind[i] != '$' by {
            if i > 0 {
                assert(behind[i] == digits_of(len as int, 10)[i - 1]);
            }
        }
    }
    law_single_reference("hexdump "@, path, behind, map, bound);
    lemma_hexdump_words(addr, len);
    law_hex_reads_back(addr);
    law_decimal_reads_back(len);
}

/// Only a line that begins with the characters `file` changes the file that is remembered. A line
/// that begins neither with these nor with `hexdump` can always be run, goes to gdb as it is, and
/// changes nothing but the input line, which it empties.
pub proof fn law_other_lines(a: AppView, line: Seq<char>, home: Option<Seq<char>>)
    requires
        !(line.len() >= 4 && line[0] == 'f' && line[1] == 'i' && line[2] == 'l' && line[3] == 'e'),
    ensures
        after_line(a, line, home).filepath == a.filepath,
        !(line.len() >= 7 && line[0] == 'h' && line[1] == 'e' && line[2] == 'x' && line[3] == 'd'
            && line[4] == 'u' && line[5] == 'm' && line[6] == 'p') ==> is_runnable(line, home)
            && effect_of(line) == LineEffectView::Send(line) && after_line(a, line, home) == (
        AppView { input: InputView { value: Seq::empty(), cursor: 0 }, ..a }),
{
    reveal_strlit("file");
    reveal_strlit("hexdump");
    if has_prefix(line, "file"@) {
        let t = line.take(4);
        assert(t[0] == 'f' && t[1] == 'i' && t[2] == 'l' && t[3] == 'e');
    }
    if has_prefix(line, "hexdump"@) {
        let t = line.take(7);
        assert(t[0] == 'h' && t[1] == 'e' && t[2] == 'x' && t[3] == 'd' && t[4] == 'u' && t[5]
            == 'm' && t[6] == 'p');
    }
}

/// A line that begins with `file` goes to gdb as it is. Its second word, with `~/` resolved, is
/// remembered as the file, the input line is emptied, and nothing else changes. It can be run
/// where there is a second word that can be resolved.
pub proof fn law_file_lines(a: AppView, rest: Seq<char>, home: Option<Seq<char>>)
    ensures
        ({
            let line = seq!['f', 'i', 'l', 'e'] + rest;
            let words = words_of(line);
            &&& is_runnable(line, home) <==> words.len() >= 2 && resolved(words[1], home) is Some
            &&& effect_of(line) == LineEffectView::Send(line)
            &&& after_line(a, line, home) == (AppView {
                filepath: resolved(words[1], home),
                input: InputView { value: Seq::empty(), cursor: 0 },
                ..a
            })
        }),
{
    reveal_strlit("file");
    let line = seq!['f', 'i', 'l', 'e'] + rest;
    assert(line.take(4) == "file"@);
}

/// A line that begins with `hexdump` never goes to gdb. With fewer than two arguments it changes
/// nothing. Else it can be run where both are numbers, and queues one request, for as many bytes
/// as the second one says from the address that the first one says; the answer is awaited, the
/// input line is emptied, and nothing else changes.
#[verifier::spinoff_prover]
pub proof fn law_hexdump_lines(a: AppView, rest: Seq<char>, home: Option<Seq<char>>)
    ensures
        ({
            let line = seq!['h', 'e', 'x', 'd', 'u', 'm', 'p'] + rest;
            let words = words_of(line);
            let b = after_line(a, line, home);
            let numbers = number_value(words[1]) is Some && number_value(words[2]) is Some;
            &&& words.len() < 3 ==> is_runnable(line, home) && effect_of(line)
                == LineEffectView::Invalid && b == a
            &&& words.len() >= 3 ==> (is_runnable(line, home) <==> numbers) && effect_of(line)
                == LineEffectView::Queued && b == (AppView {
                next_write: b.next_write,
                written: a.written.push(Written::Memory),
                input: InputView { value: Seq::empty(), cursor: 0 },
                ..a
            })
            &&& words.len() >= 3 && numbers ==> b.next_write.len() == a.next_write.len() + 1
                && b.next_write.drop_last() == a.next_write && words_of(b.next_write.last()).len()
                == 5 && words_of(b.next_write.last())[0] == "-data-read-memory-bytes"@ && words_of(
                b.next_write.last(),
            )[1] == "-o"@ && number_value(words_of(b.next_write.last())[2]) == Some(0u64)
                && number_value(words_of(b.next_write.last())[3]) == number_value(words[1])
                && number_value(words_of(b.next_write.last())[4]) == number_value(words[2])
        }),
{
    reveal_strlit("file");
    reveal_strlit("hexdump");
    let line = seq!['h', 'e', 'x', 'd', 'u', 'm', 'p'] + rest;
    let words = words_of(line);
    assert(line.take(7) == "hexdump"@);
    if has_prefix(line, "file"@) {
        assert(line.take(4)[0] == 'f');
    }
    if words.len() >= 3 {
        let addr = number_value(words[1])->0;
        let len = number_value(words[2])->0;
        law_read_memory_text(addr, 0, len);
        let b = after_line(a, line, home);
        assert(b.next_write.drop_last() =~= a.next_write);
        assert(b.next_write.last() == read_memory_text(addr, 0, len));
    }
}

/// References to starts are replaced first, then references to ends, by the memory map.
pub proof fn law_expanding(line: Seq<char>, map: Option<Seq<MemoryMapping>>)
    ensures
        expanded(line, map) == replaced(replaced(line, map, Bound::Start), map, Bound::End),
        map is None ==> expanded(line, map) == line,
{
}

/// Enter on a line that is not empty appends that line to the history, wherever in the history
/// the user was: below the capacity nothing is lost, and at the capacity the oldest line only.
pub proof fn law_enter_appends_to_history(a: AppView, home: Option<Seq<char>>)
    requires
        a.input.value.len() > 0,
    ensures
        after_enter(a, home).sent_offset == 0,
        a.sent.len() < a.sent_capacity ==> after_enter(a, home).sent == a.sent.push(a.input.value),
        a.sent.len() == a.sent_capacity && a.sent_capacity > 0 ==> after_enter(a, home).sent
            == a.sent.subrange(1, a.sent.len() as int).push(a.input.value),
        a.sent.len() > a.sent_capacity || a.sent_capacity == 0 ==> after_enter(a, home).sent
            == a.sent.push(a.input.value),
{
    if a.sent_capacity >= 0 {
        law_push(a.sent, a.sent_capacity, a.input.value);
    }
}

/// Enter does to everything but the history what its line does: the input line if it is not
/// empty, else the newest line of the history. With neither it only returns to the present.
pub proof fn law_enter_runs_the_line(a: AppView, home: Option<Seq<char>>)
    ensures
        ({
            let b = after_enter(a, home);
            let typed = expanded(a.input.value, a.memory_map);
            let newest = expanded(a.sent[a.sent.len() - 1], a.memory_map);
            &&& a.input.value.len() > 0 ==> pending(a) == Some(a.input.value) && (can_enter(a, home)
                <==> is_runnable(typed, home)) && b == (AppView {
                sent: b.sent,
                sent_offset: 0,
                ..after_line(a, typed, home)
            })
            &&& a.input.value.len() == 0 && a.sent.len() > 0 ==> pending(a) == Some(
                a.sent[a.sent.len() - 1],
            ) && (can_enter(a, home) <==> is_runnable(newest, home)) && b == (AppView {
                sent_offset: 0,
                ..after_line(a, newest, home)
            })
            &&& a.input.value.len() == 0 && a.sent.len() == 0 ==> pending(a) is None && can_enter(
                a,
                home,
            ) && b == (AppView { sent_offset: 0, ..a })
        }),
{
}

/// What is left to do is seen in full.
pub proof fn law_line_effect_views(effect: LineEffect, maybe: Option<LineEffect>)
    ensures
        effect matches LineEffect::Send(text) ==> effect@ == LineEffectView::Send(text@),
        effect is Queued <==> effect@ is Queued,
        effect is Invalid <==> effect@ is Invalid,
        maybe is None <==> effect_view(maybe) is None,
        maybe matches Some(e) ==> effect_view(maybe) == Some(e@),
{
}

} // verus!

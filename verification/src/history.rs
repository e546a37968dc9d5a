//! Going back to lines that were sent before.
use vstd::prelude::*;

use crate::app::{App, AppView};
use crate::input::{Input, InputView};

verus! {

/// The line that the position in the history points to, as the input line. At position zero, and
/// at a position past the oldest line, the input line stays.
pub open spec fn recalled(a: AppView) -> AppView {
    if 0 < a.sent_offset <= a.sent.len() {
        AppView { input: InputView::holding(a.sent[a.sent.len() - a.sent_offset]), ..a }
    } else {
        a
    }
}

/// One line further back, as far as the oldest line.
pub open spec fn older(a: AppView) -> AppView {
    if a.sent.len() == 0 {
        AppView { sent_offset: 0, ..a }
    } else if a.sent_offset < a.sent.len() {
        recalled(AppView { sent_offset: a.sent_offset + 1, ..a })
    } else {
        recalled(a)
    }
}

/// One line closer to the present. Behind the newest line the input line is empty.
pub open spec fn newer(a: AppView) -> AppView {
    if a.sent.len() == 0 {
        AppView { sent_offset: 0, ..a }
    } else if a.sent_offset == 1 {
        AppView { sent_offset: 0, input: InputView::empty(), ..a }
    } else if a.sent_offset != 0 {
        recalled(AppView { sent_offset: a.sent_offset - 1, ..a })
    } else {
        a
    }
}

/// The state after going back `n` lines.
pub open spec fn older_by(a: AppView, n: nat) -> AppView
    decreases n,
{
    if n == 0 {
        a
    } else {
        older(older_by(a, (n - 1) as nat))
    }
}

/// Puts the line that the position in the history points to into the input line.
pub fn update_from_previous_input(app: &mut App)
    ensures
        final(app)@ == recalled(old(app)@),
        old(app)@.wf() ==> final(app)@.wf(),
{
    let len = app.sent_input.buffer.len();
    if len >= app.sent_input.offset {
        let index = len - app.sent_input.offset;
        if index < len {
            let msg = app.sent_input.buffer[index].clone();
            assert(msg@ == old(app)@.sent[index as int]);
            app.input = Input::new(msg);
        }
    }
}

/// Goes one line back in the history.
pub fn key_up(app: &mut App)
    ensures
        final(app)@ == older(old(app)@),
        old(app)@.wf() ==> final(app)@.wf(),
{
    if !app.sent_input.is_empty() {
        if app.sent_input.offset < app.sent_input.buffer.len() {
            app.sent_input.offset += 1;
            assert(app@ =~= AppView { sent_offset: old(app)@.sent_offset + 1, ..old(app)@ });
        }
        update_from_previous_input(app);
    } else {
        app.sent_input.offset = 0;
        assert(app@ =~= AppView { sent_offset: 0, ..old(app)@ });
    }
}

/// Goes one line forward in the history.
pub fn key_down(app: &mut App)
    ensures
        final(app)@ == newer(old(app)@),
        old(app)@.wf() ==> final(app)@.wf(),
{
    if !app.sent_input.is_empty() {
        if app.sent_input.offset != 0 {
            app.sent_input.offset -= 1;
            if app.sent_input.offset == 0 {
                app.input.reset();
            }
        }
        update_from_previous_input(app);
    } else {
        app.sent_input.offset = 0;
    }
    assert(app@ =~= newer(old(app)@));
}

/// From the present, going back `n` times shows the `n`-th newest line, and going back further
/// than the history reaches shows the oldest one.
pub proof fn law_older_shows_nth_newest(a: AppView, n: nat)
    requires
        a.sent_offset == 0,
        a.sent.len() > 0,
        n > 0,
    ensures
        older_by(a, n).sent == a.sent,
        older_by(a, n).sent_offset == (if n <= a.sent.len() {
            n as int
        } else {
            a.sent.len() as int
        }),
        older_by(a, n).input == InputView::holding(
            a.sent[if n <= a.sent.len() {
                a.sent.len() - n
            } else {
                0
            }],
        ),
    decreases n,
{
    if n > 1 {
        law_older_shows_nth_newest(a, (n - 1) as nat);
    } else {
        assert(older_by(a, 0) == a);
    }
}

/// Going forward undoes going back: the position is what it was, and the line shown is that of
/// the position, or empty at the present.
pub proof fn law_newer_undoes_older(a: AppView)
    requires
        0 <= a.sent_offset < a.sent.len(),
    ensures
        newer(older(a)).sent_offset == a.sent_offset,
        a.sent_offset > 0 ==> newer(older(a)) == recalled(a),
        a.sent_offset == 0 ==> newer(older(a)) == (AppView { input: InputView::empty(), ..a }),
{
}

/// Going through the history changes only the position in it and the input line.
pub proof fn law_browsing_changes_no_more(a: AppView)
    ensures
        older(a) == (AppView { sent_offset: older(a).sent_offset, input: older(a).input, ..a }),
        newer(a) == (AppView { sent_offset: newer(a).sent_offset, input: newer(a).input, ..a }),
{
}

/// Going back moves the position by one, as far as the oldest line, and shows the line that many
/// places from the end of the history, in full and with the cursor behind it. With no history the
/// input line stays.
pub proof fn law_going_back(a: AppView)
    requires
        0 <= a.sent_offset <= a.sent.len(),
    ensures
        ({
            let b = older(a);
            let shown = a.sent[a.sent.len() - b.sent_offset];
            &&& b == (AppView { sent_offset: b.sent_offset, input: b.input, ..a })
            &&& a.sent.len() == 0 ==> b == (AppView { sent_offset: 0, ..a })
            &&& a.sent_offset < a.sent.len() ==> b.sent_offset == a.sent_offset + 1
            &&& a.sent_offset == a.sent.len() ==> b.sent_offset == a.sent_offset
            &&& a.sent.len() > 0 ==> b.input.value == shown && b.input.cursor == shown.len()
        }),
{
}

/// Going forward moves the position by one towards the present and shows the line that many
/// places from the end; the step to the present empties the input line, and at the present
/// nothing changes.
pub proof fn law_going_forward(a: AppView)
    requires
        0 <= a.sent_offset <= a.sent.len(),
    ensures
        ({
            let b = newer(a);
            let shown = a.sent[a.sent.len() - b.sent_offset];
            &&& b == (AppView { sent_offset: b.sent_offset, input: b.input, ..a })
            &&& a.sent_offset == 0 ==> b == a
            &&& a.sent_offset > 0 ==> b.sent_offset == a.sent_offset - 1
            &&& a.sent_offset == 1 ==> b.input.value.len() == 0 && b.input.cursor == 0
            &&& a.sent_offset > 1 ==> b.input.value == shown && b.input.cursor == shown.len()
        }),
{
}

/// A position past the oldest line shows nothing: going back leaves such a state, and going
/// forward leaves the input line until the position lies in the history.
pub proof fn law_positions_outside(a: AppView)
    requires
        a.sent_offset > a.sent.len() > 0,
    ensures
        older(a) == a,
        newer(a).sent_offset == a.sent_offset - 1,
        a.sent_offset - 1 > a.sent.len() ==> newer(a) == (AppView {
            sent_offset: a.sent_offset - 1,
            ..a
        }),
        a.sent_offset - 1 == a.sent.len() ==> newer(a).input.value == a.sent[0]
            && newer(a).input.cursor == a.sent[0].len(),
{
}

/// The line at the position in the history is put into the input line, and nothing else changes;
/// without such a line the state stays.
pub proof fn law_recalling(a: AppView)
    ensures
        0 < a.sent_offset <= a.sent.len() ==> recalled(a).input.value == a.sent[a.sent.len()
            - a.sent_offset] && recalled(a).input.cursor == a.sent[a.sent.len()
            - a.sent_offset].len() && recalled(a) == (AppView { input: recalled(a).input, ..a }),
        !(0 < a.sent_offset <= a.sent.len()) ==> recalled(a) == a,
{
}

} // verus!

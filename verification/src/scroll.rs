//! Scrolling a list of lines.
use vstd::prelude::*;

verus! {

/// What a scroll bar shows.
#[derive(Debug, Clone, Copy, PartialEq, Eq, Structural)]
pub struct ScrollbarState {
    pub position: usize,
}

impl ScrollbarState {
    /// A scroll bar at the top.
    pub fn new() -> (r: Self)
        ensures
            r.position == 0,
    {
        ScrollbarState { position: 0 }
    }

    /// The scroll bar moved to a line.
    pub fn position(self, position: usize) -> (r: Self)
        ensures
            r.position == position,
    {
        ScrollbarState { position }
    }
}

/// Whether a list of `len` lines can be scrolled down from line `scroll`: it stops at the last
/// line.
pub open spec fn can_scroll_down(scroll: int, len: int) -> bool {
    scroll < len - 1
}

/// The first line shown after scrolling down by `n` lines. The last step may lead past the end.
pub open spec fn scrolled_down(scroll: int, n: int, len: int) -> int {
    if can_scroll_down(scroll, len) {
        scroll + n
    } else {
        scroll
    }
}

/// The first line shown after scrolling up by `n` lines.
pub open spec fn scrolled_up(scroll: int, n: int) -> int {
    if scroll > n {
        scroll - n
    } else {
        0
    }
}

/// Scrolls down by `n` lines, unless the last line has been reached.
pub fn scroll_down(n: usize, scroll: &mut usize, state: &mut ScrollbarState, len: usize)
    requires
        can_scroll_down(*old(scroll) as int, len as int) ==> *old(scroll) + n <= usize::MAX,
    ensures
        *final(scroll) == scrolled_down(*old(scroll) as int, n as int, len as int),
        *old(scroll) < len - 1 ==> *final(scroll) == *old(scroll) + n,
        *old(scroll) >= len - 1 ==> *final(scroll) == *old(scroll),
        can_scroll_down(*old(scroll) as int, len as int) ==> final(state).position
            == *final(scroll),
        !can_scroll_down(*old(scroll) as int, len as int) ==> *final(state) == *old(state),
{
    if *scroll < len.saturating_sub(1) {
        *scroll += n;
        *state = state.position(*scroll);
    }
}

/// Scrolls up by `n` lines, as far as the first one.
pub fn scroll_up(n: usize, scroll: &mut usize, state: &mut ScrollbarState)
    ensures
        *final(scroll) == scrolled_up(*old(scroll) as int, n as int),
        *old(scroll) >= n ==> *final(scroll) == *old(scroll) - n,
        *old(scroll) < n ==> *final(scroll) == 0,
        final(state).position == *final(scroll),
{
    if *scroll > n {
        *scroll -= n;
    } else {
        *scroll = 0;
    }
    *state = state.position(*scroll);
}

/// Scrolling up undoes a scroll down by the same number of lines.
pub proof fn law_up_undoes_down(scroll: int, n: int, len: int)
    requires
        0 <= scroll,
        0 <= n,
        can_scroll_down(scroll, len),
    ensures
        scrolled_up(scrolled_down(scroll, n, len), n) == scroll,
{
}

/// With steps of at most `n` lines, the first line shown stays less than `n` lines behind the
/// last line.
pub proof fn law_scrolling_is_bounded(scroll: int, step: int, n: int, len: int)
    requires
        0 <= scroll,
        1 <= step <= n,
        1 <= len,
        scroll < len - 1 + n,
    ensures
        0 <= scrolled_down(scroll, step, len) < len - 1 + n,
        0 <= scrolled_up(scroll, step) <= scroll,
{
}

/// A list moves down by exactly the step while its last line has not been reached, and not at
/// all from there on. It moves up by exactly the step, or to its first line if that is closer.
pub proof fn law_steps(scroll: int, n: int, len: int)
    requires
        0 <= scroll,
        0 <= n,
    ensures
        can_scroll_down(scroll, len) <==> scroll < len - 1,
        scroll < len - 1 ==> scrolled_down(scroll, n, len) == scroll + n,
        scroll >= len - 1 ==> scrolled_down(scroll, n, len) == scroll,
        scroll >= n ==> scrolled_up(scroll, n) == scroll - n,
        scroll < n ==> scrolled_up(scroll, n) == 0,
{
}

} // verus!

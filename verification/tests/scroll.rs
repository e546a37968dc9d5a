use heretek::scroll::{scroll_down, scroll_up, ScrollbarState};

#[test]
fn down_stops_at_the_last_line() {
    let mut scroll = 0;
    let mut state = ScrollbarState::new();
    scroll_down(1, &mut scroll, &mut state, 3);
    assert_eq!((scroll, state.position), (1, 1));
    scroll_down(1, &mut scroll, &mut state, 3);
    assert_eq!((scroll, state.position), (2, 2));
    scroll_down(1, &mut scroll, &mut state, 3);
    assert_eq!((scroll, state.position), (2, 2));
}

#[test]
fn a_page_may_lead_past_the_end() {
    let mut scroll = 1;
    let mut state = ScrollbarState::new();
    scroll_down(50, &mut scroll, &mut state, 3);
    assert_eq!((scroll, state.position), (51, 51));
    scroll_down(50, &mut scroll, &mut state, 3);
    assert_eq!((scroll, state.position), (51, 51));
}

#[test]
fn nothing_to_scroll() {
    let mut scroll = 0;
    let mut state = ScrollbarState::new();
    scroll_down(1, &mut scroll, &mut state, 0);
    scroll_down(1, &mut scroll, &mut state, 1);
    assert_eq!((scroll, state.position), (0, 0));
}

#[test]
fn up_stops_at_the_first_line() {
    let mut scroll = 60;
    let mut state = ScrollbarState::new();
    scroll_up(50, &mut scroll, &mut state);
    assert_eq!((scroll, state.position), (10, 10));
    scroll_up(50, &mut scroll, &mut state);
    assert_eq!((scroll, state.position), (0, 0));
    scroll_up(1, &mut scroll, &mut state);
    assert_eq!((scroll, state.position), (0, 0));
}

#[test]
fn up_undoes_down() {
    for start in [0, 1, 7] {
        for n in [1, 50] {
            let mut scroll = start;
            let mut state = ScrollbarState::new();
            scroll_down(n, &mut scroll, &mut state, 100);
            scroll_up(n, &mut scroll, &mut state);
            assert_eq!(scroll, start);
        }
    }
}

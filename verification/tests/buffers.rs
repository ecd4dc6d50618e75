//! Behaviour of the rotating list buffer, the focus value, the marquee
//! rotation and the auto-scroll timer.
use ctfterm::types::App;
use ctfterm::types::AutoScroll;
use ctfterm::types::StatefulList;
use ctfterm::types::rotate_marquee;

fn s(x: &str) -> String {
    x.to_owned()
}

#[test]
fn with_items_starts_at_origin() {
    let l = StatefulList::with_items(vec![s("a"), s("b")]);
    assert_eq!(l.items, vec![s("a"), s("b")]);
    assert_eq!(l.idx, 0);
    assert_eq!(l.selection, None);
}

#[test]
fn update_appends_in_order() {
    let mut l = StatefulList::with_items(vec![s("a")]);
    l.update(vec![s("b"), s("c")]);
    assert_eq!(l.items, vec![s("a"), s("b"), s("c")]);
    assert_eq!(l.idx, 0);
}

#[test]
fn update_on_empty_buffer() {
    let mut l: StatefulList<String> = StatefulList::with_items(vec![]);
    l.update(vec![s("x")]);
    assert_eq!(l.items, vec![s("x")]);
}

#[test]
fn scroll_moves_front_to_back() {
    let mut l = StatefulList::with_items(vec![1, 2, 3]);
    l.scroll();
    assert_eq!(l.items, vec![2, 3, 1]);
    assert_eq!(l.idx, 0);
}

#[test]
fn scroll_on_empty_is_a_noop() {
    let mut l: StatefulList<i32> = StatefulList::with_items(vec![]);
    l.scroll();
    assert_eq!(l.items, Vec::<i32>::new());
}

#[test]
fn scroll_full_cycle_restores_order() {
    let mut l = StatefulList::with_items(vec![1, 2, 3, 4]);
    for _ in 0..4 {
        l.scroll();
    }
    assert_eq!(l.items, vec![1, 2, 3, 4]);
}

#[test]
fn move_down_then_up_restores_buffer() {
    let mut l = StatefulList::with_items(vec![1, 2, 3]);
    l.move_down();
    assert_eq!(l.items, vec![2, 3, 1]);
    assert_eq!(l.idx, 1);
    l.move_up();
    assert_eq!(l.items, vec![1, 2, 3]);
    assert_eq!(l.idx, 0);
}

#[test]
fn move_up_then_down_restores_buffer() {
    let mut l = StatefulList::with_items(vec![1, 2, 3]);
    l.move_down();
    let snapshot = l.items.clone();
    let idx = l.idx;
    l.move_up();
    l.move_down();
    assert_eq!(l.items, snapshot);
    assert_eq!(l.idx, idx);
}

#[test]
fn move_down_stops_at_the_end() {
    let mut l = StatefulList::with_items(vec![1, 2]);
    l.move_down();
    l.move_down();
    l.move_down();
    assert_eq!(l.idx, 1);
    assert_eq!(l.items, vec![2, 1]);
}

#[test]
fn move_up_stops_at_the_start() {
    let mut l = StatefulList::with_items(vec![1, 2]);
    l.move_up();
    assert_eq!(l.items, vec![1, 2]);
    assert_eq!(l.idx, 0);
}

#[test]
fn moves_on_empty_buffer_are_noops() {
    let mut l: StatefulList<i32> = StatefulList::with_items(vec![]);
    l.move_down();
    l.move_up();
    assert_eq!(l.items, Vec::<i32>::new());
    assert_eq!(l.idx, 0);
}

#[test]
fn selection_next_wraps() {
    let mut l = StatefulList::with_items(vec![1, 2, 3]);
    l.next();
    assert_eq!(l.selection, Some(0));
    l.next();
    l.next();
    assert_eq!(l.selection, Some(2));
    l.next();
    assert_eq!(l.selection, Some(0));
}

#[test]
fn selection_previous_wraps() {
    let mut l = StatefulList::with_items(vec![1, 2, 3]);
    l.previous();
    assert_eq!(l.selection, Some(0));
    l.previous();
    assert_eq!(l.selection, Some(2));
    l.previous();
    assert_eq!(l.selection, Some(1));
}

#[test]
fn unselect_clears_selection() {
    let mut l = StatefulList::with_items(vec![1]);
    l.next();
    l.unselect();
    assert_eq!(l.selection, None);
}

#[test]
fn get_and_set_access_rows() {
    let mut l = StatefulList::with_items(vec![s("a"), s("b")]);
    assert_eq!(l.get(1), &s("b"));
    l.set(s("z"), 0);
    assert_eq!(l.items, vec![s("z"), s("b")]);
}

#[test]
fn new_app_starts_empty_and_unselected() {
    let app = App::new();
    assert_eq!(app.focused, 0);
    assert_eq!(app.term_height, 0);
    assert!(app.curr_events.items.is_empty());
    assert!(app.current_events_list.items.is_empty());
    assert!(app.past_events_list.items.is_empty());
    assert!(app.leaderboard_stats.items.is_empty());
    assert!(app.writeups.items.is_empty());
    assert_eq!(app.curr_events.selection, None);
    assert_eq!(app.current_events_list.selection, None);
    assert_eq!(app.past_events_list.selection, None);
    assert_eq!(app.leaderboard_stats.selection, None);
    assert_eq!(app.writeups.selection, None);
    assert_eq!(app.events.len(), 26);
    assert_eq!(app.events[0], (s("Event1"), s("INFO")));
    assert_eq!(app.events[25], (s("Event26"), s("INFO")));
}

#[test]
fn focus_next_five_times_returns_home() {
    let mut app = App::new();
    assert_eq!(app.focused, 0);
    for _ in 0..5 {
        app.focus_next();
    }
    assert_eq!(app.focused, 0);
}

#[test]
fn focus_previous_inverts_focus_next() {
    let mut app = App::new();
    for start in 0..5 {
        assert_eq!(app.focused, start);
        app.focus_next();
        app.focus_previous();
        assert_eq!(app.focused, start);
        app.focus_next();
    }
}

#[test]
fn focus_previous_jumps_to_last_region() {
    let mut app = App::new();
    app.focus_previous();
    assert_eq!(app.focused, 4);
}

#[test]
fn navigation_touches_only_focused_region() {
    let mut app = App::new();
    app.writeups.update(vec![
        (s("t1"), s("e1"), s("g1"), s("l1"), s("x1")),
        (s("t2"), s("e2"), s("g2"), s("l2"), s("x2")),
    ]);
    app.leaderboard_stats.update(vec![
        (s("1"), s("a"), s("US"), s("10")),
        (s("2"), s("b"), s("DE"), s("9")),
    ]);
    app.focused = 3;
    app.advance_selection();
    assert_eq!(app.writeups.idx, 1);
    assert_eq!(app.leaderboard_stats.idx, 0);
    app.retreat_selection();
    assert_eq!(app.writeups.idx, 0);
    app.focused = 4;
    app.advance_selection();
    assert_eq!(app.leaderboard_stats.idx, 1);
    app.focused = 0;
    app.advance_selection();
    app.retreat_selection();
    assert_eq!(app.writeups.idx, 0);
    assert_eq!(app.leaderboard_stats.idx, 1);
}

#[test]
fn rotate_marquee_cycles_characters() {
    assert_eq!(rotate_marquee("abc"), s("bca"));
    assert_eq!(rotate_marquee(""), s(""));
    assert_eq!(rotate_marquee("x"), s("x"));
}

#[test]
fn marquee_step_rotates_first_running_event() {
    let mut app = App::new();
    app.curr_events.update(vec![s("abc"), s("def")]);
    app.marquee_step();
    assert_eq!(app.curr_events.items, vec![s("bca"), s("def")]);
}

#[test]
fn marquee_step_on_empty_buffer() {
    let mut app = App::new();
    app.marquee_step();
    assert_eq!(app.curr_events.items, Vec::<String>::new());
}

#[test]
fn on_tick_rotates_demo_events() {
    let mut app = App::new();
    let first = app.events[0].clone();
    let second = app.events[1].clone();
    app.on_tick();
    assert_eq!(app.events[0], second);
    assert_eq!(app.events[app.events.len() - 1], first);
}

#[test]
fn auto_scroll_fires_then_counts_down() {
    let mut t = AutoScroll::new(2);
    assert!(t.tick());
    assert_eq!(t.counter, 2);
    assert!(!t.tick());
    assert!(!t.tick());
    assert!(t.tick());
    assert_eq!(t.counter, 2);
}

#[test]
fn auto_scroll_disabled_never_fires() {
    let mut t = AutoScroll::new(2);
    t.enabled = false;
    assert!(!t.tick());
    assert!(!t.tick());
    assert_eq!(t.counter, 0);
}

//! Behaviour of the refresh coordinator: completion counting and the
//! merge-exactly-once guarantee.
use ctfterm::coordinator::try_merge;
use ctfterm::coordinator::FetchResults;
use ctfterm::coordinator::RefreshState;
use ctfterm::types::App;

fn s(x: &str) -> String {
    x.to_owned()
}

fn sample_results() -> FetchResults {
    FetchResults {
        running: vec![s("Event A")],
        leaderboard: vec![(s("1"), s("TeamX"), s("USA"), s("1500"))],
        past: vec![(s("Old CTF"), s("May 12 \u{2014} May 14, Jeopardy"))],
        writeups: vec![(s("t"), s("e"), s("g"), s("l"), s("x"))],
    }
}

#[test]
fn merge_waits_for_all_completions() {
    let mut app = App::new();
    let mut st = RefreshState::new(4);
    st.record_completion();
    st.record_completion();
    st.record_completion();
    assert!(!st.ready());
    let rest = try_merge(&mut app, &mut st, sample_results());
    assert!(rest.is_some());
    assert!(app.curr_events.items.is_empty());
    assert!(st.needs_load);
}

#[test]
fn merge_happens_once_all_fetches_signal() {
    let mut app = App::new();
    let mut st = RefreshState::new(4);
    for _ in 0..4 {
        st.record_completion();
    }
    assert!(st.ready());
    let rest = try_merge(&mut app, &mut st, sample_results());
    assert!(rest.is_none());
    assert_eq!(app.curr_events.items, vec![s("Event A")]);
    assert_eq!(app.leaderboard_stats.items, vec![(s("1"), s("TeamX"), s("USA"), s("1500"))]);
    assert_eq!(app.past_events_list.items, vec![
        (s("Old CTF"), s("May 12 \u{2014} May 14, Jeopardy")),
    ]);
    assert_eq!(app.writeups.items, vec![(s("t"), s("e"), s("g"), s("l"), s("x"))]);
    assert!(!st.needs_load);
}

#[test]
fn merge_is_not_repeated_on_later_polls() {
    let mut app = App::new();
    let mut st = RefreshState::new(4);
    for _ in 0..4 {
        st.record_completion();
    }
    let first = try_merge(&mut app, &mut st, sample_results());
    assert!(first.is_none());
    let running_after_merge = app.curr_events.items.clone();
    // the counter still equals the total, but the flag is down: polling
    // again with a fresh copy of the same batch must change nothing
    let second = try_merge(&mut app, &mut st, sample_results());
    assert!(second.is_some());
    assert_eq!(app.curr_events.items, running_after_merge);
    assert_eq!(app.curr_events.items.len(), 1);
    assert!(!st.needs_load);
}

#[test]
fn failed_feeds_still_count_toward_completion() {
    let mut app = App::new();
    let mut st = RefreshState::new(2);
    st.record_completion();
    st.record_completion();
    assert!(st.ready());
    let empty = FetchResults {
        running: vec![],
        leaderboard: vec![],
        past: vec![],
        writeups: vec![],
    };
    let rest = try_merge(&mut app, &mut st, empty);
    assert!(rest.is_none());
    assert!(app.curr_events.items.is_empty());
    assert!(!st.needs_load);
}

//! The rotating list buffer behind every displayed feed, the application
//! state aggregate, and the focus value that names the active display region.
use vstd::prelude::*;

verus! {

/// Rotate a non-empty sequence one step to the left: the front element moves
/// to the back.
pub open spec fn rot_left<T>(s: Seq<T>) -> Seq<T>
    recommends
        s.len() > 0,
{
    s.drop_first().push(s.first())
}

/// Rotate a non-empty sequence one step to the right: the back element moves
/// to the front.
pub open spec fn rot_right<T>(s: Seq<T>) -> Seq<T>
    recommends
        s.len() > 0,
{
    seq![s.last()] + s.drop_last()
}

/// Rotating one step left and then one step right restores the sequence, and
/// the other way round as well.
pub proof fn lemma_rot_round_trip<T>(s: Seq<T>)
    requires
        s.len() > 0,
    ensures
        rot_right(rot_left(s)) == s,
        rot_left(rot_right(s)) == s,
{
    assert(rot_right(rot_left(s)) =~= s);
    assert(rot_left(rot_right(s)) =~= s);
}

/// What `scroll` does to the rows: a left rotation, and nothing on an empty
/// list.
pub open spec fn scroll_spec<T>(items: Seq<T>) -> Seq<T> {
    if items.len() == 0 {
        items
    } else {
        rot_left(items)
    }
}

/// `scroll` applied `n` times.
pub open spec fn scroll_n_spec<T>(items: Seq<T>, n: nat) -> Seq<T>
    decreases n,
{
    if n == 0 {
        items
    } else {
        scroll_spec(scroll_n_spec(items, (n - 1) as nat))
    }
}

/// What `move_down` does to the rows and the cursor: a left rotation with the
/// cursor advanced, only while the cursor is short of the last row.
pub open spec fn move_down_spec<T>(items: Seq<T>, idx: nat) -> (Seq<T>, nat) {
    if idx + 1 < items.len() {
        (rot_left(items), (idx + 1) as nat)
    } else {
        (items, idx)
    }
}

/// What `move_up` does to the rows and the cursor: a right rotation with the
/// cursor retreated, only while the cursor is past the first row.
pub open spec fn move_up_spec<T>(items: Seq<T>, idx: nat) -> (Seq<T>, nat) {
    if idx > 0 {
        (rot_right(items), (idx - 1) as nat)
    } else {
        (items, idx)
    }
}

/// An ordered list of display rows with a rotation cursor `idx` and an
/// optional highlighted selection.
pub struct StatefulList<T> {
    pub items: Vec<T>,
    pub idx: usize,
    pub selection: Option<usize>,
}

impl<T> StatefulList<T> {
    /// The cursor stays inside the list, and sits at zero while the list is
    /// empty.
    pub open spec fn wf(&self) -> bool {
        self.idx == 0 || self.idx < self.items.len()
    }

    pub fn with_items(items: Vec<T>) -> (r: StatefulList<T>)
        ensures
            r.items@ == items@,
            r.idx == 0,
            r.selection is None,
            r.wf(),
    {
        StatefulList { items, idx: 0, selection: None }
    }

    /// Append every incoming row at the back, preserving order; earlier rows
    /// stay where they are.
    pub fn update(&mut self, items: Vec<T>)
        ensures
            final(self).items@ == old(self).items@ + items@,
            final(self).idx == old(self).idx,
            final(self).selection == old(self).selection,
            old(self).wf() ==> final(self).wf(),
    {
        let mut incoming = items;
        let ghost all: Seq<T> = incoming@;
        let ghost mut done: int = 0;
        while incoming.len() > 0
            invariant
                0 <= done <= all.len(),
                incoming@ == all.skip(done),
                self.items@ == old(self).items@ + all.take(done),
                self.idx == old(self).idx,
                self.selection == old(self).selection,
            decreases incoming.len(),
        {
            let x = incoming.remove(0);
            self.items.push(x);
            proof {
                assert(all.skip(done).remove(0) =~= all.skip(done + 1));
                assert(all.take(done).push(all[done]) =~= all.take(done + 1));
                done = done + 1;
            }
        }
        proof {
            assert(all.take(done) =~= all);
        }
    }

    /// Move the front row to the back. A no-op on an empty list.
    pub fn scroll(&mut self)
        ensures
            final(self).items@ == scroll_spec(old(self).items@),
            final(self).idx == old(self).idx,
            final(self).selection == old(self).selection,
            old(self).wf() ==> final(self).wf(),
    {
        if self.items.len() > 0 {
            let x = self.items.remove(0);
            self.items.push(x);
            proof {
                assert(self.items@ =~= rot_left(old(self).items@));
            }
        }
    }

    /// One navigation step forward: rotate left and advance the cursor, while
    /// the cursor is short of the last row.
    pub fn move_down(&mut self)
        requires
            old(self).wf(),
        ensures
            final(self).items@ == move_down_spec(old(self).items@, old(self).idx as nat).0,
            final(self).idx as nat == move_down_spec(old(self).items@, old(self).idx as nat).1,
            final(self).selection == old(self).selection,
            final(self).wf(),
    {
        if self.idx + 1 < self.items.len() {
            let x = self.items.remove(0);
            self.items.push(x);
            self.idx = self.idx + 1;
            proof {
                assert(self.items@ =~= rot_left(old(self).items@));
            }
        }
    }

    /// One navigation step backward: rotate right and retreat the cursor,
    /// while the cursor is past the first row.
    pub fn move_up(&mut self)
        requires
            old(self).wf(),
        ensures
            final(self).items@ == move_up_spec(old(self).items@, old(self).idx as nat).0,
            final(self).idx as nat == move_up_spec(old(self).items@, old(self).idx as nat).1,
            final(self).selection == old(self).selection,
            final(self).wf(),
    {
        if self.idx > 0 {
            if let Some(x) = self.items.pop() {
                self.items.insert(0, x);
                self.idx = self.idx - 1;
                proof {
                    assert(self.items@ =~= rot_right(old(self).items@));
                }
            }
        }
    }

    /// Bounds-checked read access to one row.
    pub fn get(&self, index: usize) -> (r: &T)
        requires
            index < self.items@.len(),
        ensures
            *r == self.items@[index as int],
    {
        &self.items[index]
    }

    /// Bounds-checked replacement of one row.
    pub fn set(&mut self, data: T, index: usize)
        requires
            index < old(self).items@.len(),
        ensures
            final(self).items@ == old(self).items@.update(index as int, data),
            final(self).idx == old(self).idx,
            final(self).selection == old(self).selection,
            old(self).wf() ==> final(self).wf(),
    {
        self.items.set(index, data);
    }

    /// Advance the highlighted selection, wrapping past the last row to the
    /// first.
    pub fn next(&mut self)
        ensures
            final(self).items@ == old(self).items@,
            final(self).idx == old(self).idx,
            old(self).selection is None ==> final(self).selection == Some(0usize),
            old(self).selection matches Some(i) ==> final(self).selection == Some(
                if i + 1 >= old(self).items@.len() { 0usize } else { (i + 1) as usize },
            ),
    {
        let n = self.items.len();
        proof {
            assert(old(self).items@.len() == n);
        }
        let i: usize = match self.selection {
            Some(i) => {
                if i >= usize::MAX || i + 1 >= n {
                    0
                } else {
                    i + 1
                }
            },
            None => 0,
        };
        self.selection = Some(i);
    }

    /// Retreat the highlighted selection, wrapping past the first row to the
    /// last.
    pub fn previous(&mut self)
        ensures
            final(self).items@ == old(self).items@,
            final(self).idx == old(self).idx,
            old(self).selection is None ==> final(self).selection == Some(0usize),
            old(self).selection matches Some(i) ==> final(self).selection == Some(
                if i > 0 {
                    (i - 1) as usize
                } else if old(self).items@.len() > 0 {
                    (old(self).items@.len() - 1) as usize
                } else {
                    0usize
                },
            ),
    {
        let i: usize = match self.selection {
            Some(i) => {
                if i == 0 {
                    if self.items.len() > 0 {
                        self.items.len() - 1
                    } else {
                        0
                    }
                } else {
                    i - 1
                }
            },
            None => 0,
        };
        self.selection = Some(i);
    }

    /// Clear the highlighted selection.
    pub fn unselect(&mut self)
        ensures
            final(self).items@ == old(self).items@,
            final(self).idx == old(self).idx,
            final(self).selection is None,
    {
        self.selection = None;
    }
}

/// One step forward and one step back (or the other way round) restore both
/// the row order and the cursor. The forward step must either apply (cursor
/// short of the last row) or be a no-op together with the backward one (a
/// list of at most one row).
pub proof fn lemma_move_down_then_up<T>(items: Seq<T>, idx: nat)
    requires
        idx == 0 || idx < items.len(),
        idx + 1 < items.len() || items.len() <= 1,
    ensures
        move_up_spec(
            move_down_spec(items, idx).0,
            move_down_spec(items, idx).1,
        ) == (items, idx),
{
    if idx + 1 < items.len() {
        lemma_rot_round_trip(items);
    }
}

/// The converse round trip: one step back and one step forward restore both
/// the row order and the cursor, whenever the backward step applies (cursor
/// past the first row) or both steps are no-ops.
pub proof fn lemma_move_up_then_down<T>(items: Seq<T>, idx: nat)
    requires
        idx == 0 || idx < items.len(),
        idx > 0 || items.len() <= 1,
    ensures
        move_down_spec(
            move_up_spec(items, idx).0,
            move_up_spec(items, idx).1,
        ) == (items, idx),
{
    if idx > 0 {
        lemma_rot_round_trip(items);
    }
}

/// `k` scrolls of a list leave its rows cut at position `k`: the tail from
/// `k` followed by the head up to `k`.
proof fn lemma_scroll_n_shape<T>(items: Seq<T>, k: nat)
    requires
        k <= items.len(),
    ensures
        scroll_n_spec(items, k) == items.skip(k as int) + items.take(k as int),
    decreases k,
{
    if k == 0 {
        assert(items.skip(0) + items.take(0) =~= items);
    } else {
        lemma_scroll_n_shape(items, (k - 1) as nat);
        let prev = items.skip(k - 1) + items.take(k - 1);
        assert(prev.len() > 0);
        assert(rot_left(prev) =~= items.skip(k as int) + items.take(k as int));
    }
}

/// Scrolling a list as many times as it has rows restores the original
/// order.
pub proof fn lemma_scroll_full_cycle<T>(items: Seq<T>)
    ensures
        scroll_n_spec(items, items.len()) == items,
{
    lemma_scroll_n_shape(items, items.len());
    assert(items.skip(items.len() as int) + items.take(items.len() as int) =~= items);
}

/// The focus value after a focus-next signal: the next region, wrapping past
/// the last back to the first.
pub open spec fn focus_next_spec(f: int) -> int {
    if f >= 4 {
        0
    } else {
        f + 1
    }
}

/// The focus value after a focus-previous signal: the previous region,
/// jumping from the first to the last.
pub open spec fn focus_prev_spec(f: int) -> int {
    if f == 0 {
        4
    } else {
        f - 1
    }
}

/// Five focus-next signals return the focus to where it started, and
/// focus-previous undoes focus-next exactly, in both orders.
pub proof fn lemma_focus_cycle(f: int)
    requires
        0 <= f < 5,
    ensures
        focus_next_spec(
            focus_next_spec(focus_next_spec(focus_next_spec(focus_next_spec(f)))),
        ) == f,
        focus_prev_spec(focus_next_spec(f)) == f,
        focus_next_spec(focus_prev_spec(f)) == f,
{
}

/// What one character-rotation of the marquee string shows: the first
/// character moved to the end.
pub open spec fn marquee_spec(s: Seq<char>) -> Seq<char> {
    if s.len() == 0 {
        s
    } else {
        s.skip(1) + s.take(1)
    }
}

/// Rotate the first character of a string to its end, for the marquee
/// effect on the running-events line.
pub fn rotate_marquee(s: &str) -> (r: String)
    ensures
        r@ == marquee_spec(s@),
{
    let n = s.unicode_len();
    if n == 0 {
        String::new()
    } else {
        let rest = s.substring_char(1, n);
        let head = s.substring_char(0, 1);
        rest.to_owned().concat(head)
    }
}

/// The application-state aggregate: the focused region, the four display
/// buffers, and a demo activity feed rotated once per render tick.
pub struct App {
    pub focused: i16,
    pub term_height: u16,
    pub curr_events: StatefulList<String>,
    pub current_events_list: StatefulList<String>,
    pub past_events_list: StatefulList<(String, String)>,
    pub leaderboard_stats: StatefulList<(String, String, String, String)>,
    pub writeups: StatefulList<(String, String, String, String, String)>,
    pub events: Vec<(String, String)>,
}

impl App {
    /// The focus names one of the five display regions and every buffer
    /// keeps its cursor inside its rows.
    pub open spec fn wf(&self) -> bool {
        &&& 0 <= self.focused < 5
        &&& self.curr_events.wf()
        &&& self.current_events_list.wf()
        &&& self.past_events_list.wf()
        &&& self.leaderboard_stats.wf()
        &&& self.writeups.wf()
    }

    pub fn new() -> (r: App)
        ensures
            r.wf(),
            r.focused == 0,
            r.term_height == 0,
            r.curr_events.items@.len() == 0,
            r.current_events_list.items@.len() == 0,
            r.past_events_list.items@.len() == 0,
            r.leaderboard_stats.items@.len() == 0,
            r.writeups.items@.len() == 0,
            r.curr_events.idx == 0,
            r.current_events_list.idx == 0,
            r.past_events_list.idx == 0,
            r.leaderboard_stats.idx == 0,
            r.writeups.idx == 0,
            r.curr_events.selection is None,
            r.current_events_list.selection is None,
            r.past_events_list.selection is None,
            r.leaderboard_stats.selection is None,
            r.writeups.selection is None,
            r.events@.len() == 26,
            r.events@[0].0@ == "Event1"@ && r.events@[0].1@ == "INFO"@,
            r.events@[25].0@ == "Event26"@ && r.events@[25].1@ == "INFO"@,
    {
        let events: Vec<(String, String)> = vec![
            ("Event1".to_owned(), "INFO".to_owned()),
            ("Event2".to_owned(), "INFO".to_owned()),
            ("Event3".to_owned(), "CRITICAL".to_owned()),
            ("Event4".to_owned(), "ERROR".to_owned()),
            ("Event5".to_owned(), "INFO".to_owned()),
            ("Event6".to_owned(), "INFO".to_owned()),
            ("Event7".to_owned(), "WARNING".to_owned()),
            ("Event8".to_owned(), "INFO".to_owned()),
            ("Event9".to_owned(), "INFO".to_owned()),
            ("Event10".to_owned(), "INFO".to_owned()),
            ("Event11".to_owned(), "CRITICAL".to_owned()),
            ("Event12".to_owned(), "INFO".to_owned()),
            ("Event13".to_owned(), "INFO".to_owned()),
            ("Event14".to_owned(), "INFO".to_owned()),
            ("Event15".to_owned(), "INFO".to_owned()),
            ("Event16".to_owned(), "INFO".to_owned()),
            ("Event17".to_owned(), "ERROR".to_owned()),
            ("Event18".to_owned(), "ERROR".to_owned()),
            ("Event19".to_owned(), "INFO".to_owned()),
            ("Event20".to_owned(), "INFO".to_owned()),
            ("Event21".to_owned(), "WARNING".to_owned()),
            ("Event22".to_owned(), "INFO".to_owned()),
            ("Event23".to_owned(), "INFO".to_owned()),
            ("Event24".to_owned(), "WARNING".to_owned()),
            ("Event25".to_owned(), "INFO".to_owned()),
            ("Event26".to_owned(), "INFO".to_owned()),
        ];
        App {
            focused: 0,
            term_height: 0,
            curr_events: StatefulList::with_items(Vec::new()),
            current_events_list: StatefulList::with_items(Vec::new()),
            past_events_list: StatefulList::with_items(Vec::new()),
            leaderboard_stats: StatefulList::with_items(Vec::new()),
            writeups: StatefulList::with_items(Vec::new()),
            events,
        }
    }

    /// Rotate the demo activity feed by one entry, simulating progress once
    /// per render tick.
    pub fn on_tick(&mut self)
        ensures
            final(self).events@ == scroll_spec(old(self).events@),
            *final(self) == (App { events: final(self).events, ..*old(self) }),
    {
        if self.events.len() > 0 {
            let e = self.events.remove(0);
            self.events.push(e);
            proof {
                assert(self.events@ =~= rot_left(old(self).events@));
            }
        }
    }

    /// Move the focus to the next display region, wrapping past the last.
    pub fn focus_next(&mut self)
        requires
            old(self).wf(),
        ensures
            final(self).focused as int == focus_next_spec(old(self).focused as int),
            *final(self) == (App { focused: final(self).focused, ..*old(self) }),
            final(self).wf(),
    {
        self.focused = (self.focused + 1) % 5;
    }

    /// Move the focus to the previous display region; from the first region
    /// it jumps to the last.
    pub fn focus_previous(&mut self)
        requires
            old(self).wf(),
        ensures
            final(self).focused as int == focus_prev_spec(old(self).focused as int),
            *final(self) == (App { focused: final(self).focused, ..*old(self) }),
            final(self).wf(),
    {
        if self.focused < 1 {
            self.focused = 4;
        } else {
            self.focused = self.focused - 1;
        }
    }

    /// An advance-selection signal: step the buffer of the focused region
    /// forward. Only the writeups and leaderboard regions react.
    pub fn advance_selection(&mut self)
        requires
            old(self).wf(),
        ensures
            old(self).focused == 3 ==> {
                &&& final(self).writeups.items@ == move_down_spec(
                    old(self).writeups.items@,
                    old(self).writeups.idx as nat,
                ).0
                &&& final(self).writeups.idx as nat == move_down_spec(
                    old(self).writeups.items@,
                    old(self).writeups.idx as nat,
                ).1
                &&& final(self).writeups.selection == old(self).writeups.selection
                &&& *final(self) == (App { writeups: final(self).writeups, ..*old(self) })
            },
            old(self).focused == 4 ==> {
                &&& final(self).leaderboard_stats.items@ == move_down_spec(
                    old(self).leaderboard_stats.items@,
                    old(self).leaderboard_stats.idx as nat,
                ).0
                &&& final(self).leaderboard_stats.idx as nat == move_down_spec(
                    old(self).leaderboard_stats.items@,
                    old(self).leaderboard_stats.idx as nat,
                ).1
                &&& final(self).leaderboard_stats.selection == old(self).leaderboard_stats.selection
                &&& *final(self) == (App {
                    leaderboard_stats: final(self).leaderboard_stats,
                    ..*old(self)
                })
            },
            old(self).focused != 3 && old(self).focused != 4 ==> *final(self) == *old(self),
            final(self).wf(),
    {
        if self.focused == 3 {
            self.writeups.move_down();
        } else if self.focused == 4 {
            self.leaderboard_stats.move_down();
        }
    }

    /// A retreat-selection signal: step the buffer of the focused region
    /// backward. Only the writeups and leaderboard regions react.
    pub fn retreat_selection(&mut self)
        requires
            old(self).wf(),
        ensures
            old(self).focused == 3 ==> {
                &&& final(self).writeups.items@ == move_up_spec(
                    old(self).writeups.items@,
                    old(self).writeups.idx as nat,
                ).0
                &&& final(self).writeups.idx as nat == move_up_spec(
                    old(self).writeups.items@,
                    old(self).writeups.idx as nat,
                ).1
                &&& final(self).writeups.selection == old(self).writeups.selection
                &&& *final(self) == (App { writeups: final(self).writeups, ..*old(self) })
            },
            old(self).focused == 4 ==> {
                &&& final(self).leaderboard_stats.items@ == move_up_spec(
                    old(self).leaderboard_stats.items@,
                    old(self).leaderboard_stats.idx as nat,
                ).0
                &&& final(self).leaderboard_stats.idx as nat == move_up_spec(
                    old(self).leaderboard_stats.items@,
                    old(self).leaderboard_stats.idx as nat,
                ).1
                &&& final(self).leaderboard_stats.selection == old(self).leaderboard_stats.selection
                &&& *final(self) == (App {
                    leaderboard_stats: final(self).leaderboard_stats,
                    ..*old(self)
                })
            },
            old(self).focused != 3 && old(self).focused != 4 ==> *final(self) == *old(self),
            final(self).wf(),
    {
        if self.focused == 3 {
            self.writeups.move_up();
        } else if self.focused == 4 {
            self.leaderboard_stats.move_up();
        }
    }

    /// One marquee step: cycle the characters of the first running-events
    /// row. A no-op while that buffer is empty.
    pub fn marquee_step(&mut self)
        ensures
            old(self).curr_events.items@.len() == 0 ==> *final(self) == *old(self),
            old(self).curr_events.items@.len() > 0 ==> {
                &&& final(self).curr_events.items@.len() == old(self).curr_events.items@.len()
                &&& final(self).curr_events.items@[0]@ == marquee_spec(
                    old(self).curr_events.items@[0]@,
                )
                &&& (forall|i: int|
                    1 <= i < old(self).curr_events.items@.len()
                        ==> final(self).curr_events.items@[i] == old(self).curr_events.items@[i])
                &&& final(self).curr_events.idx == old(self).curr_events.idx
                &&& final(self).curr_events.selection == old(self).curr_events.selection
                &&& *final(self) == (App { curr_events: final(self).curr_events, ..*old(self) })
            },
            old(self).wf() ==> final(self).wf(),
    {
        if self.curr_events.items.len() > 0 {
            let s = self.curr_events.get(0).clone();
            let rotated = rotate_marquee(s.as_str());
            self.curr_events.set(rotated, 0);
        }
    }
}

/// The cooperative auto-scroll timer: a tick counter decremented once per
/// render-loop iteration that fires a rotation step each time it runs out.
pub struct AutoScroll {
    pub counter: u32,
    pub interval: u32,
    pub enabled: bool,
}

impl AutoScroll {
    pub fn new(interval: u32) -> (r: AutoScroll)
        ensures
            r.counter == 0,
            r.interval == interval,
            r.enabled,
    {
        AutoScroll { counter: 0, interval, enabled: true }
    }

    /// Count one render-loop iteration down. Fires exactly when enabled and
    /// the counter has run out, and then rewinds the counter to the full
    /// interval.
    pub fn tick(&mut self) -> (fire: bool)
        ensures
            !old(self).enabled ==> !fire && *final(self) == *old(self),
            old(self).enabled && old(self).counter == 0 ==> fire && *final(self) == (AutoScroll {
                counter: old(self).interval,
                ..*old(self)
            }),
            old(self).enabled && old(self).counter > 0 ==> !fire && *final(self) == (AutoScroll {
                counter: (old(self).counter - 1) as u32,
                ..*old(self)
            }),
    {
        if !self.enabled {
            false
        } else if self.counter == 0 {
            self.counter = self.interval;
            true
        } else {
            self.counter = self.counter - 1;
            false
        }
    }
}

} // verus!

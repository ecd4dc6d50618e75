//! The refresh coordinator: four concurrent fetches report completion into
//! a counter, and the render loop merges their results into the display
//! buffers exactly once, after all four have signaled.
//!
//! The fetches themselves are collaborators; the library holds the decision
//! logic - when the merge may happen and what it does - so the loop around
//! it can poll without re-appending a batch twice.
use vstd::prelude::*;

use crate::types::App;

verus! {

/// The shared completion state: how many fetches have signaled, how many
/// are expected, and whether the merged batch is still owed to the buffers.
#[derive(Clone, Copy, Debug, PartialEq, Eq, Structural)]
pub struct RefreshState {
    pub loaded: u8,
    pub total: u8,
    pub needs_load: bool,
}

/// The merge may happen: every fetch has signaled completion and the batch
/// has not been merged yet.
pub open spec fn merge_ready(st: RefreshState) -> bool {
    st.needs_load && st.loaded == st.total
}

impl RefreshState {
    pub open spec fn wf(&self) -> bool {
        self.loaded <= self.total
    }

    pub fn new(total: u8) -> (r: RefreshState)
        ensures
            r.loaded == 0,
            r.total == total,
            r.needs_load,
            r.wf(),
    {
        RefreshState { loaded: 0, total, needs_load: true }
    }

    /// One fetch signals completion, success or failure alike, so a failed
    /// feed can never starve the merge.
    pub fn record_completion(&mut self)
        requires
            old(self).wf(),
            old(self).loaded < old(self).total,
        ensures
            final(self).loaded == old(self).loaded + 1,
            final(self).total == old(self).total,
            final(self).needs_load == old(self).needs_load,
            final(self).wf(),
    {
        self.loaded = self.loaded + 1;
    }

    /// Whether the merge may happen now.
    pub fn ready(&self) -> (r: bool)
        ensures
            r == merge_ready(*self),
    {
        self.needs_load && self.loaded == self.total
    }
}

/// The result sets of one round of fetches, one per feed, each owned
/// outright and handed over to the buffers on merge.
pub struct FetchResults {
    pub running: Vec<String>,
    pub leaderboard: Vec<(String, String, String, String)>,
    pub past: Vec<(String, String)>,
    pub writeups: Vec<(String, String, String, String, String)>,
}

/// The mathematical contents of the four feed buffers.
pub struct BuffersV {
    pub running: Seq<Seq<char>>,
    pub leaderboard: Seq<(Seq<char>, Seq<char>, Seq<char>, Seq<char>)>,
    pub past: Seq<(Seq<char>, Seq<char>)>,
    pub writeups: Seq<(Seq<char>, Seq<char>, Seq<char>, Seq<char>, Seq<char>)>,
}

impl FetchResults {
    /// The contents of one round of results.
    pub open spec fn results_view(&self) -> BuffersV {
        BuffersV {
            running: self.running.deep_view(),
            leaderboard: self.leaderboard.deep_view(),
            past: self.past.deep_view(),
            writeups: self.writeups.deep_view(),
        }
    }
}

impl App {
    /// The contents of the four feed buffers of the application state.
    pub open spec fn buffers_view(&self) -> BuffersV {
        BuffersV {
            running: self.curr_events.items.deep_view(),
            leaderboard: self.leaderboard_stats.items.deep_view(),
            past: self.past_events_list.items.deep_view(),
            writeups: self.writeups.items.deep_view(),
        }
    }
}

/// A fetched batch appended at the back of each buffer, in feed order.
pub open spec fn merge_buffers(b: BuffersV, r: BuffersV) -> BuffersV {
    BuffersV {
        running: b.running + r.running,
        leaderboard: b.leaderboard + r.leaderboard,
        past: b.past + r.past,
        writeups: b.writeups + r.writeups,
    }
}

/// One poll of the coordinator: when the merge is ready, the batch goes
/// into the buffers and the needs-load flag comes down; otherwise nothing
/// changes.
pub open spec fn merge_step(b: BuffersV, st: RefreshState, r: BuffersV) -> (BuffersV, RefreshState) {
    if merge_ready(st) {
        (merge_buffers(b, r), RefreshState { needs_load: false, ..st })
    } else {
        (b, st)
    }
}

/// Merge-from-fetch is idempotent: once a poll has consumed the batch (or
/// found nothing to do), polling again with the same results changes
/// neither the buffers nor the completion state, so a batch is never
/// appended twice.
pub proof fn lemma_merge_idempotent(b: BuffersV, st: RefreshState, r: BuffersV)
    ensures
        ({
            let (b1, st1) = merge_step(b, st, r);
            merge_step(b1, st1, r) == (b1, st1)
        }),
{
}

/// A merge that happened leaves the coordinator unready: the flag is down
/// and stays down, whatever the counter does afterwards.
pub proof fn lemma_merge_clears_readiness(b: BuffersV, st: RefreshState, r: BuffersV)
    requires
        merge_ready(st),
    ensures
        !merge_ready(merge_step(b, st, r).1),
        !merge_step(b, st, r).1.needs_load,
{
}

/// One poll of the render loop: exactly the `merge_step` decision, applied
/// to the real buffers. When the merge is not ready the batch is handed
/// back untouched; when it is, the batch is consumed and the needs-load
/// flag comes down, so the merge happens at most once.
pub fn try_merge(app: &mut App, st: &mut RefreshState, results: FetchResults) -> (rest: Option<
    FetchResults,
>)
    ensures
        (final(app).buffers_view(), *final(st)) == merge_step(
            old(app).buffers_view(),
            *old(st),
            results.results_view(),
        ),
        merge_ready(*old(st)) ==> rest is None,
        !merge_ready(*old(st)) ==> rest == Some(results),
        final(app).focused == old(app).focused,
        final(app).term_height == old(app).term_height,
        final(app).events == old(app).events,
        final(app).current_events_list == old(app).current_events_list,
        final(app).curr_events.idx == old(app).curr_events.idx,
        final(app).curr_events.selection == old(app).curr_events.selection,
        final(app).leaderboard_stats.idx == old(app).leaderboard_stats.idx,
        final(app).leaderboard_stats.selection == old(app).leaderboard_stats.selection,
        final(app).past_events_list.idx == old(app).past_events_list.idx,
        final(app).past_events_list.selection == old(app).past_events_list.selection,
        final(app).writeups.idx == old(app).writeups.idx,
        final(app).writeups.selection == old(app).writeups.selection,
        old(app).wf() ==> final(app).wf(),
        final(st).wf() == old(st).wf(),
{
    if st.ready() {
        let FetchResults { running, leaderboard, past, writeups } = results;
        app.curr_events.update(running);
        app.leaderboard_stats.update(leaderboard);
        app.past_events_list.update(past);
        app.writeups.update(writeups);
        st.needs_load = false;
        proof {
            assert(app.curr_events.items.deep_view() =~= old(app).curr_events.items.deep_view()
                + results.running.deep_view());
            assert(app.leaderboard_stats.items.deep_view()
                =~= old(app).leaderboard_stats.items.deep_view()
                + results.leaderboard.deep_view());
            assert(app.past_events_list.items.deep_view()
                =~= old(app).past_events_list.items.deep_view() + results.past.deep_view());
            assert(app.writeups.items.deep_view() =~= old(app).writeups.items.deep_view()
                + results.writeups.deep_view());
        }
        None
    } else {
        Some(results)
    }
}

} // verus!

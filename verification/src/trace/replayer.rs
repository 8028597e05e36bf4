//! Replaying a recorded run.

use vstd::prelude::*;

use crate::browser::BrowserConfig;
use crate::dom::node::{DomSnapshot, NodeView};
use crate::events::stream::{
    keep_last, law_push_all_is_pushes, DEFAULT_MAX_RETAINED_EVENTS, EventStream, RuntimeEvent,
    SequencedEvent, SequencedView,
};
use crate::session::cookies::SessionState;
use crate::transport::protocol::{batches_view, opt_session, BatchRecordView, TraceFile};

verus! {

/// What a recorded run left behind.
#[derive(Debug)]
pub struct ReplayState {
    pub browser_config: BrowserConfig,
    pub session: Option<SessionState>,
    pub final_snapshot: DomSnapshot,
    pub events: EventStream,
}

/// Whether a list of events holds a navigation.
pub open spec fn navigates(events: Seq<SequencedView>) -> bool {
    exists|i: int| 0 <= i < events.len() && (#[trigger] events[i]).event is Navigation
}

/// The document at the end of a run: the last snapshot, unless a later batch without one
/// navigated away from it.
pub open spec fn final_nodes(batches: Seq<BatchRecordView>) -> Seq<NodeView>
    decreases batches.len(),
{
    if batches.len() == 0 {
        Seq::empty()
    } else {
        let last = batches.last();
        match last.response.snapshot {
            Some(nodes) => nodes,
            None => if navigates(last.emitted_events) {
                Seq::empty()
            } else {
                final_nodes(batches.drop_last())
            },
        }
    }
}

/// The events of all batches in order.
pub open spec fn all_events(batches: Seq<BatchRecordView>) -> Seq<SequencedView>
    decreases batches.len(),
{
    if batches.len() == 0 {
        Seq::empty()
    } else {
        all_events(batches.drop_last()) + batches.last().emitted_events
    }
}

/// What a recorded run left behind: the configuration and the session that it started with,
/// its last document, and as many of its last events as a stream retains.
pub fn replay_trace(trace: &TraceFile) -> (res: ReplayState)
    ensures
        res.browser_config@ == trace@.browser_config,
        opt_session(res.session) == trace@.initial_session,
        res.final_snapshot@ == final_nodes(trace@.batches),
        res.events.entries() == keep_last(
            all_events(trace@.batches),
            Some(DEFAULT_MAX_RETAINED_EVENTS),
        ),
        res.events.limit() == Some(DEFAULT_MAX_RETAINED_EVENTS),
{
    let ghost all = trace@.batches;
    let ghost limit = Some(DEFAULT_MAX_RETAINED_EVENTS);
    let mut final_snapshot = DomSnapshot::default();
    let mut events = EventStream::default();
    let mut i: usize = 0;
    assert(all.take(0) =~= Seq::empty());
    while i < trace.batches.len()
        invariant
            i <= trace.batches@.len(),
            all == batches_view(trace.batches@),
            limit == Some(DEFAULT_MAX_RETAINED_EVENTS),
            final_snapshot@ == final_nodes(all.take(i as int)),
            events.entries() == keep_last(all_events(all.take(i as int)), limit),
            events.limit() == limit,
        decreases trace.batches@.len() - i,
    {
        let batch = &trace.batches[i];
        let ghost record = batch@;
        proof {
            assert(all.take(i + 1).drop_last() =~= all.take(i as int));
            assert(all.take(i + 1).last() == record);
        }
        let mut navigated = false;
        let ghost before = all_events(all.take(i as int));
        let mut j: usize = 0;
        assert(before + record.emitted_events.take(0) =~= before);
        while j < batch.emitted_events.len()
            invariant
                j <= batch.emitted_events@.len(),
                record == batch@,
                limit == Some(DEFAULT_MAX_RETAINED_EVENTS),
                navigated == navigates(record.emitted_events.take(j as int)),
                events.entries() == keep_last(
                    before + record.emitted_events.take(j as int),
                    limit,
                ),
                events.limit() == limit,
            decreases batch.emitted_events@.len() - j,
        {
            let event = &batch.emitted_events[j];
            let ghost done = record.emitted_events.take(j as int);
            let ghost next = record.emitted_events.take(j + 1);
            proof {
                assert(record.emitted_events[j as int] == event@);
                assert(next =~= done.push(event@));
                law_push_all_is_pushes(before, done, event@, limit);
                assert(navigates(next) == (navigates(done) || event@.event is Navigation)) by {
                    if navigates(done) {
                        let k = choose|k: int|
                            0 <= k < done.len() && (#[trigger] done[k]).event is Navigation;
                        assert(next[k].event is Navigation);
                    }
                    if event@.event is Navigation {
                        assert(next[j as int].event is Navigation);
                    }
                    if navigates(next) {
                        let k = choose|k: int|
                            0 <= k < next.len() && (#[trigger] next[k]).event is Navigation;
                        if k < done.len() {
                            assert(done[k].event is Navigation);
                        }
                    }
                }
            }
            navigated = navigated || matches!(event.event, RuntimeEvent::Navigation { .. });
            events.push(
                SequencedEvent {
                    sequence: event.sequence,
                    timestamp_ms: event.timestamp_ms,
                    event: event.event.clone(),
                },
            );
            j += 1;
        }
        assert(record.emitted_events.take(j as int) =~= record.emitted_events);
        match &batch.response.snapshot {
            Some(snapshot) => {
                final_snapshot = snapshot.clone();
            },
            None => {
                if navigated {
                    final_snapshot = DomSnapshot::default();
                }
            },
        }
        i += 1;
    }
    assert(all.take(i as int) =~= all);
    let session = match &trace.initial_session {
        Some(s) => Some(s.clone()),
        None => None,
    };
    ReplayState {
        browser_config: trace.browser_config.clone(),
        session,
        final_snapshot,
        events,
    }
}

/// A batch that neither brings a snapshot nor navigates leaves the document as it was.
pub proof fn law_replay_keeps_snapshot(batches: Seq<BatchRecordView>, b: BatchRecordView)
    requires
        b.response.snapshot is None,
        !navigates(b.emitted_events),
    ensures
        final_nodes(batches.push(b)) == final_nodes(batches),
{
    assert(batches.push(b).drop_last() =~= batches);
}

/// A batch that navigates without bringing a snapshot leaves an empty document.
pub proof fn law_replay_navigation_clears(batches: Seq<BatchRecordView>, b: BatchRecordView)
    requires
        b.response.snapshot is None,
        navigates(b.emitted_events),
    ensures
        final_nodes(batches.push(b)) == Seq::<NodeView>::empty(),
{
    assert(batches.push(b).drop_last() =~= batches);
}

/// A batch that brings a snapshot leaves that document, whatever came before.
pub proof fn law_replay_takes_snapshot(
    batches: Seq<BatchRecordView>,
    b: BatchRecordView,
    nodes: Seq<NodeView>,
)
    requires
        b.response.snapshot == Some(nodes),
    ensures
        final_nodes(batches.push(b)) == nodes,
{
}

/// Replaying a recording that went on gives the earlier events and then those of the further
/// batch, each with the number it was emitted under.
pub proof fn law_replay_keeps_events(batches: Seq<BatchRecordView>, b: BatchRecordView)
    ensures
        all_events(batches.push(b)) == all_events(batches) + b.emitted_events,
{
    assert(batches.push(b).drop_last() =~= batches);
}

} // verus!

//! Runtime events and the stream that retains them.

use std::collections::VecDeque;
use vstd::prelude::*;

use crate::dom::diff::{clone_mutations, mutations_view, DomMutation, MutationView};
use crate::json::{clone_opt_json, opt_json, JsonValue, JsonView};
use crate::text::{clone_opt, opt_text};

verus! {

/// The number of events that a stream retains by default.
pub const DEFAULT_MAX_RETAINED_EVENTS: usize = 10_000;

/// The kinds of events that a reader can ask for.
#[derive(Debug, Clone, Copy, PartialEq, Eq, Structural)]
pub enum EventType {
    DomMutation,
    Navigation,
    Network,
    WebSocket,
    Log,
}

/// How far a network request has come.
#[derive(Debug, Clone, Copy, PartialEq, Eq, Structural)]
pub enum NetworkResourcePhase {
    Request,
    Response,
    Finished,
    Failed,
}

/// Which way a WebSocket frame went.
#[derive(Debug, Clone, Copy, PartialEq, Eq, Structural)]
pub enum WebSocketFrameDirection {
    Sent,
    Received,
}

/// Something that happened in the browser.
#[derive(Debug, PartialEq, Eq)]
#[allow(inconsistent_fields)]
pub enum RuntimeEvent {
    DomMutation { changes: Vec<DomMutation> },
    Navigation { url: String },
    Network {
        request_id: String,
        url: String,
        method: Option<String>,
        resource_type: Option<String>,
        phase: Option<NetworkResourcePhase>,
        status: Option<u16>,
        status_text: Option<String>,
        mime_type: Option<String>,
        from_cache: Option<bool>,
        error_text: Option<String>,
    },
    WebSocketOpen { request_id: String, url: String },
    WebSocketHandshake {
        request_id: String,
        url: String,
        status: Option<u16>,
        status_text: Option<String>,
    },
    WebSocketFrame {
        request_id: String,
        url: String,
        direction: WebSocketFrameDirection,
        opcode: Option<u8>,
        mask: Option<bool>,
        payload_preview: String,
        payload_length: usize,
        truncated: bool,
    },
    WebSocketClose { request_id: String, url: String },
    Log { level: String, message: String, data: Option<JsonValue> },
    Unknown { event_type: String, payload: JsonValue },
}

/// The contents of a `RuntimeEvent`.
#[verifier::ext_equal]
#[allow(inconsistent_fields)]
pub enum EventView {
    DomMutation { changes: Seq<MutationView> },
    Navigation { url: Seq<char> },
    Network {
        request_id: Seq<char>,
        url: Seq<char>,
        method: Option<Seq<char>>,
        resource_type: Option<Seq<char>>,
        phase: Option<NetworkResourcePhase>,
        status: Option<u16>,
        status_text: Option<Seq<char>>,
        mime_type: Option<Seq<char>>,
        from_cache: Option<bool>,
        error_text: Option<Seq<char>>,
    },
    WebSocketOpen { request_id: Seq<char>, url: Seq<char> },
    WebSocketHandshake {
        request_id: Seq<char>,
        url: Seq<char>,
        status: Option<u16>,
        status_text: Option<Seq<char>>,
    },
    WebSocketFrame {
        request_id: Seq<char>,
        url: Seq<char>,
        direction: WebSocketFrameDirection,
        opcode: Option<u8>,
        mask: Option<bool>,
        payload_preview: Seq<char>,
        payload_length: usize,
        truncated: bool,
    },
    WebSocketClose { request_id: Seq<char>, url: Seq<char> },
    Log { level: Seq<char>, message: Seq<char>, data: Option<JsonView> },
    Unknown { event_type: Seq<char>, payload: JsonView },
}

impl View for RuntimeEvent {
    type V = EventView;

    open spec fn view(&self) -> EventView {
        match *self {
            RuntimeEvent::DomMutation { changes } => EventView::DomMutation {
                changes: mutations_view(changes@),
            },
            RuntimeEvent::Navigation { url } => EventView::Navigation { url: url@ },
            RuntimeEvent::Network {
                request_id,
                url,
                method,
                resource_type,
                phase,
                status,
                status_text,
                mime_type,
                from_cache,
                error_text,
            } => EventView::Network {
                request_id: request_id@,
                url: url@,
                method: opt_text(method),
                resource_type: opt_text(resource_type),
                phase,
                status,
                status_text: opt_text(status_text),
                mime_type: opt_text(mime_type),
                from_cache,
                error_text: opt_text(error_text),
            },
            RuntimeEvent::WebSocketOpen { request_id, url } => EventView::WebSocketOpen {
                request_id: request_id@,
                url: url@,
            },
            RuntimeEvent::WebSocketHandshake { request_id, url, status, status_text } =>
            EventView::WebSocketHandshake {
                request_id: request_id@,
                url: url@,
                status,
                status_text: opt_text(status_text),
            },
            RuntimeEvent::WebSocketFrame {
                request_id,
                url,
                direction,
                opcode,
                mask,
                payload_preview,
                payload_length,
                truncated,
            } => EventView::WebSocketFrame {
                request_id: request_id@,
                url: url@,
                direction,
                opcode,
                mask,
                payload_preview: payload_preview@,
                payload_length,
                truncated,
            },
            RuntimeEvent::WebSocketClose { request_id, url } => EventView::WebSocketClose {
                request_id: request_id@,
                url: url@,
            },
            RuntimeEvent::Log { level, message, data } => EventView::Log {
                level: level@,
                message: message@,
                data: opt_json(data),
            },
            RuntimeEvent::Unknown { event_type, payload } => EventView::Unknown {
                event_type: event_type@,
                payload: payload@,
            },
        }
    }
}

impl Clone for RuntimeEvent {
    fn clone(&self) -> (res: Self)
        ensures
            res@ == self@,
    {
        match self {
            RuntimeEvent::DomMutation { changes } => RuntimeEvent::DomMutation {
                changes: clone_mutations(changes),
            },
            RuntimeEvent::Navigation { url } => RuntimeEvent::Navigation { url: url.clone() },
            RuntimeEvent::Network {
                request_id,
                url,
                method,
                resource_type,
                phase,
                status,
                status_text,
                mime_type,
                from_cache,
                error_text,
            } => RuntimeEvent::Network {
                request_id: request_id.clone(),
                url: url.clone(),
                method: clone_opt(method),
                resource_type: clone_opt(resource_type),
                phase: *phase,
                status: *status,
                status_text: clone_opt(status_text),
                mime_type: clone_opt(mime_type),
                from_cache: *from_cache,
                error_text: clone_opt(error_text),
            },
            RuntimeEvent::WebSocketOpen { request_id, url } => RuntimeEvent::WebSocketOpen {
                request_id: request_id.clone(),
                url: url.clone(),
            },
            RuntimeEvent::WebSocketHandshake { request_id, url, status, status_text } =>
            RuntimeEvent::WebSocketHandshake {
                request_id: request_id.clone(),
                url: url.clone(),
                status: *status,
                status_text: clone_opt(status_text),
            },
            RuntimeEvent::WebSocketFrame {
                request_id,
                url,
                direction,
                opcode,
                mask,
                payload_preview,
                payload_length,
                truncated,
            } => RuntimeEvent::WebSocketFrame {
                request_id: request_id.clone(),
                url: url.clone(),
                direction: *direction,
                opcode: *opcode,
                mask: *mask,
                payload_preview: payload_preview.clone(),
                payload_length: *payload_length,
                truncated: *truncated,
            },
            RuntimeEvent::WebSocketClose { request_id, url } => RuntimeEvent::WebSocketClose {
                request_id: request_id.clone(),
                url: url.clone(),
            },
            RuntimeEvent::Log { level, message, data } => RuntimeEvent::Log {
                level: level.clone(),
                message: message.clone(),
                data: clone_opt_json(data),
            },
            RuntimeEvent::Unknown { event_type, payload } => RuntimeEvent::Unknown {
                event_type: event_type.clone(),
                payload: payload.clone(),
            },
        }
    }
}

/// The kind of an event; events of unknown kinds count as log entries.
pub open spec fn kind_of(e: EventView) -> EventType {
    match e {
        EventView::DomMutation { .. } => EventType::DomMutation,
        EventView::Navigation { .. } => EventType::Navigation,
        EventView::Network { .. } => EventType::Network,
        EventView::WebSocketOpen { .. } => EventType::WebSocket,
        EventView::WebSocketHandshake { .. } => EventType::WebSocket,
        EventView::WebSocketFrame { .. } => EventType::WebSocket,
        EventView::WebSocketClose { .. } => EventType::WebSocket,
        EventView::Log { .. } => EventType::Log,
        EventView::Unknown { .. } => EventType::Log,
    }
}

impl RuntimeEvent {
    /// The kind of an event; events of unknown kinds count as log entries.
    pub fn event_type(&self) -> (res: EventType)
        ensures
            res == kind_of(self@),
    {
        match self {
            RuntimeEvent::DomMutation { .. } => EventType::DomMutation,
            RuntimeEvent::Navigation { .. } => EventType::Navigation,
            RuntimeEvent::Network { .. } => EventType::Network,
            RuntimeEvent::WebSocketOpen { .. }
            | RuntimeEvent::WebSocketHandshake { .. }
            | RuntimeEvent::WebSocketFrame { .. }
            | RuntimeEvent::WebSocketClose { .. } => EventType::WebSocket,
            RuntimeEvent::Log { .. } => EventType::Log,
            RuntimeEvent::Unknown { .. } => EventType::Log,
        }
    }
}

/// An event with its place in the stream.
#[derive(Debug, PartialEq, Eq)]
pub struct SequencedEvent {
    pub sequence: u64,
    pub timestamp_ms: u64,
    pub event: RuntimeEvent,
}

/// The contents of a `SequencedEvent`.
#[verifier::ext_equal]
pub struct SequencedView {
    pub sequence: u64,
    pub timestamp_ms: u64,
    pub event: EventView,
}

impl View for SequencedEvent {
    type V = SequencedView;

    open spec fn view(&self) -> SequencedView {
        SequencedView {
            sequence: self.sequence,
            timestamp_ms: self.timestamp_ms,
            event: self.event@,
        }
    }
}

impl Clone for SequencedEvent {
    fn clone(&self) -> (res: Self)
        ensures
            res@ == self@,
    {
        SequencedEvent {
            sequence: self.sequence,
            timestamp_ms: self.timestamp_ms,
            event: self.event.clone(),
        }
    }
}

/// The contents of a list of events.
pub open spec fn events_view(list: Seq<SequencedEvent>) -> Seq<SequencedView> {
    Seq::new(list.len(), |i: int| list[i]@)
}

/// What a reader gets: the events that it asked for, and whether it missed any.
#[derive(Debug, PartialEq, Eq)]
pub struct EventReadWindow {
    pub requested_since: u64,
    pub oldest_available_sequence: Option<u64>,
    pub latest_sequence: u64,
    pub gap_detected: bool,
    pub events: Vec<SequencedEvent>,
}

/// The contents of an `EventReadWindow`.
#[verifier::ext_equal]
pub struct WindowView {
    pub requested_since: u64,
    pub oldest_available_sequence: Option<u64>,
    pub latest_sequence: u64,
    pub gap_detected: bool,
    pub events: Seq<SequencedView>,
}

impl View for EventReadWindow {
    type V = WindowView;

    open spec fn view(&self) -> WindowView {
        WindowView {
            requested_since: self.requested_since,
            oldest_available_sequence: self.oldest_available_sequence,
            latest_sequence: self.latest_sequence,
            gap_detected: self.gap_detected,
            events: events_view(self.events@),
        }
    }
}

/// The last entries of a list, as many as a limit allows.
pub open spec fn keep_last(list: Seq<SequencedView>, limit: Option<usize>) -> Seq<SequencedView> {
    match limit {
        Some(n) => if list.len() > n {
            list.skip(list.len() - n)
        } else {
            list
        },
        None => list,
    }
}

/// Whether a reader asks for an event: it comes after `since` and is of the kind asked for.
pub open spec fn wanted(e: SequencedView, since: u64, filter: Option<EventType>) -> bool {
    e.sequence > since && (filter is Some ==> filter == Some(kind_of(e.event)))
}

/// The events of a list that a reader asks for, in order.
pub open spec fn select(
    list: Seq<SequencedView>,
    since: u64,
    filter: Option<EventType>,
) -> Seq<SequencedView>
    decreases list.len(),
{
    if list.len() == 0 {
        Seq::empty()
    } else if wanted(list.last(), since, filter) {
        select(list.drop_last(), since, filter).push(list.last())
    } else {
        select(list.drop_last(), since, filter)
    }
}

/// The sequence number of the first entry.
pub open spec fn oldest_of(list: Seq<SequencedView>) -> Option<u64> {
    if list.len() == 0 {
        None
    } else {
        Some(list[0].sequence)
    }
}

/// The sequence number of the last entry, or zero.
pub open spec fn latest_of(list: Seq<SequencedView>) -> u64 {
    if list.len() == 0 {
        0
    } else {
        list.last().sequence
    }
}

/// Whether a reader that has seen everything up to `since` missed an event that is gone.
pub open spec fn gap_in(list: Seq<SequencedView>, since: u64) -> bool {
    list.len() > 0 && latest_of(list) > 0 && since < u64::MAX && since + 1 < list[0].sequence
}

/// What a reader gets from a list of events.
pub open spec fn window_of(
    list: Seq<SequencedView>,
    since: u64,
    filter: Option<EventType>,
) -> WindowView {
    WindowView {
        requested_since: since,
        oldest_available_sequence: oldest_of(list),
        latest_sequence: latest_of(list),
        gap_detected: gap_in(list, since),
        events: select(list, since, filter),
    }
}

/// The events that are still retained. A stream with a limit holds at most that many.
#[derive(Debug)]
pub struct EventStream {
    events: VecDeque<SequencedEvent>,
    max_retained: Option<usize>,
}

impl EventStream {
    /// The retained events, oldest first.
    pub closed spec fn entries(&self) -> Seq<SequencedView> {
        events_view(self.events@)
    }

    /// The number of events that the stream retains at most.
    pub closed spec fn limit(&self) -> Option<usize> {
        self.max_retained
    }

    #[verifier::type_invariant]
    closed spec fn inv(&self) -> bool {
        self.max_retained matches Some(n) ==> n >= 1 && self.events@.len() <= n
    }

    /// A stream that retains at most `max_retained` events, and at least one.
    pub fn with_max_retained(max_retained: usize) -> (res: Self)
        ensures
            res.entries() == Seq::<SequencedView>::empty(),
            res.limit() == Some(
                if max_retained < 1 {
                    1usize
                } else {
                    max_retained
                },
            ),
    {
        let limit: usize = if max_retained < 1 {
            1
        } else {
            max_retained
        };
        let res = EventStream { events: VecDeque::new(), max_retained: Some(limit) };
        assert(res.entries() =~= Seq::<SequencedView>::empty());
        res
    }

    /// A stream that retains every event.
    pub fn unbounded() -> (res: Self)
        ensures
            res.entries() == Seq::<SequencedView>::empty(),
            res.limit() is None,
    {
        let res = EventStream { events: VecDeque::new(), max_retained: None };
        assert(res.entries() =~= Seq::<SequencedView>::empty());
        res
    }

    /// Adds an event; the oldest one leaves where the limit is passed.
    pub fn push(&mut self, event: SequencedEvent)
        ensures
            final(self).entries() == keep_last(
                old(self).entries().push(event@),
                old(self).limit(),
            ),
            final(self).limit() == old(self).limit(),
    {
        let mut list: Vec<SequencedEvent> = Vec::new();
        let ghost added = event@;
        list.push(event);
        self.push_all(list);
        proof {
            assert(events_view(list@) =~= seq![added]);
            assert(old(self).entries() + seq![added] =~= old(self).entries().push(added));
        }
    }

    /// Adds events in order; the oldest ones leave where the limit is passed.
    pub fn push_all(&mut self, events: Vec<SequencedEvent>)
        ensures
            final(self).entries() == keep_last(
                old(self).entries() + events_view(events@),
                old(self).limit(),
            ),
            final(self).limit() == old(self).limit(),
    {
        let ghost before = self.entries();
        let ghost more = events_view(events@);
        proof {
            use_type_invariant(&*self);
        }
        let limit = self.max_retained;
        let mut queue: VecDeque<SequencedEvent> = VecDeque::new();
        std::mem::swap(&mut queue, &mut self.events);
        let mut i: usize = 0;
        assert(before + more.take(0) =~= before);
        while i < events.len()
            invariant
                i <= events@.len(),
                more == events_view(events@),
                events_view(queue@) == before + more.take(i as int),
            decreases events@.len() - i,
        {
            let ghost seen = queue@;
            let event = events[i].clone();
            let ghost added = event@;
            queue.push_back(event);
            proof {
                assert(events_view(queue@) =~= events_view(seen).push(added));
                assert(more.take(i + 1) =~= more.take(i as int).push(added));
                assert(before + more.take(i + 1) =~= (before + more.take(i as int)).push(added));
            }
            i += 1;
        }
        let ghost all = before + more;
        assert(more.take(i as int) =~= more);
        if let Some(max_retained) = limit {
            assert(all.skip(0) =~= all);
            while queue.len() > max_retained
                invariant
                    limit == Some(max_retained),
                    events_view(queue@) == all.skip(all.len() - queue@.len()),
                    queue@.len() <= all.len(),
                    queue@.len() >= max_retained || queue@.len() == all.len(),
                decreases queue@.len(),
            {
                let ghost seen = queue@;
                let _ = queue.pop_front();
                assert(events_view(queue@) =~= events_view(seen).skip(1));
                assert(all.skip(all.len() - seen.len()).skip(1) =~= all.skip(
                    all.len() - queue@.len(),
                ));
            }
            assert(events_view(queue@) =~= keep_last(all, limit));
        }
        *self = EventStream { events: queue, max_retained: limit };
    }

    /// The events after `sequence` of the kind asked for, and whether the reader missed any.
    pub fn read_from(&self, sequence: u64, filter: Option<EventType>) -> (res: EventReadWindow)
        ensures
            res@ == window_of(self.entries(), sequence, filter),
    {
        let oldest_available_sequence = self.oldest_sequence();
        let latest_sequence = self.latest_sequence();
        let gap_detected = match oldest_available_sequence {
            Some(oldest) => latest_sequence > 0 && sequence < u64::MAX && sequence + 1 < oldest,
            None => false,
        };
        let ghost all = self.entries();
        let mut events: Vec<SequencedEvent> = Vec::new();
        let mut i: usize = 0;
        assert(all.take(0) =~= Seq::empty());
        assert(events_view(events@) =~= Seq::empty());
        while i < self.events.len()
            invariant
                i <= self.events@.len(),
                all == events_view(self.events@),
                events_view(events@) == select(all.take(i as int), sequence, filter),
            decreases self.events@.len() - i,
        {
            let entry = &self.events[i];
            let ghost seen = events@;
            proof {
                assert(all.take(i + 1).drop_last() =~= all.take(i as int));
                assert(all.take(i + 1).last() == entry@);
            }
            let kind_wanted = match filter {
                Some(kind) => entry.event.event_type() == kind,
                None => true,
            };
            if entry.sequence > sequence && kind_wanted {
                events.push(entry.clone());
                assert(events_view(events@) =~= events_view(seen).push(entry@));
            }
            i += 1;
        }
        assert(all.take(i as int) =~= all);
        EventReadWindow {
            requested_since: sequence,
            oldest_available_sequence,
            latest_sequence,
            gap_detected,
            events,
        }
    }

    /// The sequence number of the latest event, or zero.
    pub fn latest_sequence(&self) -> (res: u64)
        ensures
            res == latest_of(self.entries()),
    {
        if self.events.len() == 0 {
            0
        } else {
            self.events[self.events.len() - 1].sequence
        }
    }

    /// The sequence number of the oldest retained event.
    pub fn oldest_sequence(&self) -> (res: Option<u64>)
        ensures
            res == oldest_of(self.entries()),
    {
        if self.events.len() == 0 {
            None
        } else {
            Some(self.events[0].sequence)
        }
    }

    /// The number of retained events.
    pub fn retained_len(&self) -> (res: usize)
        ensures
            res == self.entries().len(),
            self.limit() matches Some(n) ==> res <= n,
    {
        proof {
            use_type_invariant(self);
        }
        self.events.len()
    }
}

impl Default for EventStream {
    fn default() -> (res: Self)
        ensures
            res.entries() == Seq::<SequencedView>::empty(),
            res.limit() == Some(DEFAULT_MAX_RETAINED_EVENTS),
    {
        EventStream::with_max_retained(DEFAULT_MAX_RETAINED_EVENTS)
    }
}

/// Whether the sequence numbers of a list ascend strictly.
pub open spec fn in_sequence(list: Seq<SequencedView>) -> bool {
    forall|i: int, j: int|
        0 <= i < j < list.len() ==> (#[trigger] list[i]).sequence < (#[trigger] list[j]).sequence
}

/// What a reader gets is what it asked for, all of it, and nothing else.
pub proof fn law_select_exact(list: Seq<SequencedView>, since: u64, filter: Option<EventType>)
    ensures
        forall|e: SequencedView| #[trigger]
            select(list, since, filter).contains(e) <==> list.contains(e) && wanted(
                e,
                since,
                filter,
            ),
    decreases list.len(),
{
    if list.len() > 0 {
        let init = list.drop_last();
        let rest = select(init, since, filter);
        law_select_exact(init, since, filter);
        assert forall|e: SequencedView| #[trigger]
            select(list, since, filter).contains(e) <==> list.contains(e) && wanted(
                e,
                since,
                filter,
            ) by {
            if list.contains(e) && e != list.last() {
                let i = choose|i: int| 0 <= i < list.len() && list[i] == e;
                assert(init[i] == e);
            }
            if init.contains(e) {
                let i = choose|i: int| 0 <= i < init.len() && init[i] == e;
                assert(list[i] == e);
            }
            if e == list.last() {
                assert(list[list.len() - 1] == e);
                assert(rest.push(list.last())[rest.len() as int] == e);
            }
            if rest.contains(e) {
                let i = choose|i: int| 0 <= i < rest.len() && rest[i] == e;
                assert(rest.push(list.last())[i] == e);
            }
        }
    }
}

/// Events come out in the order in which they went in: those of a stream whose sequence
/// numbers ascend still ascend.
pub proof fn law_select_in_sequence(
    list: Seq<SequencedView>,
    since: u64,
    filter: Option<EventType>,
)
    requires
        in_sequence(list),
    ensures
        in_sequence(select(list, since, filter)),
    decreases list.len(),
{
    if list.len() > 0 {
        let init = list.drop_last();
        let rest = select(init, since, filter);
        law_select_in_sequence(init, since, filter);
        law_select_exact(init, since, filter);
        let all = select(list, since, filter);
        assert forall|i: int, j: int| 0 <= i < j < all.len() implies (#[trigger] all[i]).sequence < (
        #[trigger] all[j]).sequence by {
            if j == rest.len() {
                assert(rest.contains(rest[i]));
                let k = choose|k: int| 0 <= k < init.len() && init[k] == rest[i];
                assert(list[k].sequence < list[list.len() - 1].sequence);
            }
        }
    }
}

/// A reader that goes on from the latest sequence number it saw gets nothing twice: of a
/// stream whose sequence numbers ascend it gets what was added since, and only that.
pub proof fn law_resume(list: Seq<SequencedView>, more: Seq<SequencedView>)
    requires
        in_sequence(list + more),
        list.len() > 0,
    ensures
        select(list, latest_of(list), None) == Seq::<SequencedView>::empty(),
        select(list + more, latest_of(list), None) == more,
    decreases more.len(),
{
    let since = latest_of(list);
    let all = list + more;
    if more.len() == 0 {
        assert(all =~= list);
        assert forall|i: int| 0 <= i < list.len() implies (#[trigger] list[i]).sequence <= since by {
            assert(all[i].sequence <= all[list.len() - 1].sequence);
        }
        law_select_exact(list, since, None);
        let got = select(list, since, None);
        if got.len() > 0 {
            assert(got.contains(got[0]));
            let k = choose|k: int| 0 <= k < list.len() && list[k] == got[0];
        }
        assert(got =~= Seq::empty());
        assert(more =~= Seq::empty());
    } else {
        assert(all.drop_last() =~= list + more.drop_last());
        assert(in_sequence(all.drop_last())) by {
            assert forall|i: int, j: int| 0 <= i < j < all.drop_last().len() implies (
            #[trigger] all.drop_last()[i]).sequence < (#[trigger] all.drop_last()[j]).sequence by {
                assert(all[i].sequence < all[j].sequence);
            }
        }
        law_resume(list, more.drop_last());
        assert(all.last() == more.last());
        assert(all[list.len() - 1].sequence < all[all.len() - 1].sequence);
        assert(more.drop_last().push(more.last()) =~= more);
    }
}

/// Adding events one at a time retains the same events as adding them together.
pub proof fn law_push_all_is_pushes(
    list: Seq<SequencedView>,
    more: Seq<SequencedView>,
    e: SequencedView,
    limit: Option<usize>,
)
    ensures
        keep_last(keep_last(list + more, limit).push(e), limit) == keep_last(
            list + more.push(e),
            limit,
        ),
{
    assert((list + more).push(e) =~= list + more.push(e));
    if let Some(n) = limit {
        let all = list + more;
        if all.len() > n {
            assert(all.skip(all.len() - n).push(e) =~= all.push(e).skip(all.len() - n));
            if n > 0 {
                assert(all.push(e).skip(all.len() - n).skip(1) =~= all.push(e).skip(
                    all.len() + 1 - n,
                ));
            } else {
                assert(keep_last(keep_last(all, limit).push(e), limit) =~= keep_last(
                    all.push(e),
                    limit,
                ));
            }
        }
    }
}

/// A stream of events numbered from one reports a gap to a reader exactly when an event
/// that the reader has not seen is no longer retained.
pub proof fn law_gap_means_loss(history: Seq<SequencedView>, limit: Option<usize>, since: u64)
    requires
        forall|i: int| 0 <= i < history.len() ==> (#[trigger] history[i]).sequence == i + 1,
        limit matches Some(n) ==> n >= 1,
    ensures
        gap_in(keep_last(history, limit), since) <==> exists|i: int|
            0 <= i < history.len() - keep_last(history, limit).len() && (
            #[trigger] history[i]).sequence > since,
{
    let kept = keep_last(history, limit);
    let gone = history.len() - kept.len();
    if kept.len() > 0 {
        assert(kept[0] == history[gone]);
        assert(kept.last() == history[history.len() - 1]);
        if gap_in(kept, since) {
            assert(history[gone - 1].sequence > since);
        }
        if exists|i: int| 0 <= i < gone && (#[trigger] history[i]).sequence > since {
            let i = choose|i: int| 0 <= i < gone && (#[trigger] history[i]).sequence > since;
            assert(history[gone].sequence == gone + 1);
            assert(history[history.len() - 1].sequence == history.len());
        }
    }
}

/// Whether an event is one of those that a reader means by a kind.
pub open spec fn is_of_kind(e: EventView, kind: EventType) -> bool {
    match kind {
        EventType::DomMutation => e is DomMutation,
        EventType::Navigation => e is Navigation,
        EventType::Network => e is Network,
        EventType::WebSocket => e is WebSocketOpen || e is WebSocketHandshake || e is WebSocketFrame
            || e is WebSocketClose,
        EventType::Log => e is Log || e is Unknown,
    }
}

/// An event has one kind, the one that readers mean by it.
pub proof fn law_event_has_one_kind(e: EventView, kind: EventType)
    ensures
        is_of_kind(e, kind) <==> kind == kind_of(e),
{
}

/// What a reader gets is the events after the number that it gave, of the kind that it asked
/// for if it asked for one, in the order of the stream and as often as they are in it.
pub proof fn law_select_is_a_filter(list: Seq<SequencedView>, since: u64, filter: Option<EventType>)
    ensures
        filter is None ==> select(list, since, filter) == list.filter(
            |e: SequencedView| e.sequence > since,
        ),
        filter matches Some(kind) ==> select(list, since, filter) == list.filter(
            |e: SequencedView| e.sequence > since && is_of_kind(e.event, kind),
        ),
    decreases list.len(),
{
    reveal(Seq::filter);
    if list.len() > 0 {
        law_select_is_a_filter(list.drop_last(), since, filter);
        if let Some(kind) = filter {
            law_event_has_one_kind(list.last().event, kind);
        }
    }
}

/// A reader is told what it asked for, the first and the last number in the stream, and that it
/// missed events exactly when the first number is beyond the one after that which it gave.
pub proof fn law_window_tells_the_stream(
    list: Seq<SequencedView>,
    since: u64,
    filter: Option<EventType>,
)
    requires
        in_sequence(list),
    ensures
        ({
            let w = window_of(list, since, filter);
            &&& w.requested_since == since
            &&& list.len() == 0 ==> w.oldest_available_sequence is None && w.latest_sequence == 0
                && !w.gap_detected
            &&& list.len() > 0 ==> {
                &&& w.oldest_available_sequence == Some(list[0].sequence)
                &&& w.latest_sequence == list[list.len() - 1].sequence
                &&& w.gap_detected <==> since + 1 < list[0].sequence
                &&& forall|i: int|
                    0 <= i < list.len() ==> list[0].sequence <= (#[trigger] list[i]).sequence
                        <= w.latest_sequence
            }
            &&& w.events == select(list, since, filter)
        }),
{
    if list.len() > 0 {
        assert forall|i: int| 0 <= i < list.len() implies list[0].sequence <= (
        #[trigger] list[i]).sequence <= list[list.len() - 1].sequence by {
            if i > 0 {
                assert(list[0].sequence < list[i].sequence);
            }
            if i < list.len() - 1 {
                assert(list[i].sequence < list[list.len() - 1].sequence);
            }
        }
    }
}

/// A stream without a limit retains all events; one with a limit retains the latest, as many as
/// the limit, or all if they are fewer.
pub proof fn law_latest_are_retained(list: Seq<SequencedView>, limit: Option<usize>)
    ensures
        ({
            let kept = keep_last(list, limit);
            &&& kept.len() <= list.len()
            &&& forall|i: int|
                0 <= i < kept.len() ==> #[trigger] kept[i] == list[list.len() - kept.len() + i]
            &&& limit is None ==> kept.len() == list.len()
            &&& limit matches Some(n) ==> kept.len() == if list.len() < n {
                list.len()
            } else {
                n as nat
            }
        }),
{
}

/// Retaining events in two parts retains what is retained of them together.
pub proof fn law_retained_in_parts(
    first: Seq<SequencedView>,
    second: Seq<SequencedView>,
    limit: Option<usize>,
)
    ensures
        keep_last(keep_last(first, limit) + second, limit) == keep_last(first + second, limit),
{
    assert(keep_last(keep_last(first, limit) + second, limit) =~= keep_last(
        first + second,
        limit,
    ));
}

/// The contents of a numbered event are its number, its time and the event.
pub proof fn law_contents_of_sequenced_event(x: SequencedEvent)
    ensures
        ({
            &&& x@.sequence == x.sequence
            &&& x@.timestamp_ms == x.timestamp_ms
            &&& x@.event == x.event@
        }),
{
}

/// The contents of an event are its kind and all its parts, each as it is.
pub proof fn law_contents_of_runtime_event(x: RuntimeEvent)
    ensures
        x is DomMutation ==> {
            &&& x@ is DomMutation
            &&& x@->DomMutation_changes.len() == x->DomMutation_changes@.len() && forall|i: int| 0 <= i < x->DomMutation_changes@.len() ==> #[trigger] x@->DomMutation_changes[i] == x->DomMutation_changes@[i]@
        },
        x is Navigation ==> {
            &&& x@ is Navigation
            &&& x@->Navigation_url == x->Navigation_url@
        },
        x is Network ==> {
            &&& x@ is Network
            &&& x@->Network_request_id == x->Network_request_id@
            &&& x@->Network_url == x->Network_url@
            &&& x->Network_method is Some ==> x@->Network_method == Some(x->Network_method->Some_0@)
            &&& x->Network_method is None ==> x@->Network_method is None
            &&& x->Network_resource_type is Some ==> x@->Network_resource_type == Some(x->Network_resource_type->Some_0@)
            &&& x->Network_resource_type is None ==> x@->Network_resource_type is None
            &&& x@->Network_phase == x->Network_phase
            &&& x@->Network_status == x->Network_status
            &&& x->Network_status_text is Some ==> x@->Network_status_text == Some(x->Network_status_text->Some_0@)
            &&& x->Network_status_text is None ==> x@->Network_status_text is None
            &&& x->Network_mime_type is Some ==> x@->Network_mime_type == Some(x->Network_mime_type->Some_0@)
            &&& x->Network_mime_type is None ==> x@->Network_mime_type is None
            &&& x@->Network_from_cache == x->Network_from_cache
            &&& x->Network_error_text is Some ==> x@->Network_error_text == Some(x->Network_error_text->Some_0@)
            &&& x->Network_error_text is None ==> x@->Network_error_text is None
        },
        x is WebSocketOpen ==> {
            &&& x@ is WebSocketOpen
            &&& x@->WebSocketOpen_request_id == x->WebSocketOpen_request_id@
            &&& x@->WebSocketOpen_url == x->WebSocketOpen_url@
        },
        x is WebSocketHandshake ==> {
            &&& x@ is WebSocketHandshake
            &&& x@->WebSocketHandshake_request_id == x->WebSocketHandshake_request_id@
            &&& x@->WebSocketHandshake_url == x->WebSocketHandshake_url@
            &&& x@->WebSocketHandshake_status == x->WebSocketHandshake_status
            &&& x->WebSocketHandshake_status_text is Some ==> x@->WebSocketHandshake_status_text == Some(x->WebSocketHandshake_status_text->Some_0@)
            &&& x->WebSocketHandshake_status_text is None ==> x@->WebSocketHandshake_status_text is None
        },
        x is WebSocketFrame ==> {
            &&& x@ is WebSocketFrame
            &&& x@->WebSocketFrame_request_id == x->WebSocketFrame_request_id@
            &&& x@->WebSocketFrame_url == x->WebSocketFrame_url@
            &&& x@->WebSocketFrame_direction == x->WebSocketFrame_direction
            &&& x@->WebSocketFrame_opcode == x->WebSocketFrame_opcode
            &&& x@->WebSocketFrame_mask == x->WebSocketFrame_mask
            &&& x@->WebSocketFrame_payload_preview == x->WebSocketFrame_payload_preview@
            &&& x@->WebSocketFrame_payload_length == x->WebSocketFrame_payload_length
            &&& x@->WebSocketFrame_truncated == x->WebSocketFrame_truncated
        },
        x is WebSocketClose ==> {
            &&& x@ is WebSocketClose
            &&& x@->WebSocketClose_request_id == x->WebSocketClose_request_id@
            &&& x@->WebSocketClose_url == x->WebSocketClose_url@
        },
        x is Log ==> {
            &&& x@ is Log
            &&& x@->Log_level == x->Log_level@
            &&& x@->Log_message == x->Log_message@
            &&& x->Log_data is Some ==> x@->Log_data == Some(x->Log_data->Some_0@)
            &&& x->Log_data is None ==> x@->Log_data is None
        },
        x is Unknown ==> {
            &&& x@ is Unknown
            &&& x@->Unknown_event_type == x->Unknown_event_type@
            &&& x@->Unknown_payload == x->Unknown_payload@
        },
{
}

} // verus!

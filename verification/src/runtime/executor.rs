//! The state of a running browser and what host replies do to it.

use vstd::prelude::*;

use crate::browser::{BrowserConfig, ConfigView};
use crate::commands::command::{
    result_err, Command, CommandResult, CommandTarget, CommandView, ResultView, TargetView,
};
use crate::commands::encoder::matcher_json;
use crate::commands::matcher::{
    is_target, law_target_unique, no_target, resolve_command_target, DesiredAction,
};
use crate::dom::diff::{clone_mutations, mutations_view, DomMutation, MutationView};
use crate::dom::node::{nodes_by_id, DomSnapshot, NodeId, NodeView};
use crate::dom::tree::{apply_all, ascending, law_snapshot_canonical, DomTree};
use crate::events::stream::{
    events_view, in_sequence, keep_last, latest_of, oldest_of, window_of,
    DEFAULT_MAX_RETAINED_EVENTS, EventReadWindow, EventStream, EventView, RuntimeEvent,
    SequencedEvent, SequencedView,
};
use crate::json::{member, opt_json, parse_json, parsed_json, JsonValue, JsonView};
use crate::runtime::page::{
    bootstrap_from_json, clone_media, media_view, no_bootstrap, read_bootstrap, BootstrapView,
    MediaDiagnostics, MediaView, PageBootstrapDiagnostics,
};
use crate::runtime::scheduler::Scheduler;
use crate::session::cookies::{session_error, SessionState};
use crate::text::{clone_opt, clone_texts, concat2, opt_text};
use crate::trace::recorder::TraceRecorder;
use crate::transport::bridge::{
    envelopes_view, AegisError, BatchRequest, BatchResponse, BatchResponseView, BridgeEventEnvelope,
    ErrorView,
};
use crate::transport::protocol::{BatchRecordView, HostRuntimeState, HostView, TraceView};

verus! {

/// The least time between two readings of the page's state that nothing asked for.
pub const LIVE_STATE_REFRESH_INTERVAL_MS: u64 = 250;

/// What a batch is reported to have come to.
#[derive(Debug)]
pub struct ExecutionReport {
    pub batch_id: u64,
    pub results: Vec<CommandResult>,
    pub latest_event_sequence: u64,
}

/// The state of a running browser, as far as replies of its host tell.
pub struct AegisRuntime {
    browser_config: BrowserConfig,
    dom: DomTree,
    events: EventStream,
    scheduler: Scheduler,
    trace_recorder: Option<TraceRecorder>,
    bootstrap_duration_ms: Option<u64>,
    dom_snapshot_valid: bool,
    current_url: Option<String>,
    current_title: Option<String>,
    document_ready_state: Option<String>,
    media: Vec<MediaDiagnostics>,
    page_bootstrap: PageBootstrapDiagnostics,
    last_dom_refresh_at_ms: Option<u64>,
    last_live_state_refresh_at_ms: Option<u64>,
    last_event_at_ms: Option<u64>,
    last_successful_command_at_ms: Option<u64>,
    last_successful_bridge_roundtrip_at_ms: Option<u64>,
    host_state: HostRuntimeState,
    network_event_capture_enabled: bool,
}

/// The contents of an `AegisRuntime`.
#[verifier::ext_equal]
pub struct RuntimeView {
    pub browser_config: ConfigView,
    /// The document, as far as it is known.
    pub dom: Map<NodeId, NodeView>,
    /// Whether the document is known.
    pub dom_valid: bool,
    /// The retained events.
    pub events: Seq<SequencedView>,
    pub event_limit: Option<usize>,
    pub next_batch_id: u64,
    pub next_sequence: u64,
    pub next_timestamp_ms: u64,
    /// What has been recorded, if a recording runs.
    pub trace: Option<TraceView>,
    /// The path of the file that it is recorded to, if a recording runs.
    pub trace_file: Option<Seq<char>>,
    pub bootstrap_duration_ms: Option<u64>,
    pub url: Option<Seq<char>>,
    pub title: Option<Seq<char>>,
    pub ready_state: Option<Seq<char>>,
    pub media: Seq<MediaView>,
    pub page_bootstrap: BootstrapView,
    pub last_dom_refresh_at_ms: Option<u64>,
    pub last_live_state_refresh_at_ms: Option<u64>,
    pub last_event_at_ms: Option<u64>,
    pub last_successful_command_at_ms: Option<u64>,
    pub last_roundtrip_at_ms: Option<u64>,
    pub host: HostRuntimeState,
    pub capture: bool,
}

/// What an optional recorder has recorded.
pub closed spec fn recorded(r: Option<TraceRecorder>) -> Option<TraceView> {
    match r {
        Some(x) => Some(x.recorded()),
        None => None,
    }
}

/// The file of an optional recorder.
pub closed spec fn recorded_to(r: Option<TraceRecorder>) -> Option<Seq<char>> {
    match r {
        Some(x) => Some(x.file()),
        None => None,
    }
}

impl View for AegisRuntime {
    type V = RuntimeView;

    closed spec fn view(&self) -> RuntimeView {
        RuntimeView {
            browser_config: self.browser_config@,
            dom: self.dom@,
            dom_valid: self.dom_snapshot_valid,
            events: self.events.entries(),
            event_limit: self.events.limit(),
            next_batch_id: self.scheduler.batch(),
            next_sequence: self.scheduler.sequence(),
            next_timestamp_ms: self.scheduler.timestamp(),
            trace: recorded(self.trace_recorder),
            trace_file: recorded_to(self.trace_recorder),
            bootstrap_duration_ms: self.bootstrap_duration_ms,
            url: opt_text(self.current_url),
            title: opt_text(self.current_title),
            ready_state: opt_text(self.document_ready_state),
            media: media_view(self.media@),
            page_bootstrap: self.page_bootstrap@,
            last_dom_refresh_at_ms: self.last_dom_refresh_at_ms,
            last_live_state_refresh_at_ms: self.last_live_state_refresh_at_ms,
            last_event_at_ms: self.last_event_at_ms,
            last_successful_command_at_ms: self.last_successful_command_at_ms,
            last_roundtrip_at_ms: self.last_successful_bridge_roundtrip_at_ms,
            host: self.host_state,
            capture: self.network_event_capture_enabled,
        }
    }
}

/// Whether retained events are numbered without a gap up to the number before the next.
pub open spec fn numbered(events: Seq<SequencedView>, next: u64) -> bool {
    forall|i: int|
        0 <= i < events.len() ==> (#[trigger] events[i]).sequence == next - events.len() + i
}

/// Whether a list of events holds a navigation.
pub open spec fn has_navigation(events: Seq<EventView>) -> bool {
    exists|i: int| 0 <= i < events.len() && (#[trigger] events[i]) is Navigation
}

/// The address of the last navigation in a list, if there is one.
pub open spec fn last_navigation(events: Seq<EventView>) -> Option<Seq<char>>
    decreases events.len(),
{
    if events.len() == 0 {
        None
    } else {
        match events.last() {
            EventView::Navigation { url } => Some(url),
            _ => last_navigation(events.drop_last()),
        }
    }
}

/// All document changes in a list of events, in order.
pub open spec fn all_changes(events: Seq<EventView>) -> Seq<MutationView>
    decreases events.len(),
{
    if events.len() == 0 {
        Seq::empty()
    } else {
        match events.last() {
            EventView::DomMutation { changes } => all_changes(events.drop_last()) + changes,
            _ => all_changes(events.drop_last()),
        }
    }
}

/// Events with consecutive numbers and timestamps.
pub open spec fn sequenced(events: Seq<EventView>, sequence: u64, timestamp: u64) -> Seq<
    SequencedView,
> {
    Seq::new(
        events.len(),
        |i: int|
            SequencedView {
                sequence: (sequence + i) as u64,
                timestamp_ms: (timestamp + i) as u64,
                event: events[i],
            },
    )
}

/// Whether there are numbers left for `n` more events.
pub open spec fn room_for(r: RuntimeView, n: int) -> bool {
    r.next_sequence + n <= u64::MAX && r.next_timestamp_ms + n <= u64::MAX
}

/// The runtime after the host reported events: a known document is changed, the events are
/// numbered and retained.
pub open spec fn after_events(r: RuntimeView, events: Seq<EventView>, now: u64) -> RuntimeView {
    RuntimeView {
        dom: if r.dom_valid {
            apply_all(r.dom, all_changes(events))
        } else {
            r.dom
        },
        events: keep_last(
            r.events + sequenced(events, r.next_sequence, r.next_timestamp_ms),
            r.event_limit,
        ),
        next_sequence: (r.next_sequence + events.len()) as u64,
        next_timestamp_ms: (r.next_timestamp_ms + events.len()) as u64,
        last_event_at_ms: if events.len() > 0 {
            Some(now)
        } else {
            r.last_event_at_ms
        },
        ..r
    }
}

/// The runtime after a snapshot came.
pub open spec fn after_snapshot(r: RuntimeView, nodes: Seq<NodeView>, now: u64) -> RuntimeView {
    RuntimeView {
        dom: nodes_by_id(nodes),
        dom_valid: true,
        last_dom_refresh_at_ms: Some(now),
        ..r
    }
}

/// The runtime after the host answered a batch: a snapshot replaces the document, a
/// navigation without one makes it unknown; the last navigation gives the address; then the
/// events count.
pub open spec fn after_response(r: RuntimeView, response: BatchResponseView, now: u64) -> RuntimeView {
    let r1 = match response.snapshot {
        Some(nodes) => after_snapshot(r, nodes, now),
        None => if has_navigation(response.events) {
            RuntimeView { dom: Map::empty(), dom_valid: false, ..r }
        } else {
            r
        },
    };
    let r2 = match last_navigation(response.events) {
        Some(url) => RuntimeView { url: Some(url), ..r1 },
        None => r1,
    };
    after_events(r2, response.events, now)
}

/// The nodes of a document by ascending identifier.
pub open spec fn snapshot_of(dom: Map<NodeId, NodeView>) -> Seq<NodeView> {
    choose|nodes: Seq<NodeView>| #[trigger] ascending(nodes) && nodes_by_id(nodes) == dom
}

/// Whether a target has to be resolved here: it is a matcher without a selector.
pub open spec fn resolved_here(target: TargetView) -> bool {
    match target {
        TargetView::Id { .. } => false,
        TargetView::Match { matcher } => matcher.selector is None,
    }
}

/// Whether acting on a target calls for a current document: it is a node of the document, by
/// identifier or by a matcher without a selector.
pub open spec fn calls_for_document(target: TargetView) -> bool {
    target is Id || resolved_here(target)
}

/// The identifier that a target means in a document, if it means one.
pub open spec fn resolved_id(
    nodes: Seq<NodeView>,
    target: TargetView,
    action: Option<DesiredAction>,
) -> Option<NodeId> {
    if exists|i: int| is_target(nodes, target, action, i) {
        Some(nodes[choose|i: int| is_target(nodes, target, action, i)].id)
    } else {
        None
    }
}

/// A target by identifier, or the message that nothing matched.
pub open spec fn target_by_id(
    nodes: Seq<NodeView>,
    target: TargetView,
    action: Option<DesiredAction>,
) -> Result<TargetView, ResultView> {
    match target {
        TargetView::Id { .. } => Ok(target),
        TargetView::Match { matcher } => match resolved_id(nodes, target, action) {
            Some(id) => Ok(TargetView::Id { id }),
            None => Err(result_err("no node matched "@ + matcher_json(matcher))),
        },
    }
}

/// A target as the host takes it: selectors are left to the host, other matchers resolved.
pub open spec fn target_for_host(
    nodes: Seq<NodeView>,
    target: TargetView,
    action: Option<DesiredAction>,
) -> Result<TargetView, ResultView> {
    if resolved_here(target) {
        target_by_id(nodes, target, action)
    } else {
        Ok(target)
    }
}

/// The target of a command that always has one.
pub open spec fn command_target(c: CommandView) -> Option<TargetView> {
    match c {
        CommandView::Click { target } => Some(target),
        CommandView::Hover { target } => Some(target),
        CommandView::SetValue { target, .. } => Some(target),
        CommandView::SetFiles { target, .. } => Some(target),
        CommandView::Drag { target, .. } => Some(target),
        CommandView::Geometry { target } => Some(target),
        CommandView::PressKey { target, .. } => target,
        _ => None,
    }
}

/// What a command does with its target.
pub open spec fn command_action(c: CommandView) -> Option<DesiredAction> {
    match c {
        CommandView::Click { .. } => Some(DesiredAction::Click),
        CommandView::Hover { .. } => Some(DesiredAction::Hover),
        CommandView::SetValue { .. } => Some(DesiredAction::Type),
        CommandView::SetFiles { .. } => Some(DesiredAction::Type),
        CommandView::PressKey { .. } => Some(DesiredAction::PressKey),
        CommandView::Drag { .. } => Some(DesiredAction::Hover),
        _ => None,
    }
}

/// A command with another target; files are still to be loaded.
pub open spec fn with_target(c: CommandView, target: TargetView) -> CommandView {
    match c {
        CommandView::Click { .. } => CommandView::Click { target },
        CommandView::Hover { .. } => CommandView::Hover { target },
        CommandView::SetValue { value, .. } => CommandView::SetValue { target, value },
        CommandView::SetFiles { paths, .. } => CommandView::SetFiles { target, paths, files: None },
        CommandView::PressKey { key, code, alt_key, ctrl_key, meta_key, shift_key, .. } =>
        CommandView::PressKey {
            target: Some(target),
            key,
            code,
            alt_key,
            ctrl_key,
            meta_key,
            shift_key,
        },
        CommandView::Drag { delta_x, delta_y, to_x, to_y, steps, handle, .. } => CommandView::Drag {
            target,
            delta_x,
            delta_y,
            to_x,
            to_y,
            steps,
            handle,
        },
        CommandView::Geometry { .. } => CommandView::Geometry { target },
        _ => c,
    }
}

/// A command as the host takes it, or the result of a command whose target was not found.
pub open spec fn command_for_host(nodes: Seq<NodeView>, c: CommandView) -> Result<
    CommandView,
    ResultView,
> {
    match command_target(c) {
        None => Ok(c),
        Some(target) => match target_for_host(nodes, target, command_action(c)) {
            Ok(t) => Ok(with_target(c, t)),
            Err(e) => Err(e),
        },
    }
}

/// Whether a command needs a current document before it can be sent.
pub open spec fn needs_fresh_snapshot(c: CommandView) -> bool {
    command_target(c) matches Some(target) && calls_for_document(target)
}

/// Whether a command makes a document necessary before the batch starts.
pub open spec fn needs_snapshot(c: CommandView) -> bool {
    match c {
        CommandView::WaitFor { target, .. } => target matches Some(t) && calls_for_document(t),
        _ => needs_fresh_snapshot(c),
    }
}

/// The outcome of resolving a command.
pub open spec fn command_result(res: Result<Command, CommandResult>) -> Result<
    CommandView,
    ResultView,
> {
    match res {
        Ok(c) => Ok(c@),
        Err(r) => Err(r@),
    }
}

/// The outcome of resolving a target.
pub open spec fn target_result(res: Result<CommandTarget, CommandResult>) -> Result<
    TargetView,
    ResultView,
> {
    match res {
        Ok(t) => Ok(t@),
        Err(r) => Err(r@),
    }
}

/// Whether a target has to be resolved here: it is a matcher without a selector.
pub fn target_resolved_here(target: &CommandTarget) -> (res: bool)
    ensures
        res == resolved_here(target@),
{
    match target {
        CommandTarget::Id { .. } => false,
        CommandTarget::Match { matcher } => matcher.selector.is_none(),
    }
}

/// Whether acting on a target calls for a current document: it is a node of the document, by
/// identifier or by a matcher without a selector.
pub fn command_target_requires_snapshot(target: &CommandTarget) -> (res: bool)
    ensures
        res == calls_for_document(target@),
{
    match target {
        CommandTarget::Id { .. } => true,
        CommandTarget::Match { .. } => target_resolved_here(target),
    }
}

/// Whether a command needs a current document before it can be sent.
pub fn command_target_needs_fresh_snapshot(command: &Command) -> (res: bool)
    ensures
        res == needs_fresh_snapshot(command@),
{
    match command {
        Command::Click { target }
        | Command::Hover { target }
        | Command::SetValue { target, .. }
        | Command::SetFiles { target, .. }
        | Command::Drag { target, .. }
        | Command::Geometry { target } => command_target_requires_snapshot(target),
        Command::PressKey { target: Some(target), .. } => command_target_requires_snapshot(target),
        _ => false,
    }
}

/// Whether a batch of commands makes a document necessary before it starts.
pub fn commands_require_dom_snapshot(commands: &[Command]) -> (res: bool)
    ensures
        res == exists|i: int| 0 <= i < commands@.len() && needs_snapshot(#[trigger] commands@[i]@),
{
    let mut i: usize = 0;
    while i < commands.len()
        invariant
            i <= commands@.len(),
            forall|j: int| 0 <= j < i ==> !needs_snapshot(#[trigger] commands@[j]@),
        decreases commands@.len() - i,
    {
        let needs = match &commands[i] {
            Command::WaitFor { target: Some(target), .. } => command_target_requires_snapshot(
                target,
            ),
            Command::WaitFor { .. } => false,
            other => command_target_needs_fresh_snapshot(other),
        };
        if needs {
            assert(needs_snapshot(commands@[i as int]@));
            return true;
        }
        i += 1;
    }
    false
}

/// A target by identifier, or the message that nothing matched.
pub fn resolve_target_id(
    snapshot: &DomSnapshot,
    target: &CommandTarget,
    action: Option<DesiredAction>,
) -> (res: Result<CommandTarget, CommandResult>)
    ensures
        target_result(res) == target_by_id(snapshot@, target@, action),
{
    match target {
        CommandTarget::Id { .. } => Ok(target.clone()),
        CommandTarget::Match { matcher } => match resolve_command_target(snapshot, target, action) {
            Some(node) => {
                proof {
                    let i = choose|i: int|
                        #[trigger] is_target(snapshot@, target@, action, i) && *node
                            == snapshot.nodes@[i];
                    let k = choose|k: int| is_target(snapshot@, target@, action, k);
                    law_target_unique(snapshot@, target@, action, i, k);
                    assert(snapshot@[i] == snapshot.nodes@[i]@);
                }
                Ok(CommandTarget::Id { id: node.id })
            },
            None => {
                proof {
                    assert(no_target(snapshot@, target@, action));
                    if exists|i: int| is_target(snapshot@, target@, action, i) {
                        let i = choose|i: int| is_target(snapshot@, target@, action, i);
                        assert(crate::commands::matcher::candidate_of(
                            snapshot@[i],
                            matcher@,
                            action,
                        ) is Some);
                    }
                }
                let described = matcher.to_json_text();
                Err(CommandResult::err(concat2("no node matched ", described.as_str())))
            },
        },
    }
}

/// A target as the host takes it: selectors are left to the host, other matchers resolved.
pub fn resolve_target_for_bridge(
    snapshot: &DomSnapshot,
    target: &CommandTarget,
    action: Option<DesiredAction>,
) -> (res: Result<CommandTarget, CommandResult>)
    ensures
        target_result(res) == target_for_host(snapshot@, target@, action),
{
    if !target_resolved_here(target) {
        return Ok(target.clone());
    }
    resolve_target_id(snapshot, target, action)
}

/// A command as the host takes it, resolved against a document. The files of an upload are
/// left to be loaded.
pub fn resolve_command(snapshot: &DomSnapshot, command: &Command) -> (res: Result<
    Command,
    CommandResult,
>)
    ensures
        command_result(res) == command_for_host(snapshot@, command@),
{
    match command {
        Command::Click { target } => match resolve_target_for_bridge(
            snapshot,
            target,
            Some(DesiredAction::Click),
        ) {
            Ok(target) => Ok(Command::Click { target }),
            Err(e) => Err(e),
        },
        Command::Hover { target } => match resolve_target_for_bridge(
            snapshot,
            target,
            Some(DesiredAction::Hover),
        ) {
            Ok(target) => Ok(Command::Hover { target }),
            Err(e) => Err(e),
        },
        Command::SetValue { target, value } => match resolve_target_for_bridge(
            snapshot,
            target,
            Some(DesiredAction::Type),
        ) {
            Ok(target) => Ok(Command::SetValue { target, value: value.clone() }),
            Err(e) => Err(e),
        },
        Command::SetFiles { target, paths, .. } => match resolve_target_for_bridge(
            snapshot,
            target,
            Some(DesiredAction::Type),
        ) {
            Ok(target) => Ok(
                Command::SetFiles { target, paths: clone_texts(paths), files: None },
            ),
            Err(e) => Err(e),
        },
        Command::PressKey {
            target: Some(target),
            key,
            code,
            alt_key,
            ctrl_key,
            meta_key,
            shift_key,
        } => match resolve_target_for_bridge(snapshot, target, Some(DesiredAction::PressKey)) {
            Ok(target) => Ok(
                Command::PressKey {
                    target: Some(target),
                    key: key.clone(),
                    code: clone_opt(code),
                    alt_key: *alt_key,
                    ctrl_key: *ctrl_key,
                    meta_key: *meta_key,
                    shift_key: *shift_key,
                },
            ),
            Err(e) => Err(e),
        },
        Command::Drag { target, delta_x, delta_y, to_x, to_y, steps, handle } =>
        match resolve_target_for_bridge(snapshot, target, Some(DesiredAction::Hover)) {
            Ok(target) => Ok(
                Command::Drag {
                    target,
                    delta_x: clone_opt(delta_x),
                    delta_y: clone_opt(delta_y),
                    to_x: clone_opt(to_x),
                    to_y: clone_opt(to_y),
                    steps: *steps,
                    handle: clone_opt(handle),
                },
            ),
            Err(e) => Err(e),
        },
        Command::Geometry { target } => match resolve_target_for_bridge(snapshot, target, None) {
            Ok(target) => Ok(Command::Geometry { target }),
            Err(e) => Err(e),
        },
        _ => Ok(command.clone()),
    }
}

fn events_navigate(events: &Vec<BridgeEventEnvelope>) -> (res: bool)
    ensures
        res == has_navigation(envelopes_view(events@)),
{
    let ghost views = envelopes_view(events@);
    let mut i: usize = 0;
    while i < events.len()
        invariant
            i <= events@.len(),
            views == envelopes_view(events@),
            forall|j: int| 0 <= j < i ==> !((#[trigger] views[j]) is Navigation),
        decreases events@.len() - i,
    {
        assert(views[i as int] == events@[i as int].event@);
        if matches!(events[i].event, RuntimeEvent::Navigation { .. }) {
            assert(views[i as int] is Navigation);
            return true;
        }
        i += 1;
    }
    false
}

fn last_navigation_url(events: &Vec<BridgeEventEnvelope>) -> (res: Option<String>)
    ensures
        opt_text(res) == last_navigation(envelopes_view(events@)),
{
    let ghost views = envelopes_view(events@);
    let mut i: usize = events.len();
    assert(views.take(i as int) =~= views);
    while i > 0
        invariant
            i <= events@.len(),
            views == envelopes_view(events@),
            last_navigation(views) == last_navigation(views.take(i as int)),
        decreases i,
    {
        proof {
            assert(views.take(i as int).last() == events@[i - 1].event@);
            assert(views.take(i as int).drop_last() =~= views.take(i - 1));
        }
        i -= 1;
        if let RuntimeEvent::Navigation { url } = &events[i].event {
            return Some(url.clone());
        }
    }
    None
}

fn collect_changes(events: &Vec<BridgeEventEnvelope>) -> (res: Vec<DomMutation>)
    ensures
        mutations_view(res@) == all_changes(envelopes_view(events@)),
{
    let ghost views = envelopes_view(events@);
    let mut out: Vec<DomMutation> = Vec::new();
    let mut i: usize = 0;
    assert(views.take(0) =~= Seq::empty());
    assert(mutations_view(out@) =~= Seq::empty());
    while i < events.len()
        invariant
            i <= events@.len(),
            views == envelopes_view(events@),
            mutations_view(out@) == all_changes(views.take(i as int)),
        decreases events@.len() - i,
    {
        let ghost before = mutations_view(out@);
        proof {
            assert(views.take(i + 1).last() == events@[i as int].event@);
            assert(views.take(i + 1).drop_last() =~= views.take(i as int));
        }
        if let RuntimeEvent::DomMutation { changes } = &events[i].event {
            let mut part = clone_mutations(changes);
            let ghost added = mutations_view(part@);
            out.append(&mut part);
            assert(mutations_view(out@) =~= before + added);
        }
        i += 1;
    }
    assert(views.take(i as int) =~= views);
    out
}

impl AegisRuntime {
    /// Events are numbered without a gap, and their times run in step with their numbers.
    #[verifier::type_invariant]
    closed spec fn inv(&self) -> bool {
        &&& self.scheduler.timestamp() == self.scheduler.sequence()
        &&& numbered(self.events.entries(), self.scheduler.sequence())
        &&& self.events.entries().len() < self.scheduler.sequence()
    }

    /// The state of a browser that has just been started.
    pub fn new(
        browser_config: BrowserConfig,
        bootstrap_duration_ms: Option<u64>,
        host_state: HostRuntimeState,
    ) -> (res: Self)
        ensures
            res@ == (RuntimeView {
                browser_config: browser_config@,
                dom: Map::empty(),
                dom_valid: false,
                events: Seq::empty(),
                event_limit: Some(DEFAULT_MAX_RETAINED_EVENTS),
                next_batch_id: 1,
                next_sequence: 1,
                next_timestamp_ms: 1,
                trace: None,
                trace_file: None,
                bootstrap_duration_ms,
                url: None,
                title: None,
                ready_state: None,
                media: Seq::empty(),
                page_bootstrap: no_bootstrap(),
                last_dom_refresh_at_ms: None,
                last_live_state_refresh_at_ms: None,
                last_event_at_ms: None,
                last_successful_command_at_ms: None,
                last_roundtrip_at_ms: None,
                host: host_state,
                capture: false,
            }),
    {
        let media: Vec<MediaDiagnostics> = Vec::new();
        assert(media_view(media@) =~= Seq::<MediaView>::empty());
        AegisRuntime {
            browser_config,
            dom: DomTree::new(),
            events: EventStream::default(),
            scheduler: Scheduler::default(),
            trace_recorder: None,
            bootstrap_duration_ms,
            dom_snapshot_valid: false,
            current_url: None,
            current_title: None,
            document_ready_state: None,
            media,
            page_bootstrap: PageBootstrapDiagnostics::default(),
            last_dom_refresh_at_ms: None,
            last_live_state_refresh_at_ms: None,
            last_event_at_ms: None,
            last_successful_command_at_ms: None,
            last_successful_bridge_roundtrip_at_ms: None,
            host_state,
            network_event_capture_enabled: false,
        }
    }

    /// Retained events are numbered without a gap, up to the number before the next.
    pub fn event_numbering(&self) -> (res: (u64, usize))
        ensures
            res.0 == self@.next_sequence,
            res.0 == self@.next_timestamp_ms,
            res.1 == self@.events.len(),
            numbered(self@.events, self@.next_sequence),
            self@.events.len() < self@.next_sequence,
    {
        proof {
            use_type_invariant(self);
        }
        (self.scheduler.upcoming_sequence(), self.events.retained_len())
    }
}

/// Retaining the last events keeps them numbered.
proof fn lemma_numbered_step(
    events: Seq<SequencedView>,
    next: u64,
    more: Seq<EventView>,
    timestamp: u64,
    limit: Option<usize>,
)
    requires
        numbered(events, next),
        events.len() < next,
        next + more.len() <= u64::MAX,
    ensures
        numbered(
            keep_last(events + sequenced(more, next, timestamp), limit),
            (next + more.len()) as u64,
        ),
        keep_last(events + sequenced(more, next, timestamp), limit).len() < next + more.len(),
{
    let all = events + sequenced(more, next, timestamp);
    let kept = keep_last(all, limit);
    let gone = all.len() - kept.len();
    assert forall|i: int| 0 <= i < kept.len() implies (#[trigger] kept[i]).sequence == (next
        + more.len()) - kept.len() + i by {
        assert(kept[i] == all[gone + i]);
        if gone + i < events.len() {
            assert(events[gone + i].sequence == next - events.len() + gone + i);
        }
    }
}

/// The address and the rest that a page reports of itself.
pub open spec fn after_page(r: RuntimeView, v: JsonView) -> RuntimeView {
    let live_url = match text_at(v, "url"@) {
        Some(url) => Some(url),
        None => r.url,
    };
    RuntimeView {
        url: if synthetic_shell(v) {
            match opt_text(r.host.current_url) {
                Some(url) => Some(url),
                None => live_url,
            }
        } else {
            live_url
        },
        title: text_at(v, "title"@),
        ready_state: text_at(v, "ready_state"@),
        ..r
    }
}

/// The text of a member.
pub open spec fn text_at(v: JsonView, name: Seq<char>) -> Option<Seq<char>> {
    crate::json::text_of(member(v, name))
}

/// Whether the page says that it is only a shell that stands in for the one asked for.
pub open spec fn synthetic_shell(v: JsonView) -> bool {
    match member(v, "bootstrap"@) {
        Some(b) => member(b, "synthetic_shell_active"@) == Some(JsonView::Bool(true)),
        None => false,
    }
}

/// What a page reports of its scripts, as far as it is well-formed.
pub open spec fn reported_bootstrap(v: JsonView) -> Option<BootstrapView> {
    match member(v, "bootstrap"@) {
        Some(b) => read_bootstrap(b),
        None => Some(no_bootstrap()),
    }
}

/// Whether the bridge into the page has to be set up again: the page is there and settled,
/// but its runtime is not.
pub open spec fn needs_recovery(host: HostRuntimeState) -> bool {
    &&& host.browser_available
    &&& !host.browser_closed
    &&& !host.load_in_progress
    &&& host.page_ready
    &&& host.renderer_ready
    &&& !host.runtime_ready
    &&& !host.cancel_requested
}

/// Whether the bridge into the page has to be set up again.
pub fn needs_bridge_recovery(host: &HostRuntimeState) -> (res: bool)
    ensures
        res == needs_recovery(*host),
{
    host.browser_available && !host.browser_closed && !host.load_in_progress && host.page_ready
        && host.renderer_ready && !host.runtime_ready && !host.cancel_requested
}

fn text_member(v: &JsonValue, name: &str) -> (res: Option<String>)
    ensures
        opt_text(res) == text_at(v@, name@),
{
    match v.get(name) {
        Some(x) => match x.as_str() {
            Some(s) => Some(s.to_owned()),
            None => None,
        },
        None => None,
    }
}

fn shell_is_synthetic(v: &JsonValue) -> (res: bool)
    ensures
        res == synthetic_shell(v@),
{
    match v.get("bootstrap") {
        Some(b) => match b.get("synthetic_shell_active") {
            Some(flag) => match flag.as_bool() {
                Some(b) => b,
                None => false,
            },
            None => false,
        },
        None => false,
    }
}

/// What a runtime tells of itself.
#[derive(Debug)]
pub struct RuntimeStatus {
    pub bootstrapped: bool,
    pub bootstrap_duration_ms: Option<u64>,
    pub dom_nodes: usize,
    pub dom_snapshot_available: bool,
    pub retained_event_count: usize,
    pub latest_event_sequence: u64,
    pub oldest_retained_event_sequence: Option<u64>,
    pub current_url: Option<String>,
    pub current_title: Option<String>,
    pub document_ready_state: Option<String>,
    pub page_bootstrap: PageBootstrapDiagnostics,
    pub media: Vec<MediaDiagnostics>,
    pub last_dom_refresh_at_ms: Option<u64>,
    pub last_live_state_refresh_at_ms: Option<u64>,
    pub last_event_at_ms: Option<u64>,
    pub last_successful_command_at_ms: Option<u64>,
    pub last_successful_bridge_roundtrip_at_ms: Option<u64>,
    pub host: HostRuntimeState,
}

/// The contents of a `RuntimeStatus`.
#[verifier::ext_equal]
pub struct StatusView {
    pub bootstrapped: bool,
    pub bootstrap_duration_ms: Option<u64>,
    pub dom_nodes: usize,
    pub dom_snapshot_available: bool,
    pub retained_event_count: usize,
    pub latest_event_sequence: u64,
    pub oldest_retained_event_sequence: Option<u64>,
    pub current_url: Option<Seq<char>>,
    pub current_title: Option<Seq<char>>,
    pub document_ready_state: Option<Seq<char>>,
    pub page_bootstrap: BootstrapView,
    pub media: Seq<MediaView>,
    pub last_dom_refresh_at_ms: Option<u64>,
    pub last_live_state_refresh_at_ms: Option<u64>,
    pub last_event_at_ms: Option<u64>,
    pub last_successful_command_at_ms: Option<u64>,
    pub last_successful_bridge_roundtrip_at_ms: Option<u64>,
    pub host: HostView,
}

impl View for RuntimeStatus {
    type V = StatusView;

    open spec fn view(&self) -> StatusView {
        StatusView {
            bootstrapped: self.bootstrapped,
            bootstrap_duration_ms: self.bootstrap_duration_ms,
            dom_nodes: self.dom_nodes,
            dom_snapshot_available: self.dom_snapshot_available,
            retained_event_count: self.retained_event_count,
            latest_event_sequence: self.latest_event_sequence,
            oldest_retained_event_sequence: self.oldest_retained_event_sequence,
            current_url: opt_text(self.current_url),
            current_title: opt_text(self.current_title),
            document_ready_state: opt_text(self.document_ready_state),
            page_bootstrap: self.page_bootstrap@,
            media: media_view(self.media@),
            last_dom_refresh_at_ms: self.last_dom_refresh_at_ms,
            last_live_state_refresh_at_ms: self.last_live_state_refresh_at_ms,
            last_event_at_ms: self.last_event_at_ms,
            last_successful_command_at_ms: self.last_successful_command_at_ms,
            last_successful_bridge_roundtrip_at_ms: self.last_successful_bridge_roundtrip_at_ms,
            host: self.host@,
        }
    }
}

impl Clone for RuntimeStatus {
    fn clone(&self) -> (res: Self)
        ensures
            res@ == self@,
    {
        RuntimeStatus {
            bootstrapped: self.bootstrapped,
            bootstrap_duration_ms: self.bootstrap_duration_ms,
            dom_nodes: self.dom_nodes,
            dom_snapshot_available: self.dom_snapshot_available,
            retained_event_count: self.retained_event_count,
            latest_event_sequence: self.latest_event_sequence,
            oldest_retained_event_sequence: self.oldest_retained_event_sequence,
            current_url: clone_opt(&self.current_url),
            current_title: clone_opt(&self.current_title),
            document_ready_state: clone_opt(&self.document_ready_state),
            page_bootstrap: self.page_bootstrap.clone(),
            media: clone_media(&self.media),
            last_dom_refresh_at_ms: self.last_dom_refresh_at_ms,
            last_live_state_refresh_at_ms: self.last_live_state_refresh_at_ms,
            last_event_at_ms: self.last_event_at_ms,
            last_successful_command_at_ms: self.last_successful_command_at_ms,
            last_successful_bridge_roundtrip_at_ms: self.last_successful_bridge_roundtrip_at_ms,
            host: self.host.clone(),
        }
    }
}

/// What a runtime tells of itself.
pub open spec fn status_of(r: RuntimeView) -> StatusView {
    StatusView {
        bootstrapped: r.bootstrap_duration_ms is Some,
        bootstrap_duration_ms: r.bootstrap_duration_ms,
        dom_nodes: snapshot_of(r.dom).len() as usize,
        dom_snapshot_available: r.dom_valid,
        retained_event_count: r.events.len() as usize,
        latest_event_sequence: latest_of(r.events),
        oldest_retained_event_sequence: oldest_of(r.events),
        current_url: r.url,
        current_title: r.title,
        document_ready_state: r.ready_state,
        page_bootstrap: r.page_bootstrap,
        media: r.media,
        last_dom_refresh_at_ms: r.last_dom_refresh_at_ms,
        last_live_state_refresh_at_ms: r.last_live_state_refresh_at_ms,
        last_event_at_ms: r.last_event_at_ms,
        last_successful_command_at_ms: r.last_successful_command_at_ms,
        last_successful_bridge_roundtrip_at_ms: r.last_roundtrip_at_ms,
        host: r.host@,
    }
}

impl AegisRuntime {
    /// Takes in events that the host reported.
    pub fn apply_event_batch(&mut self, raw_events: &Vec<BridgeEventEnvelope>, now_ms: u64) -> (res:
        Vec<SequencedEvent>)
        requires
            room_for(old(self)@, raw_events@.len() as int),
        ensures
            final(self)@ == after_events(old(self)@, envelopes_view(raw_events@), now_ms),
            events_view(res@) == sequenced(
                envelopes_view(raw_events@),
                old(self)@.next_sequence,
                old(self)@.next_timestamp_ms,
            ),
    {
        let ghost start = self@;
        let ghost views = envelopes_view(raw_events@);
        proof {
            use_type_invariant(&*self);
            lemma_numbered_step(
                start.events,
                start.next_sequence,
                views,
                start.next_timestamp_ms,
                start.event_limit,
            );
        }
        if self.dom_snapshot_valid {
            let changes = collect_changes(raw_events);
            if changes.len() > 0 {
                let mut dom = DomTree::new();
                std::mem::swap(&mut dom, &mut self.dom);
                dom.apply_mutations(changes.as_slice());
                self.dom = dom;
            } else {
                assert(mutations_view(changes@) =~= Seq::<MutationView>::empty());
            }
        }
        let mut stream = EventStream::unbounded();
        std::mem::swap(&mut stream, &mut self.events);
        let mut scheduler = self.scheduler;
        let mut out: Vec<SequencedEvent> = Vec::new();
        let mut copies: Vec<SequencedEvent> = Vec::new();
        let mut i: usize = 0;
        while i < raw_events.len()
            invariant
                i <= raw_events@.len(),
                views == envelopes_view(raw_events@),
                room_for(start, raw_events@.len() as int),
                scheduler.sequence() == start.next_sequence + i,
                scheduler.timestamp() == start.next_timestamp_ms + i,
                scheduler.batch() == start.next_batch_id,
                out@.len() == i,
                copies@.len() == i,
                forall|j: int|
                    0 <= j < i ==> (#[trigger] out@[j])@ == sequenced(
                        views,
                        start.next_sequence,
                        start.next_timestamp_ms,
                    )[j],
                forall|j: int| 0 <= j < i ==> (#[trigger] copies@[j])@ == out@[j]@,
            decreases raw_events@.len() - i,
        {
            let sequence = scheduler.next_event_sequence();
            let timestamp_ms = scheduler.next_timestamp_ms();
            let event = SequencedEvent {
                sequence,
                timestamp_ms,
                event: raw_events[i].event.clone(),
            };
            copies.push(event.clone());
            out.push(event);
            i += 1;
        }
        assert(events_view(out@) =~= sequenced(
            views,
            start.next_sequence,
            start.next_timestamp_ms,
        ));
        assert(events_view(copies@) =~= events_view(out@));
        stream.push_all(copies);
        self.scheduler = scheduler;
        self.events = stream;
        if out.len() > 0 {
            self.last_event_at_ms = Some(now_ms);
        }
        assert(self@ =~= after_events(start, views, now_ms));
        out
    }

    /// Takes in the answer to a batch.
    pub fn apply_response(&mut self, response: &BatchResponse, now_ms: u64) -> (res: Vec<
        SequencedEvent,
    >)
        requires
            room_for(old(self)@, response.events@.len() as int),
        ensures
            final(self)@ == after_response(old(self)@, response@, now_ms),
            events_view(res@) == sequenced(
                response@.events,
                old(self)@.next_sequence,
                old(self)@.next_timestamp_ms,
            ),
    {
        let ghost start = self@;
        proof {
            use_type_invariant(&*self);
        }
        match &response.snapshot {
            Some(snapshot) => {
                self.dom = DomTree::from_snapshot(snapshot.clone());
                self.dom_snapshot_valid = true;
                self.last_dom_refresh_at_ms = Some(now_ms);
            },
            None => {
                if events_navigate(&response.events) {
                    self.dom = DomTree::from_snapshot(DomSnapshot::default());
                    self.dom_snapshot_valid = false;
                    assert(nodes_by_id(Seq::<NodeView>::empty()) =~= Map::<
                        NodeId,
                        NodeView,
                    >::empty());
                }
            },
        }
        if let Some(url) = last_navigation_url(&response.events) {
            self.current_url = Some(url);
        }
        self.apply_event_batch(&response.events, now_ms)
    }

    /// Takes in a snapshot of the document.
    pub fn apply_snapshot(&mut self, snapshot: DomSnapshot, now_ms: u64)
        ensures
            final(self)@ == (RuntimeView {
                last_roundtrip_at_ms: Some(now_ms),
                ..after_snapshot(old(self)@, snapshot@, now_ms)
            }),
    {
        let ghost start = self@;
        proof {
            use_type_invariant(&*self);
        }
        self.dom = DomTree::from_snapshot(snapshot);
        self.dom_snapshot_valid = true;
        self.last_dom_refresh_at_ms = Some(now_ms);
        self.last_successful_bridge_roundtrip_at_ms = Some(now_ms);
    }

    /// The document by ascending identifier.
    pub fn dom_snapshot(&self) -> (res: DomSnapshot)
        ensures
            res@ == snapshot_of(self@.dom),
    {
        let res = self.dom.snapshot();
        proof {
            let other = snapshot_of(self@.dom);
            assert(ascending(res@) && nodes_by_id(res@) == self@.dom);
            law_snapshot_canonical(res@, other);
        }
        res
    }

    /// Whether the document is known.
    pub fn dom_snapshot_available(&self) -> (res: bool)
        ensures
            res == self@.dom_valid,
    {
        self.dom_snapshot_valid
    }

    /// A command as the host takes it, resolved against the current document.
    pub fn resolve_command_for_bridge(&self, command: &Command) -> (res: Result<
        Command,
        CommandResult,
    >)
        ensures
            command_result(res) == command_for_host(snapshot_of(self@.dom), command@),
    {
        let snapshot = self.dom_snapshot();
        resolve_command(&snapshot, command)
    }

    /// Takes in the state of the host; says whether the bridge into the page has to be set up
    /// again.
    pub fn apply_host_state(&mut self, host: HostRuntimeState, now_ms: u64) -> (res: bool)
        ensures
            res == needs_recovery(host),
            final(self)@ == (RuntimeView {
                url: match opt_text(host.current_url) {
                    Some(url) => Some(url),
                    None => old(self)@.url,
                },
                host,
                last_roundtrip_at_ms: Some(now_ms),
                ..old(self)@
            }),
    {
        proof {
            use_type_invariant(&*self);
        }
        if let Some(url) = clone_opt(&host.current_url) {
            self.current_url = Some(url);
        }
        let recover = needs_bridge_recovery(&host);
        self.host_state = host;
        self.last_successful_bridge_roundtrip_at_ms = Some(now_ms);
        recover
    }

    /// Takes in the state of the host after the bridge was set up again.
    pub fn apply_recovered_host_state(&mut self, host: HostRuntimeState, now_ms: u64)
        ensures
            final(self)@ == (RuntimeView {
                host,
                last_roundtrip_at_ms: Some(now_ms),
                ..old(self)@
            }),
    {
        proof {
            use_type_invariant(&*self);
        }
        self.host_state = host;
        self.last_successful_bridge_roundtrip_at_ms = Some(now_ms);
    }

    /// Whether the page's state is to be read now: when it is asked for or long enough ago,
    /// and the page can answer.
    pub fn live_refresh_due(&self, force: bool, now_ms: u64) -> (res: bool)
        ensures
            res == (self@.host.runtime_ready && (force || match self@.last_live_state_refresh_at_ms {
                Some(last) => now_ms >= last + LIVE_STATE_REFRESH_INTERVAL_MS,
                None => true,
            })),
    {
        let recent = match self.last_live_state_refresh_at_ms {
            Some(last) => now_ms < last || now_ms - last < LIVE_STATE_REFRESH_INTERVAL_MS,
            None => false,
        };
        (force || !recent) && self.host_state.runtime_ready
    }

    /// Takes in what the page said of itself, as text. Returns what it said of its media
    /// elements. Where it did not say how far it has come in starting, `explain` says what is
    /// wrong with what it said.
    pub fn apply_live_text<F: Fn(&JsonValue) -> String>(&mut self, raw: &str, explain: F) -> (res:
        Result<Option<JsonValue>, AegisError>)
        requires
            forall|v: &JsonValue| #[trigger] explain.requires((v,)),
        ensures
            match parsed_json(raw@) {
                Err(m) => {
                    &&& final(self)@ == old(self)@
                    &&& res matches Err(e) && e@ == ErrorView::Bridge(
                        "live state json parse error: "@ + m,
                    )
                },
                Ok(v) => match reported_bootstrap(v) {
                    None => {
                        &&& final(self)@ == after_page(old(self)@, v)
                        &&& res matches Err(e) && exists|b: &JsonValue, m: String|
                            member(v, "bootstrap"@) == Some(b@) && #[trigger] explain.ensures(
                                (b,),
                                m,
                            ) && e@ == ErrorView::Bridge(
                                "page bootstrap json parse error: "@ + m@,
                            )
                    },
                    Some(b) => {
                        &&& final(self)@ == (RuntimeView {
                            page_bootstrap: b,
                            ..after_page(old(self)@, v)
                        })
                        &&& res matches Ok(media) && opt_json(media) == member(v, "media"@)
                    },
                },
            },
    {
        let ghost start = self@;
        proof {
            use_type_invariant(&*self);
        }
        let v = match parse_json(raw) {
            Ok(v) => v,
            Err(m) => {
                return Err(AegisError::Bridge(concat2("live state json parse error: ", m.as_str())));
            },
        };
        let live_url = match text_member(&v, "url") {
            Some(url) => Some(url),
            None => clone_opt(&self.current_url),
        };
        if shell_is_synthetic(&v) {
            let host_url = clone_opt(&self.host_state.current_url);
            self.current_url = match host_url {
                Some(url) => Some(url),
                None => live_url,
            };
        } else {
            self.current_url = live_url;
        }
        self.current_title = text_member(&v, "title");
        self.document_ready_state = text_member(&v, "ready_state");
        assert(self@ =~= after_page(start, v@));
        let bootstrap = match v.get("bootstrap") {
            Some(b) => match bootstrap_from_json(b) {
                Some(read) => read,
                None => {
                    let fault = explain(b);
                    return Err(
                        AegisError::Bridge(
                            concat2("page bootstrap json parse error: ", fault.as_str()),
                        ),
                    );
                },
            },
            None => PageBootstrapDiagnostics::default(),
        };
        self.page_bootstrap = bootstrap;
        match v.get("media") {
            Some(media) => Ok(Some(media.clone())),
            None => Ok(None),
        }
    }

    /// Takes in what the page said of its media elements, or why that could not be read.
    pub fn finish_live_refresh(
        &mut self,
        media: Result<Vec<MediaDiagnostics>, String>,
        now_ms: u64,
    ) -> (res: Result<(), AegisError>)
        ensures
            match media {
                Ok(list) => res is Ok && final(self)@ == (RuntimeView {
                    media: media_view(list@),
                    last_live_state_refresh_at_ms: Some(now_ms),
                    last_roundtrip_at_ms: Some(now_ms),
                    ..old(self)@
                }),
                Err(m) => final(self)@ == old(self)@ && (res matches Err(e) && e@
                    == ErrorView::Bridge("media state json parse error: "@ + m@)),
            },
    {
        proof {
            use_type_invariant(&*self);
        }
        match media {
            Ok(list) => {
                self.media = list;
                self.last_live_state_refresh_at_ms = Some(now_ms);
                self.last_successful_bridge_roundtrip_at_ms = Some(now_ms);
                Ok(())
            },
            Err(m) => Err(AegisError::Bridge(concat2("media state json parse error: ", m.as_str()))),
        }
    }

    /// Notes that the host answered.
    pub fn mark_successful_bridge_roundtrip(&mut self, now_ms: u64)
        ensures
            final(self)@ == (RuntimeView { last_roundtrip_at_ms: Some(now_ms), ..old(self)@ }),
    {
        proof {
            use_type_invariant(&*self);
        }
        self.last_successful_bridge_roundtrip_at_ms = Some(now_ms);
    }

    /// Notes that a command succeeded.
    pub fn mark_successful_command(&mut self, now_ms: u64)
        ensures
            final(self)@ == (RuntimeView {
                last_roundtrip_at_ms: Some(now_ms),
                last_successful_command_at_ms: Some(now_ms),
                ..old(self)@
            }),
    {
        proof {
            use_type_invariant(&*self);
        }
        self.last_successful_bridge_roundtrip_at_ms = Some(now_ms);
        self.last_successful_command_at_ms = Some(now_ms);
    }

    /// The number of the next batch.
    pub fn next_batch_id(&mut self) -> (res: u64)
        requires
            old(self)@.next_batch_id < u64::MAX,
        ensures
            res == old(self)@.next_batch_id,
            final(self)@ == (RuntimeView { next_batch_id: (res + 1) as u64, ..old(self)@ }),
    {
        proof {
            use_type_invariant(&*self);
        }
        let mut scheduler = self.scheduler;
        let id = scheduler.next_batch_id();
        self.scheduler = scheduler;
        id
    }

    /// Checks a session before it is handed to the host, and records it if a recording runs.
    pub fn prepare_session(&mut self, session: &SessionState) -> (res: Result<(), AegisError>)
        ensures
            match session_error(session@) {
                Some(m) => final(self)@ == old(self)@ && (res matches Err(e) && e@
                    == ErrorView::InvalidSession(m)),
                None => res is Ok && final(self)@ == (RuntimeView {
                    trace: match old(self)@.trace {
                        Some(t) => Some(TraceView { initial_session: Some(session@), ..t }),
                        None => None,
                    },
                    ..old(self)@
                }),
            },
    {
        proof {
            use_type_invariant(&*self);
        }
        match session.validate() {
            Ok(()) => {},
            Err(m) => {
                return Err(AegisError::InvalidSession(m));
            },
        }
        let mut recorder: Option<TraceRecorder> = None;
        std::mem::swap(&mut recorder, &mut self.trace_recorder);
        if let Some(mut r) = recorder {
            r.set_initial_session(session.clone());
            self.trace_recorder = Some(r);
        }
        Ok(())
    }

    /// Records a batch if a recording runs.
    pub fn record_trace(
        &mut self,
        request: BatchRequest,
        response: BatchResponse,
        emitted_events: &[SequencedEvent],
    )
        ensures
            final(self)@ == (RuntimeView {
                trace: match old(self)@.trace {
                    Some(t) => Some(
                        TraceView {
                            batches: t.batches.push(
                                BatchRecordView {
                                    batch_id: request@.batch_id,
                                    request: request@,
                                    response: response@,
                                    emitted_events: events_view(emitted_events@),
                                },
                            ),
                            ..t
                        },
                    ),
                    None => None,
                },
                ..old(self)@
            }),
    {
        proof {
            use_type_invariant(&*self);
        }
        let mut recorder: Option<TraceRecorder> = None;
        std::mem::swap(&mut recorder, &mut self.trace_recorder);
        if let Some(mut r) = recorder {
            r.record_batch(request, response, emitted_events);
            self.trace_recorder = Some(r);
        }
    }

    /// Starts a recording to the file at a path, which also turns the capture of network events on.
    pub fn enable_trace_recording(&mut self, path: String)
        ensures
            final(self)@ == (RuntimeView {
                capture: true,
                trace: Some(
                    TraceView {
                        protocol_version: 1,
                        browser_config: old(self)@.browser_config,
                        initial_session: None,
                        batches: Seq::empty(),
                    },
                ),
                trace_file: Some(path@),
                ..old(self)@
            }),
    {
        proof {
            use_type_invariant(&*self);
        }
        let config = self.browser_config.clone();
        self.network_event_capture_enabled = true;
        self.trace_recorder = Some(TraceRecorder::new(path, config));
    }

    /// Turns the capture of network events on.
    pub fn enable_network_event_capture(&mut self)
        ensures
            final(self)@ == (RuntimeView { capture: true, ..old(self)@ }),
    {
        proof {
            use_type_invariant(&*self);
        }
        self.network_event_capture_enabled = true;
    }

    /// Whether network events are captured.
    pub fn captures_network_events(&self) -> (res: bool)
        ensures
            res == self@.capture,
    {
        self.network_event_capture_enabled
    }

    /// The recording, if one runs.
    pub fn trace_recorder(&self) -> (res: Option<&TraceRecorder>)
        ensures
            match res {
                Some(r) => self@.trace == Some(r.recorded()) && self@.trace_file == Some(r.file()),
                None => self@.trace is None && self@.trace_file is None,
            },
    {
        self.trace_recorder.as_ref()
    }

    /// What a batch is reported to have come to.
    pub fn execution_report(&self, batch_id: u64, results: Vec<CommandResult>) -> (res:
        ExecutionReport)
        ensures
            res.batch_id == batch_id,
            res.results == results,
            res.latest_event_sequence == latest_of(self@.events),
    {
        ExecutionReport {
            batch_id,
            results,
            latest_event_sequence: self.events.latest_sequence(),
        }
    }

    /// The events after a sequence number.
    pub fn read_events_from(&self, sequence: u64) -> (res: EventReadWindow)
        ensures
            res@ == window_of(self@.events, sequence, None),
    {
        self.events.read_from(sequence, None)
    }

    /// The retained events.
    pub fn event_stream(&self) -> (res: &EventStream)
        ensures
            res.entries() == self@.events,
            res.limit() == self@.event_limit,
    {
        &self.events
    }

    /// The address of the page, if it is known.
    pub fn current_url(&self) -> (res: Option<&str>)
        ensures
            match res {
                Some(url) => self@.url == Some(url@),
                None => self@.url is None,
            },
    {
        match &self.current_url {
            Some(url) => Some(url.as_str()),
            None => None,
        }
    }

    /// The title of the page, if it is known.
    pub fn current_title(&self) -> (res: Option<&str>)
        ensures
            match res {
                Some(title) => self@.title == Some(title@),
                None => self@.title is None,
            },
    {
        match &self.current_title {
            Some(title) => Some(title.as_str()),
            None => None,
        }
    }

    /// The ready state of the document, if it is known.
    pub fn document_ready_state(&self) -> (res: Option<&str>)
        ensures
            match res {
                Some(state) => self@.ready_state == Some(state@),
                None => self@.ready_state is None,
            },
    {
        match &self.document_ready_state {
            Some(state) => Some(state.as_str()),
            None => None,
        }
    }

    /// The media elements of the page.
    pub fn media(&self) -> (res: &Vec<MediaDiagnostics>)
        ensures
            media_view(res@) == self@.media,
    {
        &self.media
    }

    /// The state of the host.
    pub fn host_state(&self) -> (res: &HostRuntimeState)
        ensures
            *res == self@.host,
    {
        &self.host_state
    }

    /// How the browser was started.
    pub fn browser_config(&self) -> (res: &BrowserConfig)
        ensures
            res@ == self@.browser_config,
    {
        &self.browser_config
    }

    /// What the runtime tells of itself.
    pub fn runtime_status(&self) -> (res: RuntimeStatus)
        ensures
            res@ == status_of(self@),
    {
        let snapshot = self.dom_snapshot();
        RuntimeStatus {
            bootstrapped: self.bootstrap_duration_ms.is_some(),
            bootstrap_duration_ms: self.bootstrap_duration_ms,
            dom_nodes: snapshot.nodes.len(),
            dom_snapshot_available: self.dom_snapshot_valid,
            retained_event_count: self.events.retained_len(),
            latest_event_sequence: self.events.latest_sequence(),
            oldest_retained_event_sequence: self.events.oldest_sequence(),
            current_url: clone_opt(&self.current_url),
            current_title: clone_opt(&self.current_title),
            document_ready_state: clone_opt(&self.document_ready_state),
            page_bootstrap: self.page_bootstrap.clone(),
            media: clone_media(&self.media),
            last_dom_refresh_at_ms: self.last_dom_refresh_at_ms,
            last_live_state_refresh_at_ms: self.last_live_state_refresh_at_ms,
            last_event_at_ms: self.last_event_at_ms,
            last_successful_command_at_ms: self.last_successful_command_at_ms,
            last_successful_bridge_roundtrip_at_ms: self.last_successful_bridge_roundtrip_at_ms,
            host: self.host_state.clone(),
        }
    }
}

/// A navigation without a snapshot makes the document unknown and empty, and changes that
/// are reported with it have no effect.
pub proof fn law_navigation_invalidates_document(
    r: RuntimeView,
    response: BatchResponseView,
    now: u64,
)
    requires
        response.snapshot is None,
        has_navigation(response.events),
    ensures
        !after_response(r, response, now).dom_valid,
        after_response(r, response, now).dom == Map::<NodeId, NodeView>::empty(),
{
}

/// Events get consecutive numbers: those of a later batch follow on those of an earlier one.
pub proof fn law_sequences_continue(
    r: RuntimeView,
    first: Seq<EventView>,
    second: Seq<EventView>,
    now: u64,
)
    requires
        room_for(r, (first.len() + second.len()) as int),
    ensures
        after_events(after_events(r, first, now), second, now).next_sequence == r.next_sequence
            + first.len() + second.len(),
        sequenced(first, r.next_sequence, r.next_timestamp_ms) + sequenced(
            second,
            after_events(r, first, now).next_sequence,
            after_events(r, first, now).next_timestamp_ms,
        ) == sequenced(first + second, r.next_sequence, r.next_timestamp_ms),
        in_sequence(sequenced(first + second, r.next_sequence, r.next_timestamp_ms)),
{
    let s = after_events(r, first, now);
    assert(sequenced(first, r.next_sequence, r.next_timestamp_ms) + sequenced(
        second,
        s.next_sequence,
        s.next_timestamp_ms,
    ) =~= sequenced(first + second, r.next_sequence, r.next_timestamp_ms));
}

/// Numbered events are in sequence, so a reader that goes on from the latest number that it
/// saw misses nothing and gets nothing twice.
pub proof fn law_numbered_in_sequence(events: Seq<SequencedView>, next: u64)
    requires
        numbered(events, next),
    ensures
        in_sequence(events),
{
}

/// The changes of two lists of events are those of the first and then those of the second.
proof fn lemma_changes_in_turn(first: Seq<EventView>, second: Seq<EventView>)
    ensures
        all_changes(first + second) == all_changes(first) + all_changes(second),
    decreases second.len(),
{
    if second.len() == 0 {
        assert(first + second =~= first);
        assert(all_changes(first) + all_changes(second) =~= all_changes(first));
    } else {
        lemma_changes_in_turn(first, second.drop_last());
        assert((first + second).drop_last() =~= first + second.drop_last());
        assert((first + second).last() == second.last());
        assert(all_changes(first + second) =~= all_changes(first) + all_changes(second));
    }
}

/// Taking in two lists of events at once is taking in the first and then the second: the
/// document, the retained events and their numbers come out the same, so that events can be taken
/// in one at a time or together.
pub proof fn law_events_in_turn(
    r: RuntimeView,
    first: Seq<EventView>,
    second: Seq<EventView>,
    now: u64,
)
    requires
        room_for(r, (first.len() + second.len()) as int),
    ensures
        after_events(after_events(r, first, now), second, now).dom == after_events(
            r,
            first + second,
            now,
        ).dom,
        after_events(after_events(r, first, now), second, now) == after_events(
            r,
            first + second,
            now,
        ),
{
    let one = after_events(r, first, now);
    lemma_changes_in_turn(first, second);
    crate::dom::tree::law_changes_in_turn(r.dom, all_changes(first), all_changes(second));
    law_sequences_continue(r, first, second, now);
    let a = sequenced(first, r.next_sequence, r.next_timestamp_ms);
    let b = sequenced(second, one.next_sequence, one.next_timestamp_ms);
    crate::events::stream::law_retained_in_parts(r.events + a, b, r.event_limit);
    assert(r.events + a + b =~= r.events + (a + b));
}

/// An event that reports changes applies all of them, in order, to a document that is known;
/// other events leave the document as it is, and so do all events where it is not known.
pub proof fn law_event_applies_its_changes(r: RuntimeView, e: EventView, now: u64)
    ensures
        ({
            let after = after_events(r, seq![e], now);
            &&& r.dom_valid ==> match e {
                EventView::DomMutation { changes } => after.dom == apply_all(r.dom, changes),
                _ => after.dom == r.dom,
            }
            &&& !r.dom_valid ==> after.dom == r.dom
            &&& after.dom_valid == r.dom_valid
        }),
{
    reveal_with_fuel(all_changes, 2);
    if let EventView::DomMutation { changes } = e {
        assert(Seq::<MutationView>::empty() + changes =~= changes);
    }
}

/// An event gets the next number and the next timestamp and is retained as the latest one; it
/// changes nothing else of the runtime than the document, what is retained, the numbers and the
/// time of the latest event.
pub proof fn law_event_is_numbered_and_retained(r: RuntimeView, e: EventView, now: u64)
    requires
        room_for(r, 1),
    ensures
        ({
            let after = after_events(r, seq![e], now);
            &&& r.event_limit != Some(0usize) ==> after.events.len() > 0 && after.events.last() == (
            SequencedView {
                sequence: r.next_sequence,
                timestamp_ms: r.next_timestamp_ms,
                event: e,
            })
            &&& r.event_limit is None || r.events.len() < r.event_limit->Some_0
                ==> after.events.drop_last() == r.events
            &&& after.next_sequence == r.next_sequence + 1
            &&& after.next_timestamp_ms == r.next_timestamp_ms + 1
            &&& after.last_event_at_ms == Some(now)
            &&& after == (RuntimeView {
                dom: after.dom,
                events: after.events,
                next_sequence: after.next_sequence,
                next_timestamp_ms: after.next_timestamp_ms,
                last_event_at_ms: after.last_event_at_ms,
                ..r
            })
            &&& after_events(r, Seq::empty(), now).last_event_at_ms == r.last_event_at_ms
        }),
{
    let s = sequenced(seq![e], r.next_sequence, r.next_timestamp_ms);
    let after = after_events(r, seq![e], now);
    assert(s.len() == 1 && s[0].event == e);
    if r.event_limit is None || r.events.len() < r.event_limit->Some_0 {
        assert(after.events.drop_last() =~= r.events);
    }
}

/// A snapshot in a reply replaces the document, whatever it was, and makes it known; changes
/// that come with it are applied to it.
pub proof fn law_snapshot_replaces_document(
    r: RuntimeView,
    response: BatchResponseView,
    nodes: Seq<NodeView>,
    now: u64,
)
    requires
        response.snapshot == Some(nodes),
    ensures
        after_response(r, response, now).dom_valid,
        after_response(r, response, now).last_dom_refresh_at_ms == Some(now),
        (forall|i: int| 0 <= i < response.events.len() ==> !((#[trigger] response.events[i]) is DomMutation))
            ==> after_response(r, response, now).dom == nodes_by_id(nodes),
        response.events.len() == 1 ==> (response.events[0] matches EventView::DomMutation {
            changes,
        } ==> after_response(r, response, now).dom == apply_all(nodes_by_id(nodes), changes)),
{
    reveal_with_fuel(all_changes, 2);
    if forall|i: int|
        0 <= i < response.events.len() ==> !((#[trigger] response.events[i]) is DomMutation) {
        lemma_no_changes(response.events);
    }
    if response.events.len() == 1 {
        if let EventView::DomMutation { changes } = response.events[0] {
            assert(Seq::<MutationView>::empty() + changes =~= changes);
        }
    }
}

/// Events none of which reports changes hold no changes.
proof fn lemma_no_changes(events: Seq<EventView>)
    requires
        forall|i: int| 0 <= i < events.len() ==> !((#[trigger] events[i]) is DomMutation),
    ensures
        all_changes(events) == Seq::<MutationView>::empty(),
    decreases events.len(),
{
    if events.len() > 0 {
        assert forall|i: int| 0 <= i < events.drop_last().len() implies !((
        #[trigger] events.drop_last()[i]) is DomMutation) by {
            assert(events.drop_last()[i] == events[i]);
        }
        lemma_no_changes(events.drop_last());
        assert(!(events[events.len() - 1] is DomMutation));
    }
}

/// A reply without a snapshot and without a navigation changes the document by its changes alone.
pub proof fn law_reply_keeps_document(r: RuntimeView, response: BatchResponseView, now: u64)
    requires
        response.snapshot is None,
        forall|i: int|
            0 <= i < response.events.len() ==> !((#[trigger] response.events[i]) is Navigation),
    ensures
        after_response(r, response, now) == after_events(r, response.events, now),
{
    lemma_no_navigation(response.events);
}

/// There is no last navigation exactly where there is none.
proof fn lemma_no_navigation(events: Seq<EventView>)
    ensures
        last_navigation(events) is None <==> !has_navigation(events),
    decreases events.len(),
{
    if events.len() > 0 {
        let n = events.len() - 1;
        let init = events.drop_last();
        lemma_no_navigation(init);
        if events[n] is Navigation {
            assert(has_navigation(events));
        } else {
            if has_navigation(events) {
                let k = choose|k: int| 0 <= k < events.len() && (#[trigger] events[k]) is Navigation;
                assert(init[k] is Navigation);
            }
            if has_navigation(init) {
                let k = choose|k: int| 0 <= k < init.len() && (#[trigger] init[k]) is Navigation;
                assert(events[k] is Navigation);
            }
        }
    }
}

/// The last navigation is the one after which there is no other.
proof fn lemma_last_navigation(events: Seq<EventView>, k: int)
    requires
        0 <= k < events.len(),
        events[k] is Navigation,
        forall|j: int| k < j < events.len() ==> !((#[trigger] events[j]) is Navigation),
    ensures
        last_navigation(events) == Some(events[k]->Navigation_url),
    decreases events.len(),
{
    let n = events.len() - 1;
    if k < n {
        assert(!(events[n] is Navigation));
        assert forall|j: int| k < j < events.drop_last().len() implies !((
        #[trigger] events.drop_last()[j]) is Navigation) by {
            assert(!(events[j] is Navigation));
        }
        lemma_last_navigation(events.drop_last(), k);
    }
}

/// The address after a reply is that of its last navigation; without a navigation it stays, and
/// title and ready state stay in any case.
pub proof fn law_last_navigation_gives_address(
    r: RuntimeView,
    response: BatchResponseView,
    now: u64,
    k: int,
)
    ensures
        0 <= k < response.events.len() && response.events[k] is Navigation && (forall|j: int|
            k < j < response.events.len() ==> !((#[trigger] response.events[j]) is Navigation))
            ==> after_response(r, response, now).url == Some(
            response.events[k]->Navigation_url,
        ),
        (forall|j: int|
            0 <= j < response.events.len() ==> !((#[trigger] response.events[j]) is Navigation))
            ==> after_response(r, response, now).url == r.url,
        after_response(r, response, now).title == r.title,
        after_response(r, response, now).ready_state == r.ready_state,
        after_response(r, response, now).host == r.host,
        after_response(r, response, now).media == r.media,
        after_response(r, response, now).next_batch_id == r.next_batch_id,
        after_response(r, response, now).trace == r.trace,
        after_response(r, response, now).browser_config == r.browser_config,
{
    lemma_no_navigation(response.events);
    if 0 <= k < response.events.len() && response.events[k] is Navigation && (forall|j: int|
        k < j < response.events.len() ==> !((#[trigger] response.events[j]) is Navigation)) {
        lemma_last_navigation(response.events, k);
    }
}

/// The title and the ready state are those that the page last reported, and unknown where it
/// reports none; the address is the reported one where there is one, unless the page is only a
/// shell and the host knows the address.
pub proof fn law_page_report_is_taken_over(r: RuntimeView, v: JsonView)
    ensures
        ({
            let after = after_page(r, v);
            let shell = exists|b: JsonView|
                member(v, "bootstrap"@) == Some(b) && #[trigger] member(
                    b,
                    "synthetic_shell_active"@,
                ) == Some(JsonView::Bool(true));
            &&& forall|t: Seq<char>|
                member(v, "title"@) == Some(JsonView::Text(t)) ==> after.title == Some(t)
            &&& forall|t: Seq<char>|
                member(v, "ready_state"@) == Some(JsonView::Text(t)) ==> after.ready_state == Some(t)
            &&& !(member(v, "title"@) matches Some(JsonView::Text(_))) ==> after.title is None
            &&& !(member(v, "ready_state"@) matches Some(JsonView::Text(_)))
                ==> after.ready_state is None
            &&& forall|t: Seq<char>|
                member(v, "url"@) == Some(JsonView::Text(t)) && (!shell
                    || r.host.current_url is None) ==> after.url == Some(t)
            &&& !(member(v, "url"@) matches Some(JsonView::Text(_))) && (!shell
                || r.host.current_url is None) ==> after.url == r.url
            &&& shell && r.host.current_url is Some ==> after.url == Some(
                r.host.current_url->Some_0@,
            )
            &&& after == (RuntimeView {
                url: after.url,
                title: after.title,
                ready_state: after.ready_state,
                ..r
            })
        }),
{
    if let Some(b) = member(v, "bootstrap"@) {
        if member(b, "synthetic_shell_active"@) == Some(JsonView::Bool(true)) {
            assert(synthetic_shell(v));
        }
    }
}

/// The bridge into the page is set up again exactly when the browser is there and open, the page
/// has loaded and is ready with its renderer, its runtime is not, and nothing asks to stop.
pub proof fn law_bridge_is_recovered_when_settled(host: HostRuntimeState)
    ensures
        needs_recovery(host) ==> host.browser_available && !host.browser_closed
            && !host.load_in_progress && host.page_ready && host.renderer_ready && !host.runtime_ready
            && !host.cancel_requested,
        host.browser_available && !host.browser_closed && !host.load_in_progress && host.page_ready
            && host.renderer_ready && !host.runtime_ready && !host.cancel_requested
            ==> needs_recovery(host),
{
}

/// The status tells the address, title and ready state of the page, how many nodes the document
/// has and whether it is known, and the first and the last number and the count of the retained
/// events.
pub proof fn law_status_tells_the_runtime(r: RuntimeView, nodes: Seq<NodeView>)
    requires
        ascending(nodes),
        nodes_by_id(nodes) == r.dom,
        nodes.len() <= usize::MAX,
        r.events.len() <= usize::MAX,
    ensures
        ({
            let s = status_of(r);
            &&& s.bootstrapped <==> r.bootstrap_duration_ms is Some
            &&& s.bootstrap_duration_ms == r.bootstrap_duration_ms
            &&& s.dom_nodes == nodes.len()
            &&& s.dom_snapshot_available == r.dom_valid
            &&& s.retained_event_count == r.events.len()
            &&& r.events.len() > 0 ==> s.latest_event_sequence == r.events[r.events.len()
                - 1].sequence && s.oldest_retained_event_sequence == Some(r.events[0].sequence)
            &&& r.events.len() == 0 ==> s.latest_event_sequence == 0
                && s.oldest_retained_event_sequence is None
            &&& s.current_url == r.url
            &&& s.current_title == r.title
            &&& s.document_ready_state == r.ready_state
            &&& s.page_bootstrap == r.page_bootstrap
            &&& s.media == r.media
            &&& s.last_dom_refresh_at_ms == r.last_dom_refresh_at_ms
            &&& s.last_live_state_refresh_at_ms == r.last_live_state_refresh_at_ms
            &&& s.last_event_at_ms == r.last_event_at_ms
            &&& s.last_successful_command_at_ms == r.last_successful_command_at_ms
            &&& s.last_successful_bridge_roundtrip_at_ms == r.last_roundtrip_at_ms
            &&& s.host == r.host@
        }),
{
    law_snapshot_is_the_document(r.dom, nodes);
}

/// The snapshot of a document is its nodes by ascending identifier.
pub proof fn law_snapshot_is_the_document(dom: Map<NodeId, NodeView>, nodes: Seq<NodeView>)
    requires
        ascending(nodes),
        nodes_by_id(nodes) == dom,
    ensures
        snapshot_of(dom) == nodes,
{
    law_snapshot_canonical(snapshot_of(dom), nodes);
}

/// What a command does with the node that it is aimed at, and that node.
pub open spec fn aim(c: CommandView) -> Option<(TargetView, Option<DesiredAction>)> {
    match c {
        CommandView::Click { target } => Some((target, Some(DesiredAction::Click))),
        CommandView::Hover { target } => Some((target, Some(DesiredAction::Hover))),
        CommandView::Drag { target, .. } => Some((target, Some(DesiredAction::Hover))),
        CommandView::SetValue { target, .. } => Some((target, Some(DesiredAction::Type))),
        CommandView::SetFiles { target, .. } => Some((target, Some(DesiredAction::Type))),
        CommandView::PressKey { target: Some(t), .. } => Some((t, Some(DesiredAction::PressKey))),
        CommandView::Geometry { target } => Some((target, None)),
        _ => None,
    }
}

/// Whether a command is another with its target exchanged, and for files with none loaded.
pub open spec fn is_aimed_anew(c: CommandView, d: CommandView, target: TargetView) -> bool {
    match c {
        CommandView::Click { .. } => d == CommandView::Click { target },
        CommandView::Hover { .. } => d == CommandView::Hover { target },
        CommandView::SetValue { .. } => d == CommandView::SetValue {
            target,
            value: c->SetValue_value,
        },
        CommandView::SetFiles { .. } => d == CommandView::SetFiles {
            target,
            paths: c->SetFiles_paths,
            files: None,
        },
        CommandView::PressKey { .. } => d == CommandView::PressKey {
            target: Some(target),
            key: c->PressKey_key,
            code: c->PressKey_code,
            alt_key: c->PressKey_alt_key,
            ctrl_key: c->PressKey_ctrl_key,
            meta_key: c->PressKey_meta_key,
            shift_key: c->PressKey_shift_key,
        },
        CommandView::Drag { .. } => d == CommandView::Drag {
            target,
            delta_x: c->Drag_delta_x,
            delta_y: c->Drag_delta_y,
            to_x: c->Drag_to_x,
            to_y: c->Drag_to_y,
            steps: c->Drag_steps,
            handle: c->Drag_handle,
        },
        CommandView::Geometry { .. } => d == CommandView::Geometry { target },
        _ => false,
    }
}

/// A command reaches the host as it was given but for its target. A command that is aimed at
/// nothing is sent as it is; one aimed at an identifier or a selector keeps that target; one
/// aimed at a description is aimed at the node that the description means for what the command
/// does, and fails with a message exactly when it means none.
pub proof fn law_command_reaches_its_node(nodes: Seq<NodeView>, c: CommandView)
    ensures
        match aim(c) {
            None => command_for_host(nodes, c) == Ok::<CommandView, ResultView>(c),
            Some((TargetView::Id { id }, action)) => command_for_host(nodes, c) matches Ok(d)
                && is_aimed_anew(c, d, TargetView::Id { id }),
            Some((TargetView::Match { matcher }, action)) => if matcher.selector is Some {
                command_for_host(nodes, c) matches Ok(d) && is_aimed_anew(
                    c,
                    d,
                    TargetView::Match { matcher },
                )
            } else {
                match command_for_host(nodes, c) {
                    Ok(d) => exists|i: int|
                        is_target(nodes, TargetView::Match { matcher }, action, i) && is_aimed_anew(
                            c,
                            d,
                            TargetView::Id { id: (#[trigger] nodes[i]).id },
                        ),
                    Err(e) => !e.ok && e.error == Some("no node matched "@ + matcher_json(matcher)) && (
                    forall|i: int|
                        !#[trigger] is_target(nodes, TargetView::Match { matcher }, action, i)),
                }
            },
        },
{
    if let Some((target, action)) = aim(c) {
        assert(command_target(c) == Some(target));
        assert(command_action(c) == action);
        if exists|i: int| is_target(nodes, target, action, i) {
            let i = choose|i: int| is_target(nodes, target, action, i);
            assert(resolved_id(nodes, target, action) == Some(nodes[i].id));
            if resolved_here(target) {
                assert(is_aimed_anew(
                    c,
                    command_for_host(nodes, c)->Ok_0,
                    TargetView::Id { id: nodes[i].id },
                ));
            }
        }
    }
}

/// A batch starts with a current document exactly when one of its commands is aimed at, or waits
/// for, an identifier or a description without a selector.
pub proof fn law_document_is_needed_to_aim(c: CommandView)
    ensures
        ({
            let target = match c {
                CommandView::WaitFor { target, .. } => target,
                _ => match aim(c) {
                    Some((t, _)) => Some(t),
                    None => None,
                },
            };
            needs_snapshot(c) <==> match target {
                Some(TargetView::Id { .. }) => true,
                Some(TargetView::Match { matcher }) => matcher.selector is None,
                None => false,
            }
        }),
        needs_fresh_snapshot(c) <==> needs_snapshot(c) && !(c is WaitFor),
{
}

/// What a page reports of its scripts is what it says under `bootstrap`, and nothing where it says
/// nothing; what it says in a form that is not known is not taken over.
pub proof fn law_report_of_the_page_on_its_scripts(v: JsonView)
    ensures
        member(v, "bootstrap"@) is None ==> reported_bootstrap(v) == Some(no_bootstrap()),
        member(v, "bootstrap"@) is Some ==> reported_bootstrap(v) == read_bootstrap(
            member(v, "bootstrap"@)->Some_0,
        ),
        !no_bootstrap().document_loaded && !no_bootstrap().synthetic_shell_active
            && !no_bootstrap().inspectable_dom_ready && !no_bootstrap().module_scripts_present,
{
}

} // verus!

//! How a running context reports on itself.

use vstd::prelude::*;

use crate::runtime::executor::{RuntimeStatus, StatusView};
use crate::runtime::page::{
    media_view, no_bootstrap, MediaDiagnostics, MediaView, PageBootstrapDiagnostics,
};
use crate::text::{contains, contains_text, starts_with, starts_with_text, str_eq};
use crate::transport::bridge::{error_text, AegisError};
use crate::transport::protocol::{unknown_host, HostRuntimeState, HostView, PROTOCOL_VERSION};

verus! {

/// How long a request waits for the runtime.
pub const COMMAND_TIMEOUT_MS: u64 = 20_000;

/// The state that a runtime is in.
#[derive(Debug, Clone, Copy, PartialEq, Eq, Structural)]
pub enum RuntimeOperationalState {
    Starting,
    Ready,
    Busy,
    Degraded,
    Cancelling,
    Wedged,
}

/// The name of a state.
pub open spec fn state_name(s: RuntimeOperationalState) -> Seq<char> {
    match s {
        RuntimeOperationalState::Starting => "starting"@,
        RuntimeOperationalState::Ready => "ready"@,
        RuntimeOperationalState::Busy => "busy"@,
        RuntimeOperationalState::Degraded => "degraded"@,
        RuntimeOperationalState::Cancelling => "cancelling"@,
        RuntimeOperationalState::Wedged => "wedged"@,
    }
}

impl RuntimeOperationalState {
    /// The name of a state.
    pub fn name(self) -> (res: &'static str)
        ensures
            res@ == state_name(self),
    {
        match self {
            RuntimeOperationalState::Starting => "starting",
            RuntimeOperationalState::Ready => "ready",
            RuntimeOperationalState::Busy => "busy",
            RuntimeOperationalState::Degraded => "degraded",
            RuntimeOperationalState::Cancelling => "cancelling",
            RuntimeOperationalState::Wedged => "wedged",
        }
    }
}

/// An operation under way.
#[derive(Debug)]
pub struct ActiveOperation {
    pub id: u64,
    pub name: String,
    pub stage: String,
    /// When it started, by the wall clock.
    pub started_at_ms: u64,
    /// When it started, by a clock that is never set back.
    pub started_tick_ms: u64,
    pub timed_out: bool,
}

/// The contents of an `ActiveOperation`.
#[verifier::ext_equal]
pub struct ActiveView {
    pub id: u64,
    pub name: Seq<char>,
    pub stage: Seq<char>,
    pub started_at_ms: u64,
    pub started_tick_ms: u64,
    pub timed_out: bool,
}

impl View for ActiveOperation {
    type V = ActiveView;

    open spec fn view(&self) -> ActiveView {
        ActiveView {
            id: self.id,
            name: self.name@,
            stage: self.stage@,
            started_at_ms: self.started_at_ms,
            started_tick_ms: self.started_tick_ms,
            timed_out: self.timed_out,
        }
    }
}

/// The contents of an optional operation.
pub open spec fn opt_active(a: Option<ActiveOperation>) -> Option<ActiveView> {
    match a {
        Some(x) => Some(x@),
        None => None,
    }
}

/// An operation under way, as it is reported.
#[derive(Debug)]
pub struct OperationSnapshot {
    pub id: u64,
    pub name: String,
    pub stage: String,
    pub started_at_ms: u64,
    pub elapsed_ms: u64,
    pub timed_out: bool,
}

/// The contents of an `OperationSnapshot`.
#[verifier::ext_equal]
pub struct OperationView {
    pub id: u64,
    pub name: Seq<char>,
    pub stage: Seq<char>,
    pub started_at_ms: u64,
    pub elapsed_ms: u64,
    pub timed_out: bool,
}

impl View for OperationSnapshot {
    type V = OperationView;

    open spec fn view(&self) -> OperationView {
        OperationView {
            id: self.id,
            name: self.name@,
            stage: self.stage@,
            started_at_ms: self.started_at_ms,
            elapsed_ms: self.elapsed_ms,
            timed_out: self.timed_out,
        }
    }
}

/// The contents of an optional report of an operation.
pub open spec fn opt_operation(o: Option<OperationSnapshot>) -> Option<OperationView> {
    match o {
        Some(x) => Some(x@),
        None => None,
    }
}

/// An operation as it is reported at a time.
pub open spec fn report_of(a: ActiveView, tick: u64) -> OperationView {
    OperationView {
        id: a.id,
        name: a.name,
        stage: a.stage,
        started_at_ms: a.started_at_ms,
        elapsed_ms: if tick >= a.started_tick_ms {
            (tick - a.started_tick_ms) as u64
        } else {
            0
        },
        timed_out: a.timed_out,
    }
}

/// A failed operation.
#[derive(Debug)]
pub struct FailureSnapshot {
    pub operation: String,
    pub stage: String,
    pub message: String,
    pub elapsed_ms: u64,
    pub timed_out: bool,
    pub restart_recommended: bool,
    pub first_seen_at_ms: u64,
    pub last_seen_at_ms: u64,
}

/// The contents of a `FailureSnapshot`.
#[verifier::ext_equal]
pub struct FailureView {
    pub operation: Seq<char>,
    pub stage: Seq<char>,
    pub message: Seq<char>,
    pub elapsed_ms: u64,
    pub timed_out: bool,
    pub restart_recommended: bool,
    pub first_seen_at_ms: u64,
    pub last_seen_at_ms: u64,
}

impl View for FailureSnapshot {
    type V = FailureView;

    open spec fn view(&self) -> FailureView {
        FailureView {
            operation: self.operation@,
            stage: self.stage@,
            message: self.message@,
            elapsed_ms: self.elapsed_ms,
            timed_out: self.timed_out,
            restart_recommended: self.restart_recommended,
            first_seen_at_ms: self.first_seen_at_ms,
            last_seen_at_ms: self.last_seen_at_ms,
        }
    }
}

impl Clone for FailureSnapshot {
    fn clone(&self) -> (res: Self)
        ensures
            res@ == self@,
    {
        FailureSnapshot {
            operation: self.operation.clone(),
            stage: self.stage.clone(),
            message: self.message.clone(),
            elapsed_ms: self.elapsed_ms,
            timed_out: self.timed_out,
            restart_recommended: self.restart_recommended,
            first_seen_at_ms: self.first_seen_at_ms,
            last_seen_at_ms: self.last_seen_at_ms,
        }
    }
}

/// The contents of an optional failure.
pub open spec fn opt_failure(f: Option<FailureSnapshot>) -> Option<FailureView> {
    match f {
        Some(x) => Some(x@),
        None => None,
    }
}

/// An error of an operation, as the native host describes it.
#[derive(Debug)]
pub struct NativeOperationError {
    pub kind: String,
    pub operation: String,
    pub stage: String,
    pub message: String,
    pub elapsed_ms: u64,
    pub timed_out: bool,
    pub restart_recommended: bool,
}

/// The contents of a `NativeOperationError`.
#[verifier::ext_equal]
pub struct NativeView {
    pub kind: Seq<char>,
    pub operation: Seq<char>,
    pub stage: Seq<char>,
    pub message: Seq<char>,
    pub elapsed_ms: u64,
    pub timed_out: bool,
    pub restart_recommended: bool,
}

impl View for NativeOperationError {
    type V = NativeView;

    open spec fn view(&self) -> NativeView {
        NativeView {
            kind: self.kind@,
            operation: self.operation@,
            stage: self.stage@,
            message: self.message@,
            elapsed_ms: self.elapsed_ms,
            timed_out: self.timed_out,
            restart_recommended: self.restart_recommended,
        }
    }
}

/// A message without the mark of a bridge error.
pub open spec fn unmarked(message: Seq<char>) -> Seq<char> {
    if starts_with_text(message, "bridge error: "@) {
        message.skip("bridge error: "@.len() as int)
    } else {
        message
    }
}

/// The contents of an optional native error.
pub open spec fn opt_native(n: Option<NativeOperationError>) -> Option<NativeView> {
    match n {
        Some(x) => Some(x@),
        None => None,
    }
}

/// A native error that was read, if it is of the kind that operations give.
pub open spec fn accepted_native(read: Option<NativeView>) -> Option<NativeView> {
    match read {
        Some(n) => if n.kind == "operation_error"@ {
            Some(n)
        } else {
            None
        },
        None => None,
    }
}

/// Whether a message carries this native error, or none, where `read` reads native errors: what
/// is read from the message without its mark, if it is of the kind that operations give.
pub open spec fn carries<F: Fn(&str) -> Option<NativeOperationError>>(
    read: F,
    message: Seq<char>,
    native: Option<NativeView>,
) -> bool {
    exists|text: &str, r: Option<NativeOperationError>|
        text@ == unmarked(message) && #[trigger] read.ensures((text,), r) && native
            == accepted_native(opt_native(r))
}

/// The native error that a message carries, if it carries one.
pub fn parse_native_operation_error<F: Fn(&str) -> Option<NativeOperationError>>(
    message: &str,
    read: F,
) -> (res: Option<NativeOperationError>)
    requires
        forall|text: &str| #[trigger] read.requires((text,)),
    ensures
        carries(read, message@, opt_native(res)),
{
    let payload = if starts_with(message, "bridge error: ") {
        let mark_len: usize = "bridge error: ".unicode_len();
        let total: usize = message.unicode_len();
        message.substring_char(mark_len, total)
    } else {
        message
    };
    assert(payload@ =~= unmarked(message@));
    let parsed = read(payload);
    let ghost seen = parsed;
    let res = match parsed {
        Some(n) => if str_eq(n.kind.as_str(), "operation_error") {
            Some(n)
        } else {
            None
        },
        None => None,
    };
    assert(read.ensures((payload,), seen) && opt_native(res) == accepted_native(opt_native(seen)));
    res
}

/// A failure, from an error and, where it carries one, from its native error.
pub open spec fn failure_of(
    operation: Seq<char>,
    stage: Seq<char>,
    message: Seq<char>,
    native: Option<NativeView>,
    now: u64,
) -> FailureView {
    match native {
        Some(n) => FailureView {
            operation: n.operation,
            stage: n.stage,
            message: n.message,
            elapsed_ms: n.elapsed_ms,
            timed_out: n.timed_out,
            restart_recommended: n.restart_recommended,
            first_seen_at_ms: now,
            last_seen_at_ms: now,
        },
        None => FailureView {
            operation,
            stage,
            message,
            elapsed_ms: 0,
            timed_out: false,
            restart_recommended: false,
            first_seen_at_ms: now,
            last_seen_at_ms: now,
        },
    }
}

/// The failure of an operation with a message and perhaps a native error.
pub fn failure_with(
    operation: &str,
    stage: &str,
    message: String,
    native: Option<NativeOperationError>,
    now_ms: u64,
) -> (res: FailureSnapshot)
    ensures
        res@ == failure_of(operation@, stage@, message@, opt_native(native), now_ms),
{
    match native {
        Some(n) => FailureSnapshot {
            operation: n.operation,
            stage: n.stage,
            message: n.message,
            elapsed_ms: n.elapsed_ms,
            timed_out: n.timed_out,
            restart_recommended: n.restart_recommended,
            first_seen_at_ms: now_ms,
            last_seen_at_ms: now_ms,
        },
        None => FailureSnapshot {
            operation: operation.to_owned(),
            stage: stage.to_owned(),
            message,
            elapsed_ms: 0,
            timed_out: false,
            restart_recommended: false,
            first_seen_at_ms: now_ms,
            last_seen_at_ms: now_ms,
        },
    }
}

/// The failure of an operation with an error.
pub fn failure_from_error<F: Fn(&str) -> Option<NativeOperationError>>(
    operation: &str,
    stage: &str,
    error: &AegisError,
    read: F,
    now_ms: u64,
) -> (res: FailureSnapshot)
    requires
        forall|text: &str| #[trigger] read.requires((text,)),
    ensures
        exists|native: Option<NativeView>| #[trigger]
            carries(read, error_text(error@), native) && res@ == failure_of(
                operation@,
                stage@,
                error_text(error@),
                native,
                now_ms,
            ),
{
    let message = error.message();
    let native = parse_native_operation_error(message.as_str(), read);
    assert(carries(read, error_text(error@), opt_native(native)));
    failure_with(operation, stage, message, native, now_ms)
}

/// The status of a runtime that has not started.
pub fn default_runtime_status() -> (res: RuntimeStatus)
    ensures
        res@ == unknown_status(),
{
    let media: Vec<MediaDiagnostics> = Vec::new();
    assert(media_view(media@) =~= Seq::<MediaView>::empty());
    RuntimeStatus {
        bootstrapped: false,
        bootstrap_duration_ms: None,
        dom_nodes: 0,
        dom_snapshot_available: false,
        retained_event_count: 0,
        latest_event_sequence: 0,
        oldest_retained_event_sequence: None,
        current_url: None,
        current_title: None,
        document_ready_state: None,
        page_bootstrap: PageBootstrapDiagnostics::default(),
        media,
        last_dom_refresh_at_ms: None,
        last_live_state_refresh_at_ms: None,
        last_event_at_ms: None,
        last_successful_command_at_ms: None,
        last_successful_bridge_roundtrip_at_ms: None,
        host: HostRuntimeState::default(),
    }
}

/// The status of a runtime that has not started.
pub open spec fn unknown_status() -> StatusView {
    StatusView {
        bootstrapped: false,
        bootstrap_duration_ms: None,
        dom_nodes: 0,
        dom_snapshot_available: false,
        retained_event_count: 0,
        latest_event_sequence: 0,
        oldest_retained_event_sequence: None,
        current_url: None,
        current_title: None,
        document_ready_state: None,
        page_bootstrap: no_bootstrap(),
        media: Seq::empty(),
        last_dom_refresh_at_ms: None,
        last_live_state_refresh_at_ms: None,
        last_event_at_ms: None,
        last_successful_command_at_ms: None,
        last_successful_bridge_roundtrip_at_ms: None,
        host: unknown_host(),
    }
}

/// A status in which a cancellation was asked for.
pub open spec fn cancelling(s: StatusView) -> StatusView {
    StatusView { host: HostView { cancel_requested: true, ..s.host }, ..s }
}

/// Notes in a status that a cancellation was asked for.
fn request_cancel(status: &mut RuntimeStatus)
    ensures
        final(status)@ == cancelling(old(status)@),
{
    status.host.cancel_requested = true;
    assert(status@ =~= cancelling(old(status)@));
}

/// What a context knows of its runtime and its operations.
#[derive(Debug)]
pub struct ServeDiagnostics {
    runtime: RuntimeStatus,
    active_operation: Option<ActiveOperation>,
    last_failure: Option<FailureSnapshot>,
    total_operations: u64,
    successful_operations: u64,
    timed_out_operations: u64,
    next_operation_id: u64,
}

/// The contents of a `ServeDiagnostics`.
#[verifier::ext_equal]
pub struct DiagnosticsView {
    pub runtime: StatusView,
    pub active: Option<ActiveView>,
    pub last_failure: Option<FailureView>,
    pub total: u64,
    pub successful: u64,
    pub timed_out: u64,
    pub next_id: u64,
}

impl View for ServeDiagnostics {
    type V = DiagnosticsView;

    closed spec fn view(&self) -> DiagnosticsView {
        DiagnosticsView {
            runtime: self.runtime@,
            active: opt_active(self.active_operation),
            last_failure: opt_failure(self.last_failure),
            total: self.total_operations,
            successful: self.successful_operations,
            timed_out: self.timed_out_operations,
            next_id: self.next_operation_id,
        }
    }
}

/// Whether the runtime is there and answers.
pub open spec fn operational(s: StatusView) -> bool {
    s.bootstrapped && s.host.browser_available && s.host.renderer_ready && s.host.runtime_ready
}

/// Whether the last failure calls for a restart.
pub open spec fn is_wedged(failure: Option<FailureView>) -> bool {
    failure matches Some(f) && f.timed_out && f.restart_recommended
}

/// The state that a runtime is in; the first of these that holds: a cancellation is under
/// way, the active operation timed out, the runtime has not started, the last failure calls
/// for a restart, something runs, part of it is gone, the last operation failed, or it is
/// ready.
pub open spec fn state_of(
    runtime: StatusView,
    active: Option<ActiveView>,
    failure: Option<FailureView>,
) -> RuntimeOperationalState {
    let host = runtime.host;
    if host.cancel_requested {
        RuntimeOperationalState::Cancelling
    } else if active matches Some(a) && a.timed_out {
        RuntimeOperationalState::Wedged
    } else if !runtime.bootstrapped {
        RuntimeOperationalState::Starting
    } else if is_wedged(failure) {
        RuntimeOperationalState::Wedged
    } else if active is Some || host.load_in_progress {
        RuntimeOperationalState::Busy
    } else if host.browser_closed || !host.browser_available || !host.renderer_ready
        || !host.runtime_ready {
        RuntimeOperationalState::Degraded
    } else if failure is Some {
        RuntimeOperationalState::Degraded
    } else if operational(runtime) && runtime.last_successful_bridge_roundtrip_at_ms is Some {
        RuntimeOperationalState::Ready
    } else {
        RuntimeOperationalState::Degraded
    }
}

/// Whether the runtime can accept commands: it is ready, or would be if it were not busy.
pub open spec fn accepts_commands(d: DiagnosticsView) -> bool {
    match state_of(d.runtime, d.active, d.last_failure) {
        RuntimeOperationalState::Ready => true,
        RuntimeOperationalState::Busy => state_of(
            StatusView {
                host: HostView { load_in_progress: false, ..d.runtime.host },
                ..d.runtime
            },
            None,
            d.last_failure,
        ) is Ready,
        _ => false,
    }
}

/// What a context reports.
#[derive(Debug)]
pub struct RuntimeDiagnosticsResponse {
    pub protocol_version: u16,
    pub state: RuntimeOperationalState,
    pub control_plane_up: bool,
    pub command_ready: bool,
    pub inspectable_dom_ready: bool,
    pub document_loaded: bool,
    pub module_scripts_present: bool,
    pub module_bootstrap_observed: bool,
    pub app_dom_mutated_after_load: bool,
    pub synthetic_shell_active: bool,
    pub bridge_healthy: bool,
    pub browser_backend_healthy: bool,
    pub browser_process_up: bool,
    pub page_attached: bool,
    pub renderer_attached: bool,
    pub dom_snapshot_available: bool,
    pub event_decoder_ok: bool,
    pub active_operation: Option<OperationSnapshot>,
    pub last_failure: Option<FailureSnapshot>,
    pub total_operations: u64,
    pub successful_operations: u64,
    pub timed_out_operations: u64,
    pub runtime: RuntimeStatus,
}

/// The contents of a `RuntimeDiagnosticsResponse`.
#[verifier::ext_equal]
pub struct ReportView {
    pub protocol_version: u16,
    pub state: RuntimeOperationalState,
    pub control_plane_up: bool,
    pub command_ready: bool,
    pub inspectable_dom_ready: bool,
    pub document_loaded: bool,
    pub module_scripts_present: bool,
    pub module_bootstrap_observed: bool,
    pub app_dom_mutated_after_load: bool,
    pub synthetic_shell_active: bool,
    pub bridge_healthy: bool,
    pub browser_backend_healthy: bool,
    pub browser_process_up: bool,
    pub page_attached: bool,
    pub renderer_attached: bool,
    pub dom_snapshot_available: bool,
    pub event_decoder_ok: bool,
    pub active_operation: Option<OperationView>,
    pub last_failure: Option<FailureView>,
    pub total_operations: u64,
    pub successful_operations: u64,
    pub timed_out_operations: u64,
    pub runtime: StatusView,
}

impl View for RuntimeDiagnosticsResponse {
    type V = ReportView;

    open spec fn view(&self) -> ReportView {
        ReportView {
            protocol_version: self.protocol_version,
            state: self.state,
            control_plane_up: self.control_plane_up,
            command_ready: self.command_ready,
            inspectable_dom_ready: self.inspectable_dom_ready,
            document_loaded: self.document_loaded,
            module_scripts_present: self.module_scripts_present,
            module_bootstrap_observed: self.module_bootstrap_observed,
            app_dom_mutated_after_load: self.app_dom_mutated_after_load,
            synthetic_shell_active: self.synthetic_shell_active,
            bridge_healthy: self.bridge_healthy,
            browser_backend_healthy: self.browser_backend_healthy,
            browser_process_up: self.browser_process_up,
            page_attached: self.page_attached,
            renderer_attached: self.renderer_attached,
            dom_snapshot_available: self.dom_snapshot_available,
            event_decoder_ok: self.event_decoder_ok,
            active_operation: opt_operation(self.active_operation),
            last_failure: opt_failure(self.last_failure),
            total_operations: self.total_operations,
            successful_operations: self.successful_operations,
            timed_out_operations: self.timed_out_operations,
            runtime: self.runtime@,
        }
    }
}

/// What a context reports at a time.
pub open spec fn report(d: DiagnosticsView, tick: u64) -> ReportView {
    let host = d.runtime.host;
    let page = d.runtime.page_bootstrap;
    ReportView {
        protocol_version: PROTOCOL_VERSION,
        state: state_of(d.runtime, d.active, d.last_failure),
        control_plane_up: true,
        command_ready: accepts_commands(d),
        inspectable_dom_ready: page.inspectable_dom_ready,
        document_loaded: page.document_loaded,
        module_scripts_present: page.module_scripts_present,
        module_bootstrap_observed: page.module_bootstrap_observed,
        app_dom_mutated_after_load: page.app_dom_mutated_after_load,
        synthetic_shell_active: page.synthetic_shell_active,
        bridge_healthy: d.runtime.last_successful_bridge_roundtrip_at_ms is Some && operational(
            d.runtime,
        ) && d.last_failure is None,
        browser_backend_healthy: d.runtime.bootstrapped && host.browser_available
            && !host.browser_closed && !(d.last_failure matches Some(f) && f.restart_recommended),
        browser_process_up: host.browser_available && !host.browser_closed,
        page_attached: host.page_ready,
        renderer_attached: host.renderer_ready,
        dom_snapshot_available: d.runtime.dom_snapshot_available,
        event_decoder_ok: !(d.last_failure matches Some(f) && contains_text(
            f.message,
            "unknown variant"@,
        )),
        active_operation: match d.active {
            Some(a) => Some(report_of(a, tick)),
            None => None,
        },
        last_failure: d.last_failure,
        total_operations: d.total,
        successful_operations: d.successful,
        timed_out_operations: d.timed_out,
        runtime: d.runtime,
    }
}

/// A failure, first seen when the one before it was first seen.
pub open spec fn seen_since(failure: FailureView, previous: Option<FailureView>) -> FailureView {
    match previous {
        Some(p) => FailureView { first_seen_at_ms: p.first_seen_at_ms, ..failure },
        None => failure,
    }
}

/// The failure of an operation whose reply did not come in time.
pub open spec fn timeout_failure(operation: Seq<char>, elapsed_ms: u64, now: u64) -> FailureView {
    FailureView {
        operation,
        stage: "awaiting_control_plane_reply"@,
        message:
            "the API timed out waiting for the runtime owner thread to reply and requested cancellation"@,
        elapsed_ms,
        timed_out: true,
        restart_recommended: false,
        first_seen_at_ms: now,
        last_seen_at_ms: now,
    }
}

/// The diagnostics of a context that has done nothing yet.
pub open spec fn fresh_diagnostics(runtime: StatusView) -> DiagnosticsView {
    DiagnosticsView {
        runtime,
        active: None,
        last_failure: None,
        total: 0,
        successful: 0,
        timed_out: 0,
        next_id: 1,
    }
}

/// The diagnostics after an operation started.
pub open spec fn begun(
    d: DiagnosticsView,
    name: Seq<char>,
    stage: Seq<char>,
    now: u64,
    tick: u64,
) -> DiagnosticsView {
    DiagnosticsView {
        total: (d.total + 1) as u64,
        next_id: (d.next_id + 1) as u64,
        active: Some(
            ActiveView {
                id: d.next_id,
                name,
                stage,
                started_at_ms: now,
                started_tick_ms: tick,
                timed_out: false,
            },
        ),
        ..d
    }
}

/// The diagnostics after the active operation succeeded.
pub open spec fn succeeded(d: DiagnosticsView, runtime: StatusView) -> DiagnosticsView {
    DiagnosticsView {
        successful: (d.successful + 1) as u64,
        runtime,
        active: None,
        last_failure: None,
        ..d
    }
}

/// The diagnostics after the active operation failed.
pub open spec fn failed(d: DiagnosticsView, failure: FailureView, runtime: StatusView) ->
    DiagnosticsView {
    DiagnosticsView {
        runtime,
        active: None,
        last_failure: Some(seen_since(failure, d.last_failure)),
        ..d
    }
}

/// The diagnostics after the reply to an operation did not come in time.
pub open spec fn overdue(d: DiagnosticsView, operation: Seq<char>, elapsed_ms: u64, now: u64) ->
    DiagnosticsView {
    DiagnosticsView {
        timed_out: (d.timed_out + 1) as u64,
        runtime: cancelling(d.runtime),
        active: match d.active {
            Some(a) => Some(
                ActiveView { timed_out: true, stage: "awaiting_control_plane_reply"@, ..a },
            ),
            None => None,
        },
        last_failure: Some(
            seen_since(timeout_failure(operation, elapsed_ms, now), d.last_failure),
        ),
        ..d
    }
}

/// The diagnostics after the runtime told of itself.
pub open spec fn refreshed(d: DiagnosticsView, runtime: StatusView) -> DiagnosticsView {
    DiagnosticsView {
        runtime,
        last_failure: if operational(runtime) && runtime.host.page_ready
            && !runtime.host.load_in_progress {
            None
        } else {
            d.last_failure
        },
        ..d
    }
}

/// The diagnostics after a cancellation was asked for.
pub open spec fn cancel_asked(d: DiagnosticsView) -> DiagnosticsView {
    DiagnosticsView {
        runtime: cancelling(d.runtime),
        active: match d.active {
            Some(a) => Some(ActiveView { stage: "cancelling_active_operation"@, ..a }),
            None => None,
        },
        ..d
    }
}

/// Something that happens to a context.
#[derive(Debug)]
pub enum DiagnosticsChange {
    /// An operation starts.
    Begin { name: String, stage: String, now_ms: u64, tick_ms: u64 },
    /// The active operation succeeded.
    Succeed { runtime: RuntimeStatus },
    /// The active operation failed.
    Fail { failure: FailureSnapshot, runtime: RuntimeStatus },
    /// The reply to an operation did not come in time.
    Overdue { operation: String, elapsed_ms: u64, now_ms: u64 },
    /// The runtime tells of itself.
    Refresh { runtime: RuntimeStatus },
    /// A cancellation was asked for.
    CancelAsked,
}

/// The diagnostics after something happened.
pub open spec fn changed(d: DiagnosticsView, c: DiagnosticsChange) -> DiagnosticsView {
    match c {
        DiagnosticsChange::Begin { name, stage, now_ms, tick_ms } => begun(
            d,
            name@,
            stage@,
            now_ms,
            tick_ms,
        ),
        DiagnosticsChange::Succeed { runtime } => succeeded(d, runtime@),
        DiagnosticsChange::Fail { failure, runtime } => failed(d, failure@, runtime@),
        DiagnosticsChange::Overdue { operation, elapsed_ms, now_ms } => overdue(
            d,
            operation@,
            elapsed_ms,
            now_ms,
        ),
        DiagnosticsChange::Refresh { runtime } => refreshed(d, runtime@),
        DiagnosticsChange::CancelAsked => cancel_asked(d),
    }
}

/// Whether no counter is at its end.
pub open spec fn counters_run(d: DiagnosticsView) -> bool {
    d.total < u64::MAX && d.successful < u64::MAX && d.timed_out < u64::MAX && d.next_id
        < u64::MAX
}

impl ServeDiagnostics {
    /// The diagnostics of a context that has done nothing yet.
    pub fn new(runtime: RuntimeStatus) -> (res: Self)
        ensures
            res@ == fresh_diagnostics(runtime@),
    {
        ServeDiagnostics {
            runtime,
            active_operation: None,
            last_failure: None,
            total_operations: 0,
            successful_operations: 0,
            timed_out_operations: 0,
            next_operation_id: 1,
        }
    }

    /// Notes that an operation starts.
    pub fn begin_operation(&mut self, name: &str, stage: &str, now_ms: u64, tick_ms: u64)
        requires
            old(self)@.total < u64::MAX,
            old(self)@.next_id < u64::MAX,
        ensures
            final(self)@ == begun(old(self)@, name@, stage@, now_ms, tick_ms),
    {
        self.total_operations = self.total_operations + 1;
        self.active_operation = Some(
            ActiveOperation {
                id: self.next_operation_id,
                name: name.to_owned(),
                stage: stage.to_owned(),
                started_at_ms: now_ms,
                started_tick_ms: tick_ms,
                timed_out: false,
            },
        );
        self.next_operation_id = self.next_operation_id + 1;
    }

    /// Notes that the active operation succeeded.
    pub fn complete_success(&mut self, runtime: RuntimeStatus)
        requires
            old(self)@.successful < u64::MAX,
        ensures
            final(self)@ == succeeded(old(self)@, runtime@),
    {
        self.successful_operations = self.successful_operations + 1;
        self.runtime = runtime;
        self.active_operation = None;
        self.last_failure = None;
    }

    /// Notes that the active operation failed. A failure that follows another keeps the time
    /// at which the first was seen.
    pub fn complete_failure(&mut self, failure: FailureSnapshot, runtime: Option<RuntimeStatus>)
        ensures
            final(self)@ == failed(
                old(self)@,
                failure@,
                match runtime {
                    Some(r) => r@,
                    None => old(self)@.runtime,
                },
            ),
    {
        let mut failure = failure;
        if let Some(r) = runtime {
            self.runtime = r;
        }
        if let Some(previous) = &self.last_failure {
            failure.first_seen_at_ms = previous.first_seen_at_ms;
        }
        self.last_failure = Some(failure);
        self.active_operation = None;
    }

    /// Notes that the reply to an operation did not come in time and that a cancellation was
    /// asked for.
    pub fn mark_timeout(&mut self, operation: &str, elapsed_ms: u64, now_ms: u64)
        requires
            old(self)@.timed_out < u64::MAX,
        ensures
            final(self)@ == overdue(old(self)@, operation@, elapsed_ms, now_ms),
    {
        self.timed_out_operations = self.timed_out_operations + 1;
        request_cancel(&mut self.runtime);
        let mut active: Option<ActiveOperation> = None;
        std::mem::swap(&mut active, &mut self.active_operation);
        if let Some(mut a) = active {
            a.timed_out = true;
            a.stage = "awaiting_control_plane_reply".to_owned();
            self.active_operation = Some(a);
        }
        let first_seen_at_ms: u64 = match &self.last_failure {
            Some(f) => f.first_seen_at_ms,
            None => now_ms,
        };
        self.last_failure = Some(
            FailureSnapshot {
                operation: operation.to_owned(),
                stage: "awaiting_control_plane_reply".to_owned(),
                message:
                    "the API timed out waiting for the runtime owner thread to reply and requested cancellation".to_owned(),
                elapsed_ms,
                timed_out: true,
                restart_recommended: false,
                first_seen_at_ms,
                last_seen_at_ms: now_ms,
            },
        );
    }

    /// Takes in what the runtime tells of itself; a runtime that is whole again has no
    /// failure.
    pub fn record_runtime_snapshot(&mut self, runtime: RuntimeStatus)
        ensures
            final(self)@ == refreshed(old(self)@, runtime@),
    {
        let host = &runtime.host;
        let whole = runtime.bootstrapped && host.browser_available && host.page_ready
            && host.renderer_ready && host.runtime_ready && !host.load_in_progress;
        self.runtime = runtime;
        if whole {
            self.last_failure = None;
        }
    }

    /// Notes that a cancellation was asked for.
    pub fn mark_cancel_requested(&mut self)
        ensures
            final(self)@ == cancel_asked(old(self)@),
    {
        request_cancel(&mut self.runtime);
        let mut active: Option<ActiveOperation> = None;
        std::mem::swap(&mut active, &mut self.active_operation);
        if let Some(mut a) = active {
            a.stage = "cancelling_active_operation".to_owned();
            self.active_operation = Some(a);
        }
    }

    /// Whether no counter is at its end.
    pub fn counters_run(&self) -> (res: bool)
        ensures
            res == counters_run(self@),
    {
        self.total_operations < u64::MAX && self.successful_operations < u64::MAX
            && self.timed_out_operations < u64::MAX && self.next_operation_id < u64::MAX
    }

    /// Takes in something that happened.
    pub fn apply(&mut self, change: DiagnosticsChange)
        requires
            counters_run(old(self)@),
        ensures
            final(self)@ == changed(old(self)@, change),
    {
        match change {
            DiagnosticsChange::Begin { name, stage, now_ms, tick_ms } => {
                self.begin_operation(name.as_str(), stage.as_str(), now_ms, tick_ms);
            },
            DiagnosticsChange::Succeed { runtime } => {
                self.complete_success(runtime);
            },
            DiagnosticsChange::Fail { failure, runtime } => {
                self.complete_failure(failure, Some(runtime));
            },
            DiagnosticsChange::Overdue { operation, elapsed_ms, now_ms } => {
                self.mark_timeout(operation.as_str(), elapsed_ms, now_ms);
            },
            DiagnosticsChange::Refresh { runtime } => {
                self.record_runtime_snapshot(runtime);
            },
            DiagnosticsChange::CancelAsked => {
                self.mark_cancel_requested();
            },
        }
    }

    /// The state that the runtime is in.
    pub fn state(&self) -> (res: RuntimeOperationalState)
        ensures
            res == state_of(self@.runtime, self@.active, self@.last_failure),
    {
        let host = &self.runtime.host;
        let active_timed_out = match &self.active_operation {
            Some(a) => a.timed_out,
            None => false,
        };
        let wedged = match &self.last_failure {
            Some(f) => f.timed_out && f.restart_recommended,
            None => false,
        };
        if host.cancel_requested {
            RuntimeOperationalState::Cancelling
        } else if active_timed_out {
            RuntimeOperationalState::Wedged
        } else if !self.runtime.bootstrapped {
            RuntimeOperationalState::Starting
        } else if wedged {
            RuntimeOperationalState::Wedged
        } else if self.active_operation.is_some() || host.load_in_progress {
            RuntimeOperationalState::Busy
        } else if host.browser_closed || !host.browser_available || !host.renderer_ready
            || !host.runtime_ready {
            RuntimeOperationalState::Degraded
        } else if self.last_failure.is_some() {
            RuntimeOperationalState::Degraded
        } else if self.runtime.last_successful_bridge_roundtrip_at_ms.is_some() {
            RuntimeOperationalState::Ready
        } else {
            RuntimeOperationalState::Degraded
        }
    }

    /// Whether the runtime can accept commands: it is ready, or would be if it were not busy.
    pub fn accepts_commands(&self) -> (res: bool)
        ensures
            res == accepts_commands(self@),
    {
        let host = &self.runtime.host;
        match self.state() {
            RuntimeOperationalState::Ready => true,
            RuntimeOperationalState::Busy => host.browser_available && !host.browser_closed
                && host.renderer_ready && host.runtime_ready && self.last_failure.is_none()
                && self.runtime.last_successful_bridge_roundtrip_at_ms.is_some(),
            _ => false,
        }
    }

    /// What the context reports at a time.
    #[verifier::rlimit(60)]
    pub fn snapshot(&self, tick_ms: u64) -> (res: RuntimeDiagnosticsResponse)
        ensures
            res@ == report(self@, tick_ms),
    {
        let active_operation = match &self.active_operation {
            Some(a) => Some(
                OperationSnapshot {
                    id: a.id,
                    name: a.name.clone(),
                    stage: a.stage.clone(),
                    started_at_ms: a.started_at_ms,
                    elapsed_ms: if tick_ms >= a.started_tick_ms {
                        tick_ms - a.started_tick_ms
                    } else {
                        0
                    },
                    timed_out: a.timed_out,
                },
            ),
            None => None,
        };
        let host = &self.runtime.host;
        let page = &self.runtime.page_bootstrap;
        let runtime_operational = self.runtime.bootstrapped && host.browser_available
            && host.renderer_ready && host.runtime_ready;
        let answered = self.runtime.last_successful_bridge_roundtrip_at_ms.is_some();
        let state = self.state();
        let command_ready = self.accepts_commands();
        let restart_recommended = match &self.last_failure {
            Some(f) => f.restart_recommended,
            None => false,
        };
        let decoder_failed = match &self.last_failure {
            Some(f) => contains(f.message.as_str(), "unknown variant"),
            None => false,
        };
        let last_failure = match &self.last_failure {
            Some(f) => Some(f.clone()),
            None => None,
        };
        RuntimeDiagnosticsResponse {
            protocol_version: PROTOCOL_VERSION,
            state,
            control_plane_up: true,
            command_ready,
            inspectable_dom_ready: page.inspectable_dom_ready,
            document_loaded: page.document_loaded,
            module_scripts_present: page.module_scripts_present,
            module_bootstrap_observed: page.module_bootstrap_observed,
            app_dom_mutated_after_load: page.app_dom_mutated_after_load,
            synthetic_shell_active: page.synthetic_shell_active,
            bridge_healthy: answered && runtime_operational && self.last_failure.is_none(),
            browser_backend_healthy: self.runtime.bootstrapped && host.browser_available
                && !host.browser_closed && !restart_recommended,
            browser_process_up: host.browser_available && !host.browser_closed,
            page_attached: host.page_ready,
            renderer_attached: host.renderer_ready,
            dom_snapshot_available: self.runtime.dom_snapshot_available,
            event_decoder_ok: !decoder_failed,
            active_operation,
            last_failure,
            total_operations: self.total_operations,
            successful_operations: self.successful_operations,
            timed_out_operations: self.timed_out_operations,
            runtime: self.runtime.clone(),
        }
    }
}

/// A runtime that can accept commands has a healthy bridge and a healthy browser.
pub proof fn law_command_ready_is_truthful(d: DiagnosticsView, tick: u64)
    requires
        report(d, tick).command_ready,
    ensures
        report(d, tick).bridge_healthy,
        report(d, tick).browser_backend_healthy,
        report(d, tick).browser_process_up,
        report(d, tick).renderer_attached,
        report(d, tick).last_failure is None,
{
}

/// Being busy with a command does not keep a ready runtime from accepting commands.
pub proof fn law_busy_runtime_accepts_commands(d: DiagnosticsView, a: ActiveView)
    requires
        d.active is None,
        state_of(d.runtime, d.active, d.last_failure) is Ready,
        !a.timed_out,
    ensures
        accepts_commands(DiagnosticsView { active: Some(a), ..d }),
        state_of(d.runtime, Some(a), d.last_failure) is Busy,
{
    assert(HostView { load_in_progress: false, ..d.runtime.host } =~= d.runtime.host);
    assert(StatusView {
        host: HostView { load_in_progress: false, ..d.runtime.host },
        ..d.runtime
    } =~= d.runtime);
}

/// An operation counts once as started, whatever becomes of it; it counts as successful only
/// where it succeeds, after which there is no failure left.
pub proof fn law_operation_counts(
    d: DiagnosticsView,
    name: Seq<char>,
    stage: Seq<char>,
    now: u64,
    tick: u64,
    failure: FailureView,
    runtime: StatusView,
)
    requires
        d.total < u64::MAX,
        d.successful < u64::MAX,
    ensures
        ({
            let done = succeeded(begun(d, name, stage, now, tick), runtime);
            &&& done.total == d.total + 1
            &&& done.successful == d.successful + 1
            &&& done.active is None
            &&& done.last_failure is None
        }),
        ({
            let done = failed(begun(d, name, stage, now, tick), failure, runtime);
            &&& done.total == d.total + 1
            &&& done.successful == d.successful
            &&& done.active is None
            &&& done.last_failure is Some
        }),
{
}

/// Failures in a row keep the time at which the first of them was seen.
pub proof fn law_failures_keep_first_seen(
    d: DiagnosticsView,
    first: FailureView,
    second: FailureView,
    runtime: StatusView,
    later: StatusView,
)
    ensures
        ({
            let once = failed(d, first, runtime);
            let twice = failed(once, second, later);
            &&& twice.last_failure->Some_0.first_seen_at_ms
                == once.last_failure->Some_0.first_seen_at_ms
            &&& twice.last_failure->Some_0.last_seen_at_ms == second.last_seen_at_ms
        }),
{
}

/// After a reply did not come in time, or a cancellation was asked for, the context is
/// cancelling and accepts no command until the runtime tells otherwise.
pub proof fn law_cancelling_refuses_commands(
    d: DiagnosticsView,
    operation: Seq<char>,
    elapsed_ms: u64,
    now: u64,
    tick: u64,
)
    ensures
        report(overdue(d, operation, elapsed_ms, now), tick).state is Cancelling,
        !report(overdue(d, operation, elapsed_ms, now), tick).command_ready,
        report(cancel_asked(d), tick).state is Cancelling,
        !report(cancel_asked(d), tick).command_ready,
{
}

/// The states by the names that they are reported under.
pub proof fn law_names_of_states()
    ensures
        state_name(RuntimeOperationalState::Starting) == "starting"@,
        state_name(RuntimeOperationalState::Ready) == "ready"@,
        state_name(RuntimeOperationalState::Busy) == "busy"@,
        state_name(RuntimeOperationalState::Degraded) == "degraded"@,
        state_name(RuntimeOperationalState::Cancelling) == "cancelling"@,
        state_name(RuntimeOperationalState::Wedged) == "wedged"@,
{
}

/// A runtime is cancelling exactly while that is asked for. Else it is wedged when what runs has
/// timed out, or when it has started and its last failure timed out and calls for a restart; it is
/// starting until it has started; it is busy while something runs or a page loads; and it is
/// ready exactly when none of this holds, nothing failed, browser, renderer and page are there and
/// a roundtrip succeeded. In all other cases it is degraded.
pub proof fn law_state_of_a_runtime(
    s: StatusView,
    active: Option<ActiveView>,
    failure: Option<FailureView>,
)
    ensures
        ({
            let state = state_of(s, active, failure);
            let stuck = active is Some && active->Some_0.timed_out;
            let lost = failure is Some && failure->Some_0.timed_out
                && failure->Some_0.restart_recommended;
            let settled = !s.host.cancel_requested && !stuck && s.bootstrapped && !lost;
            let busy = active is Some || s.host.load_in_progress;
            let sound = !s.host.browser_closed && s.host.browser_available && s.host.renderer_ready
                && s.host.runtime_ready;
            &&& state is Cancelling <==> s.host.cancel_requested
            &&& state is Wedged <==> !s.host.cancel_requested && (stuck || (s.bootstrapped && lost))
            &&& state is Starting <==> !s.host.cancel_requested && !stuck && !s.bootstrapped
            &&& state is Busy <==> settled && busy
            &&& state is Ready <==> settled && !busy && sound && failure is None
                && s.last_successful_bridge_roundtrip_at_ms is Some
            &&& state is Degraded <==> settled && !busy && !(sound && failure is None
                && s.last_successful_bridge_roundtrip_at_ms is Some)
        }),
{
}

/// Commands are accepted exactly when nothing stands against them but what runs or loads: nothing
/// asks to stop, nothing has timed out, the runtime has started without a failure, browser,
/// renderer and page are there and a roundtrip succeeded.
pub proof fn law_commands_are_accepted(d: DiagnosticsView)
    ensures
        accepts_commands(d) <==> {
            let s = d.runtime;
            &&& !s.host.cancel_requested
            &&& !(d.active is Some && d.active->Some_0.timed_out)
            &&& s.bootstrapped
            &&& d.last_failure is None
            &&& !s.host.browser_closed && s.host.browser_available && s.host.renderer_ready
                && s.host.runtime_ready
            &&& s.last_successful_bridge_roundtrip_at_ms is Some
        },
{
}

/// What is reported is what is known: the state, what runs and for how long, the last failure, the
/// counts, the page and the parts of the browser, each under its own name.
pub proof fn law_report_tells_all(d: DiagnosticsView, tick: u64)
    ensures
        ({
            let r = report(d, tick);
            let h = d.runtime.host;
            let p = d.runtime.page_bootstrap;
            &&& r.protocol_version == PROTOCOL_VERSION
            &&& r.state == state_of(d.runtime, d.active, d.last_failure)
            &&& r.control_plane_up
            &&& r.command_ready == accepts_commands(d)
            &&& r.inspectable_dom_ready == p.inspectable_dom_ready
            &&& r.document_loaded == p.document_loaded
            &&& r.module_scripts_present == p.module_scripts_present
            &&& r.module_bootstrap_observed == p.module_bootstrap_observed
            &&& r.app_dom_mutated_after_load == p.app_dom_mutated_after_load
            &&& r.synthetic_shell_active == p.synthetic_shell_active
            &&& r.bridge_healthy <==> d.runtime.last_successful_bridge_roundtrip_at_ms is Some
                && d.runtime.bootstrapped && h.browser_available && h.renderer_ready
                && h.runtime_ready && d.last_failure is None
            &&& r.browser_backend_healthy <==> d.runtime.bootstrapped && h.browser_available
                && !h.browser_closed && (d.last_failure is Some
                ==> !d.last_failure->Some_0.restart_recommended)
            &&& r.browser_process_up <==> h.browser_available && !h.browser_closed
            &&& r.page_attached == h.page_ready
            &&& r.renderer_attached == h.renderer_ready
            &&& r.dom_snapshot_available == d.runtime.dom_snapshot_available
            &&& !r.event_decoder_ok <==> d.last_failure is Some && contains_text(
                d.last_failure->Some_0.message,
                "unknown variant"@,
            )
            &&& r.last_failure == d.last_failure
            &&& r.total_operations == d.total
            &&& r.successful_operations == d.successful
            &&& r.timed_out_operations == d.timed_out
            &&& r.runtime == d.runtime
            &&& d.active is None <==> r.active_operation is None
            &&& d.active is Some ==> {
                let a = d.active->Some_0;
                let o = r.active_operation->Some_0;
                &&& o.id == a.id && o.name == a.name && o.stage == a.stage
                &&& o.started_at_ms == a.started_at_ms && o.timed_out == a.timed_out
                &&& tick >= a.started_tick_ms ==> o.elapsed_ms == tick - a.started_tick_ms
                &&& tick < a.started_tick_ms ==> o.elapsed_ms == 0
            }
        }),
{
}

/// An operation that begins is counted, gets the next number, and is what runs from then on;
/// nothing else changes.
pub proof fn law_operation_begins(
    d: DiagnosticsView,
    name: Seq<char>,
    stage: Seq<char>,
    now: u64,
    tick: u64,
)
    requires
        d.total < u64::MAX,
        d.next_id < u64::MAX,
    ensures
        ({
            let after = begun(d, name, stage, now, tick);
            &&& after.total == d.total + 1
            &&& after.next_id == d.next_id + 1
            &&& after.active is Some
            &&& after.active->Some_0.id == d.next_id
            &&& after.active->Some_0.name == name
            &&& after.active->Some_0.stage == stage
            &&& after.active->Some_0.started_at_ms == now
            &&& after.active->Some_0.started_tick_ms == tick
            &&& !after.active->Some_0.timed_out
            &&& after.runtime == d.runtime && after.last_failure == d.last_failure
            &&& after.successful == d.successful && after.timed_out == d.timed_out
        }),
{
}

/// An operation ends with success or with failure; either way nothing runs any more and the status
/// is the new one. Success is counted and clears the last failure; a failure becomes the last one
/// and keeps the time at which failures were first seen since the last success.
pub proof fn law_operation_ends(d: DiagnosticsView, failure: FailureView, runtime: StatusView)
    requires
        d.successful < u64::MAX,
    ensures
        ({
            let good = succeeded(d, runtime);
            &&& good.active is None && good.last_failure is None && good.runtime == runtime
            &&& good.successful == d.successful + 1
            &&& good.total == d.total && good.timed_out == d.timed_out && good.next_id == d.next_id
        }),
        ({
            let bad = failed(d, failure, runtime);
            &&& bad.active is None && bad.runtime == runtime
            &&& bad.successful == d.successful
            &&& bad.total == d.total && bad.timed_out == d.timed_out && bad.next_id == d.next_id
            &&& bad.last_failure is Some
            &&& d.last_failure is None ==> bad.last_failure->Some_0 == failure
            &&& d.last_failure is Some ==> bad.last_failure->Some_0 == (FailureView {
                first_seen_at_ms: d.last_failure->Some_0.first_seen_at_ms,
                ..failure
            })
        }),
{
}

/// An operation that is overdue is counted as timed out and asked to stop; it goes on running,
/// marked as timed out and as awaiting the reply, and the timeout is the last failure.
pub proof fn law_operation_is_overdue(
    d: DiagnosticsView,
    operation: Seq<char>,
    elapsed_ms: u64,
    now: u64,
)
    requires
        d.timed_out < u64::MAX,
    ensures
        ({
            let after = overdue(d, operation, elapsed_ms, now);
            &&& after.timed_out == d.timed_out + 1
            &&& after.runtime.host.cancel_requested
            &&& after.runtime == (StatusView {
                host: HostView { cancel_requested: true, ..d.runtime.host },
                ..d.runtime
            })
            &&& after.total == d.total && after.successful == d.successful && after.next_id
                == d.next_id
            &&& after.active is Some <==> d.active is Some
            &&& d.active is Some ==> after.active->Some_0 == (ActiveView {
                timed_out: true,
                stage: "awaiting_control_plane_reply"@,
                ..d.active->Some_0
            })
            &&& after.last_failure is Some
            &&& after.last_failure->Some_0.operation == operation
            &&& after.last_failure->Some_0.stage == "awaiting_control_plane_reply"@
            &&& after.last_failure->Some_0.elapsed_ms == elapsed_ms
            &&& after.last_failure->Some_0.timed_out
            &&& !after.last_failure->Some_0.restart_recommended
            &&& after.last_failure->Some_0.last_seen_at_ms == now
            &&& after.last_failure->Some_0.first_seen_at_ms == if d.last_failure is Some {
                d.last_failure->Some_0.first_seen_at_ms
            } else {
                now
            }
        }),
{
}

/// A status that comes in replaces the one before, and clears the last failure exactly when it
/// shows a browser that works on a page that is ready and has loaded; asking to stop only marks
/// the host and what runs.
pub proof fn law_status_comes_in(d: DiagnosticsView, runtime: StatusView)
    ensures
        ({
            let after = refreshed(d, runtime);
            let well = runtime.bootstrapped && runtime.host.browser_available
                && runtime.host.renderer_ready && runtime.host.runtime_ready
                && runtime.host.page_ready && !runtime.host.load_in_progress;
            &&& after.runtime == runtime
            &&& well ==> after.last_failure is None
            &&& !well ==> after.last_failure == d.last_failure
            &&& after.active == d.active && after.total == d.total && after.successful
                == d.successful && after.timed_out == d.timed_out && after.next_id == d.next_id
        }),
        ({
            let after = cancel_asked(d);
            &&& after.runtime == (StatusView {
                host: HostView { cancel_requested: true, ..d.runtime.host },
                ..d.runtime
            })
            &&& after.active is Some <==> d.active is Some
            &&& d.active is Some ==> after.active->Some_0 == (ActiveView {
                stage: "cancelling_active_operation"@,
                ..d.active->Some_0
            })
            &&& after.last_failure == d.last_failure && after.total == d.total
                && after.successful == d.successful && after.timed_out == d.timed_out
                && after.next_id == d.next_id
        }),
{
}

/// A failure is told as the host tells it where it does, and else by the operation, the stage and
/// the message, as one that has not timed out; either way it is first and last seen now.
pub proof fn law_failures_are_told(
    operation: Seq<char>,
    stage: Seq<char>,
    message: Seq<char>,
    native: Option<NativeView>,
    now: u64,
)
    ensures
        ({
            let f = failure_of(operation, stage, message, native, now);
            &&& f.first_seen_at_ms == now && f.last_seen_at_ms == now
            &&& native is None ==> f.operation == operation && f.stage == stage && f.message
                == message && f.elapsed_ms == 0 && !f.timed_out && !f.restart_recommended
            &&& native is Some ==> {
                let n = native->Some_0;
                &&& f.operation == n.operation && f.stage == n.stage && f.message == n.message
                &&& f.elapsed_ms == n.elapsed_ms && f.timed_out == n.timed_out
                &&& f.restart_recommended == n.restart_recommended
            }
        }),
        accepted_native(native) is Some <==> native is Some && native->Some_0.kind
            == "operation_error"@,
        accepted_native(native) is Some ==> accepted_native(native) == native,
        unmarked("bridge error: "@ + message) == message,
        !starts_with_text(message, "bridge error: "@) ==> unmarked(message) == message,
{
    let mark = "bridge error: "@;
    assert((mark + message).subrange(0, mark.len() as int) =~= mark);
    assert((mark + message).skip(mark.len() as int) =~= message);
}

/// In the beginning nothing runs, nothing failed, nothing is counted and the first number is one;
/// a status of which nothing is known tells nothing.
pub proof fn law_diagnostics_begin(runtime: StatusView)
    ensures
        ({
            let d = fresh_diagnostics(runtime);
            &&& d.runtime == runtime && d.active is None && d.last_failure is None
            &&& d.total == 0 && d.successful == 0 && d.timed_out == 0 && d.next_id == 1
        }),
        ({
            let s = unknown_status();
            &&& !s.bootstrapped && s.dom_nodes == 0 && !s.dom_snapshot_available
            &&& s.retained_event_count == 0 && s.latest_event_sequence == 0
            &&& s.current_url is None && s.current_title is None && s.document_ready_state is None
            &&& s.media.len() == 0 && s.host == unknown_host() && s.page_bootstrap == no_bootstrap()
            &&& s.last_event_at_ms is None && s.last_dom_refresh_at_ms is None
            &&& s.last_successful_bridge_roundtrip_at_ms is None
            &&& s.last_successful_command_at_ms is None && s.last_live_state_refresh_at_ms is None
            &&& s.bootstrap_duration_ms is None && s.oldest_retained_event_sequence is None
        }),
{
}

} // verus!

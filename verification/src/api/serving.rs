//! What a server tells of a context, and how it paces its work.

use vstd::prelude::*;

use crate::api::contexts::EventStreamQuery;
use crate::api::diagnostics::{
    carries, failure_from_error, failure_of, opt_failure, opt_operation, COMMAND_TIMEOUT_MS,
    DiagnosticsChange, FailureSnapshot, FailureView, NativeOperationError, NativeView,
    OperationSnapshot, OperationView, ReportView, RuntimeDiagnosticsResponse,
    RuntimeOperationalState,
};
use crate::browser::BrowserMode;
use crate::events::stream::{EventReadWindow, WindowView};
use crate::text::{clone_opt, opt_text};
use crate::transport::bridge::{error_text, AegisError, ErrorView};
use crate::transport::protocol::{clone_downloads, downloads_view, DownloadState, PROTOCOL_VERSION};

verus! {

/// How often a context without a window is pumped while it is idle.
pub const HEADLESS_IDLE_PUMP_INTERVAL_MS: u64 = 10;

/// How often a context with a window is pumped while it is idle.
pub const HEADFUL_IDLE_PUMP_INTERVAL_MS: u64 = 2;

/// How often events are looked for, where a request does not say.
pub const DEFAULT_EVENT_STREAM_POLL_INTERVAL_MS: u64 = 100;

/// The shortest time between two looks for events.
pub const MIN_EVENT_STREAM_POLL_INTERVAL_MS: u64 = 25;

/// The longest time between two looks for events.
pub const MAX_EVENT_STREAM_POLL_INTERVAL_MS: u64 = 1_000;

/// How often a context is pumped while it is idle.
pub open spec fn pump_interval(mode: BrowserMode) -> u64 {
    match mode {
        BrowserMode::Headful => HEADFUL_IDLE_PUMP_INTERVAL_MS,
        BrowserMode::Headless => HEADLESS_IDLE_PUMP_INTERVAL_MS,
    }
}

/// How often a context is pumped while it is idle.
pub fn idle_pump_interval_ms(mode: BrowserMode) -> (res: u64)
    ensures
        res == pump_interval(mode),
{
    match mode {
        BrowserMode::Headful => HEADFUL_IDLE_PUMP_INTERVAL_MS,
        BrowserMode::Headless => HEADLESS_IDLE_PUMP_INTERVAL_MS,
    }
}

/// Whether a context is to be pumped: no request came in and it is time.
pub fn pump_due(processed_command: bool, since_last_pump_ms: u64, mode: BrowserMode) -> (res: bool)
    ensures
        res == (!processed_command && since_last_pump_ms >= pump_interval(mode)),
{
    !processed_command && since_last_pump_ms >= idle_pump_interval_ms(mode)
}

/// The failure of a context that could not be pumped.
pub fn pump_failure<F: Fn(&str) -> Option<NativeOperationError>>(
    error: &AegisError,
    read: F,
    now_ms: u64,
) -> (res: FailureSnapshot)
    requires
        forall|text: &str| #[trigger] read.requires((text,)),
    ensures
        exists|native: Option<NativeView>| #[trigger]
            carries(read, error_text(error@), native) && res@ == failure_of(
                "pump"@,
                "pumping browser event loop"@,
                error_text(error@),
                native,
                now_ms,
            ),
{
    failure_from_error("pump", "pumping browser event loop", error, read, now_ms)
}

/// The failure of a context whose stored session could not be restored.
pub fn startup_failure<F: Fn(&str) -> Option<NativeOperationError>>(
    error: &AegisError,
    read: F,
    now_ms: u64,
) -> (res: FailureSnapshot)
    requires
        forall|text: &str| #[trigger] read.requires((text,)),
    ensures
        exists|native: Option<NativeView>| #[trigger]
            carries(read, error_text(error@), native) && res@ == failure_of(
                "startup_restore_session"@,
                "restoring persisted startup session"@,
                error_text(error@),
                native,
                now_ms,
            ),
{
    failure_from_error("startup_restore_session", "restoring persisted startup session", error, read, now_ms)
}

/// What the diagnostics take in when a reply did not come in time.
pub fn overdue_reply(operation: String, now_ms: u64) -> (res: DiagnosticsChange)
    ensures
        res == (DiagnosticsChange::Overdue {
            operation,
            elapsed_ms: COMMAND_TIMEOUT_MS,
            now_ms,
        }),
{
    DiagnosticsChange::Overdue { operation, elapsed_ms: COMMAND_TIMEOUT_MS, now_ms }
}

/// The time between two looks for events: what a request asks for, within bounds.
pub open spec fn poll_interval(asked: Option<u64>) -> u64 {
    let ms = match asked {
        Some(ms) => ms,
        None => DEFAULT_EVENT_STREAM_POLL_INTERVAL_MS,
    };
    if ms < MIN_EVENT_STREAM_POLL_INTERVAL_MS {
        MIN_EVENT_STREAM_POLL_INTERVAL_MS
    } else if ms > MAX_EVENT_STREAM_POLL_INTERVAL_MS {
        MAX_EVENT_STREAM_POLL_INTERVAL_MS
    } else {
        ms
    }
}

impl EventStreamQuery {
    /// The time between two looks for events.
    pub fn poll_interval_ms(&self) -> (res: u64)
        ensures
            res == poll_interval(self.poll_ms),
            MIN_EVENT_STREAM_POLL_INTERVAL_MS <= res <= MAX_EVENT_STREAM_POLL_INTERVAL_MS,
    {
        let ms: u64 = match self.poll_ms {
            Some(ms) => ms,
            None => DEFAULT_EVENT_STREAM_POLL_INTERVAL_MS,
        };
        if ms < MIN_EVENT_STREAM_POLL_INTERVAL_MS {
            MIN_EVENT_STREAM_POLL_INTERVAL_MS
        } else if ms > MAX_EVENT_STREAM_POLL_INTERVAL_MS {
            MAX_EVENT_STREAM_POLL_INTERVAL_MS
        } else {
            ms
        }
    }
}

/// What came of a look for events.
#[derive(Debug)]
pub enum EventPoll {
    /// The context is gone.
    Closed,
    /// The events.
    Window(EventReadWindow),
    /// It failed.
    Failed(AegisError),
    /// The context went away without a reply.
    Cancelled,
    /// The reply did not come in time.
    TimedOut,
}

/// The contents of an `EventPoll`.
pub enum PollView {
    Closed,
    Window(WindowView),
    Failed(ErrorView),
    Cancelled,
    TimedOut,
}

impl View for EventPoll {
    type V = PollView;

    open spec fn view(&self) -> PollView {
        match self {
            EventPoll::Closed => PollView::Closed,
            EventPoll::Window(w) => PollView::Window(w@),
            EventPoll::Failed(e) => PollView::Failed(e@),
            EventPoll::Cancelled => PollView::Cancelled,
            EventPoll::TimedOut => PollView::TimedOut,
        }
    }
}

/// What a stream of events does next.
#[derive(Debug)]
pub enum EventPush {
    /// Send this window, and look for what comes after it.
    Send(EventReadWindow),
    /// Send nothing, and look for what comes after a sequence number.
    Wait(u64),
    /// Send this error and end.
    End(String),
}

/// The contents of an `EventPush`.
pub enum PushView {
    Send(WindowView),
    Wait(u64),
    End(Seq<char>),
}

impl View for EventPush {
    type V = PushView;

    open spec fn view(&self) -> PushView {
        match self {
            EventPush::Send(w) => PushView::Send(w@),
            EventPush::Wait(since) => PushView::Wait(*since),
            EventPush::End(m) => PushView::End(m@),
        }
    }
}

/// What a stream of events does after a look: a window that holds events or tells of a gap is
/// sent.
pub open spec fn push_after(poll: PollView) -> PushView {
    match poll {
        PollView::Closed => PushView::End("runtime event channel closed"@),
        PollView::Window(w) => if w.events.len() > 0 || w.gap_detected {
            PushView::Send(w)
        } else {
            PushView::Wait(w.latest_sequence)
        },
        PollView::Failed(e) => PushView::End(error_text(e)),
        PollView::Cancelled => PushView::End("runtime event stream cancelled"@),
        PollView::TimedOut => PushView::End("runtime event stream timed out"@),
    }
}

/// What a stream of events does after a look.
pub fn event_push(poll: EventPoll) -> (res: EventPush)
    ensures
        res@ == push_after(poll@),
{
    match poll {
        EventPoll::Closed => EventPush::End("runtime event channel closed".to_owned()),
        EventPoll::Window(w) => {
            if w.events.len() > 0 || w.gap_detected {
                EventPush::Send(w)
            } else {
                EventPush::Wait(w.latest_sequence)
            }
        },
        EventPoll::Failed(e) => EventPush::End(e.message()),
        EventPoll::Cancelled => EventPush::End("runtime event stream cancelled".to_owned()),
        EventPoll::TimedOut => EventPush::End("runtime event stream timed out".to_owned()),
    }
}

/// How a context is, in short.
#[derive(Debug)]
pub struct HealthResponse {
    pub protocol_version: u16,
    pub control_plane_up: bool,
    pub runtime_state: RuntimeOperationalState,
    pub command_ready: bool,
    pub bridge_healthy: bool,
    pub browser_backend_healthy: bool,
    pub browser_process_up: bool,
    pub page_attached: bool,
    pub renderer_attached: bool,
    pub dom_snapshot_available: bool,
    pub event_decoder_ok: bool,
    pub active_operation: Option<OperationSnapshot>,
    pub last_failure: Option<FailureSnapshot>,
}

/// The contents of a `HealthResponse`.
#[verifier::ext_equal]
pub struct HealthView {
    pub protocol_version: u16,
    pub control_plane_up: bool,
    pub runtime_state: RuntimeOperationalState,
    pub command_ready: bool,
    pub bridge_healthy: bool,
    pub browser_backend_healthy: bool,
    pub browser_process_up: bool,
    pub page_attached: bool,
    pub renderer_attached: bool,
    pub dom_snapshot_available: bool,
    pub event_decoder_ok: bool,
    pub active_operation: Option<OperationView>,
    pub last_failure: Option<FailureView>,
}

impl View for HealthResponse {
    type V = HealthView;

    open spec fn view(&self) -> HealthView {
        HealthView {
            protocol_version: self.protocol_version,
            control_plane_up: self.control_plane_up,
            runtime_state: self.runtime_state,
            command_ready: self.command_ready,
            bridge_healthy: self.bridge_healthy,
            browser_backend_healthy: self.browser_backend_healthy,
            browser_process_up: self.browser_process_up,
            page_attached: self.page_attached,
            renderer_attached: self.renderer_attached,
            dom_snapshot_available: self.dom_snapshot_available,
            event_decoder_ok: self.event_decoder_ok,
            active_operation: opt_operation(self.active_operation),
            last_failure: opt_failure(self.last_failure),
        }
    }
}

/// How a context is, in short, from its report.
pub open spec fn health_of(r: ReportView) -> HealthView {
    HealthView {
        protocol_version: PROTOCOL_VERSION,
        control_plane_up: true,
        runtime_state: r.state,
        command_ready: r.command_ready,
        bridge_healthy: r.bridge_healthy,
        browser_backend_healthy: r.browser_backend_healthy,
        browser_process_up: r.browser_process_up,
        page_attached: r.page_attached,
        renderer_attached: r.renderer_attached,
        dom_snapshot_available: r.dom_snapshot_available,
        event_decoder_ok: r.event_decoder_ok,
        active_operation: r.active_operation,
        last_failure: r.last_failure,
    }
}

/// How a context is, in short, from its report.
pub fn health(report: RuntimeDiagnosticsResponse) -> (res: HealthResponse)
    ensures
        res@ == health_of(report@),
{
    HealthResponse {
        protocol_version: PROTOCOL_VERSION,
        control_plane_up: true,
        runtime_state: report.state,
        command_ready: report.command_ready,
        bridge_healthy: report.bridge_healthy,
        browser_backend_healthy: report.browser_backend_healthy,
        browser_process_up: report.browser_process_up,
        page_attached: report.page_attached,
        renderer_attached: report.renderer_attached,
        dom_snapshot_available: report.dom_snapshot_available,
        event_decoder_ok: report.event_decoder_ok,
        active_operation: report.active_operation,
        last_failure: report.last_failure,
    }
}

/// The downloads of a context.
#[derive(Debug)]
pub struct DownloadsResponse {
    pub download_dir: Option<String>,
    pub downloads: Vec<DownloadState>,
}

/// The downloads of a context, from its report.
pub fn downloads_response(report: &RuntimeDiagnosticsResponse) -> (res: DownloadsResponse)
    ensures
        opt_text(res.download_dir) == report@.runtime.host.download_dir,
        downloads_view(res.downloads@) == report@.runtime.host.downloads,
{
    DownloadsResponse {
        download_dir: clone_opt(&report.runtime.host.download_dir),
        downloads: clone_downloads(&report.runtime.host.downloads),
    }
}

/// Which process a server is.
#[derive(Debug)]
pub struct RuntimeIdentity {
    pub process_id: u32,
    pub executable_path: Option<String>,
    pub started_at_ms: u64,
    pub uptime_ms: u64,
}

/// Which process a server is, and for how long it has run.
pub fn runtime_identity(
    process_id: u32,
    executable_path: Option<String>,
    started_at_ms: u64,
    now_ms: u64,
) -> (res: RuntimeIdentity)
    ensures
        res.process_id == process_id,
        res.executable_path == executable_path,
        res.started_at_ms == started_at_ms,
        res.uptime_ms == if now_ms >= started_at_ms {
            now_ms - started_at_ms
        } else {
            0
        },
{
    RuntimeIdentity {
        process_id,
        executable_path,
        started_at_ms,
        uptime_ms: if now_ms >= started_at_ms {
            now_ms - started_at_ms
        } else {
            0
        },
    }
}

/// An idle browser is looked after every ten milliseconds without a window and every two with one.
pub proof fn law_idle_intervals()
    ensures
        pump_interval(BrowserMode::Headless) == 10,
        pump_interval(BrowserMode::Headful) == 2,
{
}

/// Events are asked for as often as wanted, but at least every second and at most every 25
/// milliseconds; every 100 where nothing is wanted.
pub proof fn law_poll_intervals(asked: Option<u64>)
    ensures
        asked is None ==> poll_interval(asked) == 100,
        asked is Some && 25 <= asked->Some_0 <= 1_000 ==> poll_interval(asked) == asked->Some_0,
        asked is Some && asked->Some_0 < 25 ==> poll_interval(asked) == 25,
        asked is Some && asked->Some_0 > 1_000 ==> poll_interval(asked) == 1_000,
{
}

/// A window of events is sent on exactly when it holds events or reports a gap; else the wait goes
/// on from the latest number. Everything else ends the stream with its reason.
pub proof fn law_windows_are_sent_on(poll: PollView)
    ensures
        poll matches PollView::Window(w) ==> (w.events.len() > 0 || w.gap_detected ==> push_after(
            poll,
        ) == PushView::Send(w)) && (w.events.len() == 0 && !w.gap_detected ==> push_after(poll)
            == PushView::Wait(w.latest_sequence)),
        poll is Closed ==> push_after(poll) == PushView::End("runtime event channel closed"@),
        poll matches PollView::Failed(e) ==> push_after(poll) == PushView::End(error_text(e)),
        poll is Cancelled ==> push_after(poll) == PushView::End("runtime event stream cancelled"@),
        poll is TimedOut ==> push_after(poll) == PushView::End("runtime event stream timed out"@),
{
}

/// The health answer tells what the report tells, part by part.
pub proof fn law_health_tells_the_report(r: ReportView)
    ensures
        ({
            let h = health_of(r);
            &&& h.protocol_version == PROTOCOL_VERSION && h.control_plane_up
            &&& h.runtime_state == r.state && h.command_ready == r.command_ready
            &&& h.bridge_healthy == r.bridge_healthy
            &&& h.browser_backend_healthy == r.browser_backend_healthy
            &&& h.browser_process_up == r.browser_process_up
            &&& h.page_attached == r.page_attached && h.renderer_attached == r.renderer_attached
            &&& h.dom_snapshot_available == r.dom_snapshot_available
            &&& h.event_decoder_ok == r.event_decoder_ok
            &&& h.active_operation == r.active_operation && h.last_failure == r.last_failure
        }),
{
}

} // verus!

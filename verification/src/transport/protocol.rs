//! Frames and messages.

use vstd::prelude::*;
use vstd::slice::slice_subrange;
use vstd::utf8::encode_utf8;

use crate::browser::{BrowserConfig, ConfigView};
use crate::commands::command::{results_view, CommandResult};
use crate::commands::encoder::{signed_json, signed_value};
use crate::dom::node::DomSnapshot;
use crate::events::stream::{RuntimeEvent, SequencedView};
use crate::json::{
    add_member, add_some, add_value, json_ok, lemma_ordinary_name, lemma_plain, members_map, one_member, opt_json, ordinary_name,
    out_members_view, out_reads_back, parsed_json_bytes, plain, plain_members, reads_back, record, some_member, start_record,
    write_out, written_out, JsonOut, JsonValue, JsonView, OutView,
};
use crate::session::cookies::{SessionState, SessionView};
use crate::text::{clone_opt, clone_texts, concat2, decimal, decimal_text, opt_text, texts};
use crate::transport::bridge::{
    envelopes_view, opt_snapshot, AegisError, BatchRequest, BatchRequestView, BatchResponseView,
    BridgeEventEnvelope, ErrorView,
};

verus! {

/// The version of the protocol.
pub const PROTOCOL_VERSION: u16 = 1;

/// The length of a frame's header: magic, version, kind and length of the body.
pub const HEADER_LEN: usize = 16;

/// The first bytes of every frame.
pub open spec fn magic() -> Seq<u8> {
    seq![65u8, 69u8, 71u8, 83u8]
}

/// The kinds of messages.
#[derive(Debug, Clone, Copy, PartialEq, Eq, Structural)]
pub enum MessageKind {
    EnsureRuntime,
    EvalJs,
    SendBatch,
    SnapshotDom,
    InjectSession,
    SnapshotSession,
    DrainEvents,
    Navigate,
    SnapshotHostState,
    ActivateBrowser,
}

/// The number of a kind.
pub open spec fn kind_code(kind: MessageKind) -> u16 {
    match kind {
        MessageKind::EnsureRuntime => 1,
        MessageKind::EvalJs => 2,
        MessageKind::SendBatch => 3,
        MessageKind::SnapshotDom => 4,
        MessageKind::InjectSession => 5,
        MessageKind::SnapshotSession => 6,
        MessageKind::DrainEvents => 7,
        MessageKind::Navigate => 8,
        MessageKind::SnapshotHostState => 9,
        MessageKind::ActivateBrowser => 10,
    }
}

/// The name of a kind.
pub open spec fn kind_name(kind: MessageKind) -> Seq<char> {
    match kind {
        MessageKind::EnsureRuntime => "EnsureRuntime"@,
        MessageKind::EvalJs => "EvalJs"@,
        MessageKind::SendBatch => "SendBatch"@,
        MessageKind::SnapshotDom => "SnapshotDom"@,
        MessageKind::InjectSession => "InjectSession"@,
        MessageKind::SnapshotSession => "SnapshotSession"@,
        MessageKind::DrainEvents => "DrainEvents"@,
        MessageKind::Navigate => "Navigate"@,
        MessageKind::SnapshotHostState => "SnapshotHostState"@,
        MessageKind::ActivateBrowser => "ActivateBrowser"@,
    }
}

impl MessageKind {
    /// The number of a kind.
    pub fn code(self) -> (res: u16)
        ensures
            res == kind_code(self),
    {
        match self {
            MessageKind::EnsureRuntime => 1,
            MessageKind::EvalJs => 2,
            MessageKind::SendBatch => 3,
            MessageKind::SnapshotDom => 4,
            MessageKind::InjectSession => 5,
            MessageKind::SnapshotSession => 6,
            MessageKind::DrainEvents => 7,
            MessageKind::Navigate => 8,
            MessageKind::SnapshotHostState => 9,
            MessageKind::ActivateBrowser => 10,
        }
    }

    /// The name of a kind.
    pub fn name(self) -> (res: &'static str)
        ensures
            res@ == kind_name(self),
    {
        match self {
            MessageKind::EnsureRuntime => "EnsureRuntime",
            MessageKind::EvalJs => "EvalJs",
            MessageKind::SendBatch => "SendBatch",
            MessageKind::SnapshotDom => "SnapshotDom",
            MessageKind::InjectSession => "InjectSession",
            MessageKind::SnapshotSession => "SnapshotSession",
            MessageKind::DrainEvents => "DrainEvents",
            MessageKind::Navigate => "Navigate",
            MessageKind::SnapshotHostState => "SnapshotHostState",
            MessageKind::ActivateBrowser => "ActivateBrowser",
        }
    }
}

/// A message with its kind.
#[derive(Debug, Clone, PartialEq, Eq)]
pub struct MessageEnvelope<T> {
    pub kind: MessageKind,
    pub payload: T,
}

/// Asks the host to run a script.
#[derive(Debug, Clone, PartialEq, Eq)]
pub struct EvalJsRequest {
    pub script: String,
}

/// What a script returned, as bytes.
#[derive(Debug, Clone, PartialEq, Eq)]
pub struct EvalJsResponse {
    pub value: Vec<u8>,
}

/// Asks the host to load a page.
#[derive(Debug, Clone, PartialEq, Eq)]
pub struct NavigateRequest {
    pub url: String,
    pub capture_network_events: bool,
}

/// Asks the host for the events since the last call.
#[derive(Debug, Clone, PartialEq, Eq)]
pub struct DrainEventsRequest {
    pub enable_network_capture: bool,
}

/// Asks the host to bring a browser to the front.
#[derive(Debug, Clone, PartialEq, Eq)]
pub struct ActivateBrowserRequest {
    pub browser_id: i32,
}

/// What loading a page came to.
#[derive(Debug, PartialEq, Eq)]
pub struct NavigateResponse {
    pub url: String,
    pub snapshot: Option<DomSnapshot>,
    pub events: Vec<BridgeEventEnvelope>,
}

/// What a batch came to.
#[derive(Debug, PartialEq, Eq)]
pub struct BatchWireResponse {
    pub batch_id: u64,
    pub results: Vec<CommandResult>,
    pub snapshot: Option<DomSnapshot>,
    pub events: Vec<BridgeEventEnvelope>,
}

/// The events since the last call.
#[derive(Debug, PartialEq, Eq)]
pub struct EventsResponse {
    pub events: Vec<BridgeEventEnvelope>,
}

/// A download that the host knows of.
#[derive(Debug, PartialEq, Eq)]
pub struct DownloadState {
    pub id: u32,
    pub url: Option<String>,
    pub suggested_name: Option<String>,
    pub target_path: Option<String>,
    pub mime_type: Option<String>,
    pub state: String,
    pub received_bytes: i64,
    pub total_bytes: Option<i64>,
    pub percent_complete: Option<i32>,
    pub interrupt_reason: Option<String>,
    pub complete: bool,
    pub canceled: bool,
}

/// What the host says of itself.
#[derive(Debug, PartialEq, Eq)]
pub struct HostRuntimeState {
    pub startup_complete: bool,
    pub browser_available: bool,
    pub active_context_id: Option<String>,
    pub active_browser_id: Option<i32>,
    pub context_id: Option<String>,
    pub browser_id: Option<i32>,
    pub request_context_available: bool,
    pub attached_browser_ids: Vec<i32>,
    pub known_context_ids: Vec<String>,
    pub page_ready: bool,
    pub renderer_ready: bool,
    pub runtime_installed: bool,
    pub runtime_ready: bool,
    pub load_in_progress: bool,
    pub browser_closed: bool,
    pub cancel_requested: bool,
    pub current_url: Option<String>,
    pub download_dir: Option<String>,
    pub downloads: Vec<DownloadState>,
    pub active_operation: Option<String>,
    pub active_stage: Option<String>,
}

/// The contents of a `DownloadState`.
#[verifier::ext_equal]
pub struct DownloadView {
    pub id: u32,
    pub url: Option<Seq<char>>,
    pub suggested_name: Option<Seq<char>>,
    pub target_path: Option<Seq<char>>,
    pub mime_type: Option<Seq<char>>,
    pub state: Seq<char>,
    pub received_bytes: i64,
    pub total_bytes: Option<i64>,
    pub percent_complete: Option<i32>,
    pub interrupt_reason: Option<Seq<char>>,
    pub complete: bool,
    pub canceled: bool,
}

impl View for DownloadState {
    type V = DownloadView;

    open spec fn view(&self) -> DownloadView {
        DownloadView {
            id: self.id,
            url: opt_text(self.url),
            suggested_name: opt_text(self.suggested_name),
            target_path: opt_text(self.target_path),
            mime_type: opt_text(self.mime_type),
            state: self.state@,
            received_bytes: self.received_bytes,
            total_bytes: self.total_bytes,
            percent_complete: self.percent_complete,
            interrupt_reason: opt_text(self.interrupt_reason),
            complete: self.complete,
            canceled: self.canceled,
        }
    }
}

impl Clone for DownloadState {
    fn clone(&self) -> (res: Self)
        ensures
            res@ == self@,
    {
        DownloadState {
            id: self.id,
            url: clone_opt(&self.url),
            suggested_name: clone_opt(&self.suggested_name),
            target_path: clone_opt(&self.target_path),
            mime_type: clone_opt(&self.mime_type),
            state: self.state.clone(),
            received_bytes: self.received_bytes,
            total_bytes: self.total_bytes,
            percent_complete: self.percent_complete,
            interrupt_reason: clone_opt(&self.interrupt_reason),
            complete: self.complete,
            canceled: self.canceled,
        }
    }
}

/// The contents of a list of downloads.
pub open spec fn downloads_view(list: Seq<DownloadState>) -> Seq<DownloadView> {
    Seq::new(list.len(), |i: int| list[i]@)
}

/// A copy of a list of downloads.
pub fn clone_downloads(list: &Vec<DownloadState>) -> (res: Vec<DownloadState>)
    ensures
        downloads_view(res@) == downloads_view(list@),
{
    let mut out: Vec<DownloadState> = Vec::new();
    let mut i: usize = 0;
    while i < list.len()
        invariant
            i <= list@.len(),
            out@.len() == i,
            forall|j: int| 0 <= j < i ==> (#[trigger] out@[j])@ == list@[j]@,
        decreases list@.len() - i,
    {
        out.push(list[i].clone());
        i += 1;
    }
    assert(downloads_view(out@) =~= downloads_view(list@));
    out
}

fn clone_browser_ids(list: &Vec<i32>) -> (res: Vec<i32>)
    ensures
        res@ == list@,
{
    let mut out: Vec<i32> = Vec::new();
    let mut i: usize = 0;
    while i < list.len()
        invariant
            i <= list@.len(),
            out@ == list@.take(i as int),
        decreases list@.len() - i,
    {
        out.push(list[i]);
        i += 1;
    }
    assert(list@.take(i as int) =~= list@);
    out
}

/// The contents of a `HostRuntimeState`.
#[verifier::ext_equal]
pub struct HostView {
    pub startup_complete: bool,
    pub browser_available: bool,
    pub active_context_id: Option<Seq<char>>,
    pub active_browser_id: Option<i32>,
    pub context_id: Option<Seq<char>>,
    pub browser_id: Option<i32>,
    pub request_context_available: bool,
    pub attached_browser_ids: Seq<i32>,
    pub known_context_ids: Seq<Seq<char>>,
    pub page_ready: bool,
    pub renderer_ready: bool,
    pub runtime_installed: bool,
    pub runtime_ready: bool,
    pub load_in_progress: bool,
    pub browser_closed: bool,
    pub cancel_requested: bool,
    pub current_url: Option<Seq<char>>,
    pub download_dir: Option<Seq<char>>,
    pub downloads: Seq<DownloadView>,
    pub active_operation: Option<Seq<char>>,
    pub active_stage: Option<Seq<char>>,
}

impl View for HostRuntimeState {
    type V = HostView;

    open spec fn view(&self) -> HostView {
        HostView {
            startup_complete: self.startup_complete,
            browser_available: self.browser_available,
            active_context_id: opt_text(self.active_context_id),
            active_browser_id: self.active_browser_id,
            context_id: opt_text(self.context_id),
            browser_id: self.browser_id,
            request_context_available: self.request_context_available,
            attached_browser_ids: self.attached_browser_ids@,
            known_context_ids: texts(self.known_context_ids@),
            page_ready: self.page_ready,
            renderer_ready: self.renderer_ready,
            runtime_installed: self.runtime_installed,
            runtime_ready: self.runtime_ready,
            load_in_progress: self.load_in_progress,
            browser_closed: self.browser_closed,
            cancel_requested: self.cancel_requested,
            current_url: opt_text(self.current_url),
            download_dir: opt_text(self.download_dir),
            downloads: downloads_view(self.downloads@),
            active_operation: opt_text(self.active_operation),
            active_stage: opt_text(self.active_stage),
        }
    }
}

impl Clone for HostRuntimeState {
    fn clone(&self) -> (res: Self)
        ensures
            res@ == self@,
    {
        HostRuntimeState {
            startup_complete: self.startup_complete,
            browser_available: self.browser_available,
            active_context_id: clone_opt(&self.active_context_id),
            active_browser_id: self.active_browser_id,
            context_id: clone_opt(&self.context_id),
            browser_id: self.browser_id,
            request_context_available: self.request_context_available,
            attached_browser_ids: clone_browser_ids(&self.attached_browser_ids),
            known_context_ids: clone_texts(&self.known_context_ids),
            page_ready: self.page_ready,
            renderer_ready: self.renderer_ready,
            runtime_installed: self.runtime_installed,
            runtime_ready: self.runtime_ready,
            load_in_progress: self.load_in_progress,
            browser_closed: self.browser_closed,
            cancel_requested: self.cancel_requested,
            current_url: clone_opt(&self.current_url),
            download_dir: clone_opt(&self.download_dir),
            downloads: clone_downloads(&self.downloads),
            active_operation: clone_opt(&self.active_operation),
            active_stage: clone_opt(&self.active_stage),
        }
    }
}

/// The state of a host that has said nothing yet.
pub open spec fn unknown_host() -> HostView {
    HostView {
        startup_complete: false,
        browser_available: false,
        active_context_id: None,
        active_browser_id: None,
        context_id: None,
        browser_id: None,
        request_context_available: false,
        attached_browser_ids: Seq::empty(),
        known_context_ids: Seq::empty(),
        page_ready: false,
        renderer_ready: false,
        runtime_installed: false,
        runtime_ready: false,
        load_in_progress: false,
        browser_closed: false,
        cancel_requested: false,
        current_url: None,
        download_dir: None,
        downloads: Seq::empty(),
        active_operation: None,
        active_stage: None,
    }
}

impl Default for HostRuntimeState {
    fn default() -> (res: Self)
        ensures
            res@ == unknown_host(),
    {
        let ids: Vec<i32> = Vec::new();
        let contexts: Vec<String> = Vec::new();
        let downloads: Vec<DownloadState> = Vec::new();
        assert(ids@ =~= Seq::<i32>::empty());
        assert(texts(contexts@) =~= Seq::<Seq<char>>::empty());
        assert(downloads_view(downloads@) =~= Seq::<DownloadView>::empty());
        HostRuntimeState {
            startup_complete: false,
            browser_available: false,
            active_context_id: None,
            active_browser_id: None,
            context_id: None,
            browser_id: None,
            request_context_available: false,
            attached_browser_ids: ids,
            known_context_ids: contexts,
            page_ready: false,
            renderer_ready: false,
            runtime_installed: false,
            runtime_ready: false,
            load_in_progress: false,
            browser_closed: false,
            cancel_requested: false,
            current_url: None,
            download_dir: None,
            downloads,
            active_operation: None,
            active_stage: None,
        }
    }
}

/// The `count` low bytes of a number, lowest first.
pub open spec fn le_bytes(n: nat, count: nat) -> Seq<u8>
    decreases count,
{
    if count == 0 {
        Seq::empty()
    } else {
        seq![(n % 256) as u8] + le_bytes(n / 256, (count - 1) as nat)
    }
}

/// The number whose bytes these are, lowest first.
pub open spec fn le_value(bytes: Seq<u8>) -> nat
    decreases bytes.len(),
{
    if bytes.len() == 0 {
        0
    } else {
        bytes[0] as nat + 256 * le_value(bytes.drop_first())
    }
}

/// The number of values that `count` bytes can hold.
pub open spec fn byte_range(count: nat) -> nat
    decreases count,
{
    if count == 0 {
        1
    } else {
        256 * byte_range((count - 1) as nat)
    }
}

proof fn lemma_le_round_trip(n: nat, count: nat)
    requires
        n < byte_range(count),
    ensures
        le_value(le_bytes(n, count)) == n,
        le_bytes(n, count).len() == count,
    decreases count,
{
    if count > 0 {
        lemma_le_round_trip(n / 256, (count - 1) as nat);
        let all = le_bytes(n, count);
        assert(all.drop_first() =~= le_bytes(n / 256, (count - 1) as nat));
        assert(all[0] == (n % 256) as u8);
    }
}

proof fn lemma_le_value_bound(bytes: Seq<u8>)
    ensures
        le_value(bytes) < byte_range(bytes.len()),
    decreases bytes.len(),
{
    if bytes.len() > 0 {
        lemma_le_value_bound(bytes.drop_first());
    }
}

proof fn lemma_byte_range()
    ensures
        byte_range(2) == 0x10000,
        byte_range(8) == 0x1_0000_0000_0000_0000,
{
    reveal_with_fuel(byte_range, 9);
}

proof fn lemma_byte_range_monotone(a: nat, b: nat)
    requires
        a <= b,
    ensures
        byte_range(a) <= byte_range(b),
        byte_range(a) >= 1,
    decreases b,
{
    if a < b {
        lemma_byte_range_monotone(a, (b - 1) as nat);
    } else if a > 0 {
        lemma_byte_range_monotone((a - 1) as nat, (b - 1) as nat);
    }
}

fn push_le(out: &mut Vec<u8>, n: u64, count: usize)
    ensures
        final(out)@ == old(out)@ + le_bytes(n as nat, count as nat),
{
    let ghost start = out@;
    let mut rest: u64 = n;
    let mut i: usize = 0;
    assert(start + le_bytes(n as nat, count as nat) =~= out@ + le_bytes(
        rest as nat,
        count as nat,
    ));
    while i < count
        invariant
            i <= count,
            start + le_bytes(n as nat, count as nat) == out@ + le_bytes(
                rest as nat,
                (count - i) as nat,
            ),
        decreases count - i,
    {
        let ghost before = out@;
        let ghost left = (count - i) as nat;
        out.push((rest % 256) as u8);
        proof {
            let tail = le_bytes(rest as nat / 256, (left - 1) as nat);
            assert(before + le_bytes(rest as nat, left) =~= out@ + tail);
        }
        rest = rest / 256;
        i += 1;
    }
    assert(out@ + le_bytes(rest as nat, 0) =~= out@);
}

fn read_le(bytes: &[u8], from: usize, to: usize) -> (res: u64)
    requires
        from <= to <= bytes@.len(),
        to - from <= 8,
    ensures
        res == le_value(bytes@.subrange(from as int, to as int)),
{
    let mut value: u64 = 0;
    let mut i: usize = to;
    assert(bytes@.subrange(to as int, to as int) =~= Seq::empty());
    while i > from
        invariant
            from <= i <= to <= bytes@.len(),
            to - from <= 8,
            value == le_value(bytes@.subrange(i as int, to as int)),
        decreases i,
    {
        i -= 1;
        proof {
            let part = bytes@.subrange(i as int, to as int);
            assert(part.drop_first() =~= bytes@.subrange(i + 1, to as int));
            lemma_le_value_bound(part);
            lemma_byte_range_monotone(part.len(), 8);
            lemma_byte_range();
        }
        value = value * 256 + bytes[i] as u64;
    }
    value
}

/// A frame: magic, version, kind, length of the body, body.
pub open spec fn frame(code: u16, body: Seq<u8>) -> Seq<u8> {
    magic() + le_bytes(PROTOCOL_VERSION as nat, 2) + le_bytes(code as nat, 2) + le_bytes(
        body.len(),
        8,
    ) + body
}

/// The body of a frame of the expected kind. Otherwise what is wrong with it: it is shorter
/// than a header, does not begin with the magic bytes, is of another version, has not the
/// length that it states, or is of another kind; the first of these that holds.
pub open spec fn frame_body(expected: u16, bytes: Seq<u8>) -> Result<Seq<u8>, ErrorView> {
    if bytes.len() < HEADER_LEN {
        Err(ErrorView::Protocol("frame too short"@))
    } else if bytes.take(4) != magic() {
        Err(ErrorView::Protocol("bad magic"@))
    } else if le_value(bytes.subrange(4, 6)) != PROTOCOL_VERSION {
        Err(
            ErrorView::Protocol(
                "unsupported protocol version "@ + decimal_text(le_value(bytes.subrange(4, 6))),
            ),
        )
    } else if bytes.len() != HEADER_LEN + le_value(bytes.subrange(8, 16)) {
        Err(ErrorView::Protocol("frame length mismatch"@))
    } else if le_value(bytes.subrange(6, 8)) != expected {
        Err(
            ErrorView::Protocol(
                "unexpected message kind "@ + decimal_text(le_value(bytes.subrange(6, 8)))
                    + ", expected "@ + decimal_text(expected as nat),
            ),
        )
    } else {
        Ok(bytes.skip(16))
    }
}

/// A frame around a body.
pub fn encode_frame(kind: MessageKind, body: &[u8]) -> (res: Vec<u8>)
    ensures
        res@ == frame(kind_code(kind), body@),
        frame_body(kind_code(kind), res@) == Ok::<Seq<u8>, ErrorView>(body@),
{
    let mut out: Vec<u8> = Vec::new();
    out.push(65);
    out.push(69);
    out.push(71);
    out.push(83);
    assert(out@ =~= magic());
    push_le(&mut out, PROTOCOL_VERSION as u64, 2);
    push_le(&mut out, kind.code() as u64, 2);
    push_le(&mut out, body.len() as u64, 8);
    let ghost header = out@;
    let mut i: usize = 0;
    assert(body@.take(0) =~= Seq::empty());
    while i < body.len()
        invariant
            i <= body@.len(),
            out@ == header + body@.take(i as int),
        decreases body@.len() - i,
    {
        out.push(body[i]);
        assert(body@.take(i + 1) =~= body@.take(i as int).push(body@[i as int]));
        assert(header + body@.take(i + 1) =~= (header + body@.take(i as int)).push(
            body@[i as int],
        ));
        i += 1;
    }
    assert(body@.take(i as int) =~= body@);
    proof {
        law_frame_round_trip(kind, body@);
    }
    out
}

/// The outcome of opening a frame.
pub open spec fn body_result(res: Result<&[u8], AegisError>) -> Result<Seq<u8>, ErrorView> {
    match res {
        Ok(body) => Ok(body@),
        Err(e) => Err(e@),
    }
}

/// The body of a frame of the expected kind, or what is wrong with the frame.
pub fn decode_frame<'a>(expected_kind: MessageKind, bytes: &'a [u8]) -> (res: Result<
    &'a [u8],
    AegisError,
>)
    ensures
        body_result(res) == frame_body(kind_code(expected_kind), bytes@),
{
    if bytes.len() < HEADER_LEN {
        return Err(AegisError::Protocol("frame too short".to_owned()));
    }
    let starts_well = bytes[0] == 65 && bytes[1] == 69 && bytes[2] == 71 && bytes[3] == 83;
    assert(starts_well == (bytes@.take(4) == magic())) by {
        if starts_well {
            assert(bytes@.take(4) =~= magic());
        } else {
            assert(bytes@.take(4)[0] == bytes@[0] && bytes@.take(4)[1] == bytes@[1]
                && bytes@.take(4)[2] == bytes@[2] && bytes@.take(4)[3] == bytes@[3]);
            assert(magic()[0] == 65 && magic()[1] == 69 && magic()[2] == 71 && magic()[3] == 83);
        }
    }
    if !starts_well {
        return Err(AegisError::Protocol("bad magic".to_owned()));
    }
    let version: u64 = read_le(bytes, 4, 6);
    if version != PROTOCOL_VERSION as u64 {
        let digits = decimal(version);
        return Err(
            AegisError::Protocol(concat2("unsupported protocol version ", digits.as_str())),
        );
    }
    let kind: u64 = read_le(bytes, 6, 8);
    let length: u64 = read_le(bytes, 8, 16);
    if (bytes.len() - HEADER_LEN) as u64 != length {
        return Err(AegisError::Protocol("frame length mismatch".to_owned()));
    }
    if kind != expected_kind.code() as u64 {
        let found = decimal(kind);
        let wanted = decimal(expected_kind.code() as u64);
        let mut message = concat2("unexpected message kind ", found.as_str());
        message.append(", expected ");
        message.append(wanted.as_str());
        return Err(AegisError::Protocol(message));
    }
    let body = slice_subrange(bytes, HEADER_LEN, bytes.len());
    assert(body@ =~= bytes@.skip(16));
    Ok(body)
}

/// Opening a frame gives back the body that was put in.
pub proof fn law_frame_round_trip(kind: MessageKind, body: Seq<u8>)
    requires
        body.len() <= u64::MAX,
    ensures
        frame_body(kind_code(kind), frame(kind_code(kind), body)) == Ok::<Seq<u8>, ErrorView>(body),
{
    lemma_byte_range();
    let code = kind_code(kind);
    let bytes = frame(code, body);
    lemma_le_round_trip(PROTOCOL_VERSION as nat, 2);
    lemma_le_round_trip(code as nat, 2);
    lemma_le_round_trip(body.len(), 8);
    assert(bytes.take(4) =~= magic());
    assert(bytes.subrange(4, 6) =~= le_bytes(PROTOCOL_VERSION as nat, 2));
    assert(bytes.subrange(6, 8) =~= le_bytes(code as nat, 2));
    assert(bytes.subrange(8, 16) =~= le_bytes(body.len(), 8));
    assert(bytes.skip(16) =~= body);
}

/// A frame of one kind is not taken for a frame of another.
pub proof fn law_frame_kind_checked(kind: MessageKind, expected: MessageKind, body: Seq<u8>)
    requires
        body.len() <= u64::MAX,
        kind != expected,
    ensures
        frame_body(kind_code(expected), frame(kind_code(kind), body)) is Err,
{
    law_frame_round_trip(kind, body);
}

/// The object around the payload of a message.
pub open spec fn envelope_json(kind: MessageKind, payload: JsonView) -> JsonView {
    JsonView::Object(
        Map::empty().insert("kind"@, JsonView::Text(kind_name(kind))).insert("payload"@, payload),
    )
}

/// The record around the payload of a message.
pub open spec fn envelope_record(kind: MessageKind, payload: OutView) -> OutView {
    OutView::Record(
        seq![("kind"@, OutView::Value(JsonView::Text(kind_name(kind)))), ("payload"@, payload)],
    )
}

/// The body of a message.
pub open spec fn message_body(kind: MessageKind, payload: OutView) -> Seq<u8> {
    encode_utf8(written_out(envelope_record(kind, payload)))
}

/// The bytes of a message.
pub open spec fn message_bytes(kind: MessageKind, payload: OutView) -> Seq<u8> {
    frame(kind_code(kind), message_body(kind, payload))
}

/// What an envelope that was read, or the message of the error that its reader gave, comes to
/// where a message of a kind is expected.
pub open spec fn opened<T>(
    expected: MessageKind,
    read: Result<MessageEnvelope<T>, String>,
    res: Result<T, AegisError>,
) -> bool {
    match read {
        Err(m) => res matches Err(e) && e@ == ErrorView::Protocol(m@),
        Ok(envelope) => if envelope.kind != expected {
            res matches Err(e) && e@ == ErrorView::Protocol("envelope kind mismatch"@)
        } else {
            res == Ok::<T, AegisError>(envelope.payload)
        },
    }
}

/// What decoding bytes comes to where `read` reads envelopes: what is wrong with the frame, or
/// what the envelope read from its body comes to.
pub open spec fn decodes<T, F: Fn(&[u8]) -> Result<MessageEnvelope<T>, String>>(
    expected: MessageKind,
    bytes: Seq<u8>,
    read: F,
    res: Result<T, AegisError>,
) -> bool {
    match frame_body(kind_code(expected), bytes) {
        Err(e) => res matches Err(x) && x@ == e,
        Ok(body) => exists|b: &[u8], r: Result<MessageEnvelope<T>, String>|
            b@ == body && #[trigger] read.ensures((b,), r) && opened(expected, r, res),
    }
}

/// The bytes of a message: its frame opens, and a payload that the JSON reader reads back is
/// read back from its body.
pub fn encode_message(kind: MessageKind, payload: JsonOut) -> (res: Vec<u8>)
    ensures
        res@ == message_bytes(kind, payload@),
        frame_body(kind_code(kind), res@) == Ok::<Seq<u8>, ErrorView>(message_body(kind, payload@)),
        out_reads_back(payload@, 126) ==> parsed_json_bytes(message_body(kind, payload@))
            == json_ok(envelope_json(kind, plain(payload@))),
{
    let ghost sent = payload@;
    let mut members = start_record();
    add_member(&mut members, "kind", JsonOut::Value(JsonValue::text(kind.name())));
    add_member(&mut members, "payload", payload);
    let envelope = record(members);
    assert(envelope@->Record_0 =~= envelope_record(kind, sent)->Record_0);
    let text = write_out(&envelope);
    let body = text.as_str().as_bytes();
    let res = encode_frame(kind, body);
    proof {
        if out_reads_back(sent, 126) {
            lemma_envelope_reads_back(kind, sent);
            lemma_envelope_plain(kind, sent);
        }
    }
    res
}

proof fn lemma_envelope_reads_back(kind: MessageKind, payload: OutView)
    requires
        out_reads_back(payload, 126),
    ensures
        out_reads_back(envelope_record(kind, payload), 127),
{
    reveal_strlit("kind");
    reveal_strlit("payload");
    assert("kind"@[0] == 'k');
    assert("payload"@[0] == 'p');
    lemma_ordinary_name("kind"@);
    lemma_ordinary_name("payload"@);
    let members = envelope_record(kind, payload)->Record_0;
    let name = JsonView::Text(kind_name(kind));
    assert(reads_back(name, 126));
    assert(out_reads_back(OutView::Value(name), 126));
    assert forall|i: int| 0 <= i < members.len() implies ordinary_name(
        (#[trigger] members[i]).0,
    ) && out_reads_back(members[i].1, 126) by {
        assert(i == 0 || i == 1);
    }
}

proof fn lemma_envelope_plain(kind: MessageKind, payload: OutView)
    ensures
        plain(envelope_record(kind, payload)) == envelope_json(kind, plain(payload)),
{
    let members = envelope_record(kind, payload)->Record_0;
    let pairs = plain_members(members);
    let name = JsonView::Text(kind_name(kind));
    lemma_plain(envelope_record(kind, payload));
    lemma_plain(OutView::Value(name));
    let first = pairs.drop_last();
    assert(first.drop_last() =~= Seq::empty());
    assert(first.last() == ("kind"@, name));
    assert(pairs.last() == ("payload"@, plain(payload)));
    assert(members_map(first.drop_last()) =~= Map::<Seq<char>, JsonView>::empty());
    assert(members_map(first) == members_map(first.drop_last()).insert("kind"@, name));
}

/// The payload of a message of the expected kind, or what is wrong with the message: its frame,
/// what the reader of envelopes says of the body, or the kind that the envelope states.
pub fn decode_message<T, F: Fn(&[u8]) -> Result<MessageEnvelope<T>, String>>(
    expected_kind: MessageKind,
    bytes: &[u8],
    read: F,
) -> (res: Result<T, AegisError>)
    requires
        forall|body: &[u8]| #[trigger] read.requires((body,)),
    ensures
        decodes(expected_kind, bytes@, read, res),
{
    let body = match decode_frame(expected_kind, bytes) {
        Ok(b) => b,
        Err(e) => {
            return Err(e);
        },
    };
    match read(body) {
        Ok(envelope) => if envelope.kind != expected_kind {
            Err(AegisError::Protocol("envelope kind mismatch".to_owned()))
        } else {
            Ok(envelope.payload)
        },
        Err(m) => Err(AegisError::Protocol(m)),
    }
}

/// Decoding a message gives what the reader makes of the payload that was put in, where the
/// payload is read back as it was written.
pub proof fn law_message_round_trip<T, F: Fn(&[u8]) -> Result<MessageEnvelope<T>, String>>(
    kind: MessageKind,
    payload: OutView,
    read: F,
    value: T,
    res: Result<T, AegisError>,
)
    requires
        message_body(kind, payload).len() <= u64::MAX,
        parsed_json_bytes(message_body(kind, payload)) == json_ok(
            envelope_json(kind, plain(payload)),
        ),
        forall|b: &[u8], r: Result<MessageEnvelope<T>, String>| #[trigger]
            read.ensures((b,), r) && parsed_json_bytes(b@) == json_ok(
                envelope_json(kind, plain(payload)),
            ) ==> r == Ok::<MessageEnvelope<T>, String>(MessageEnvelope { kind, payload: value }),
        decodes(kind, message_bytes(kind, payload), read, res),
    ensures
        res == Ok::<T, AegisError>(value),
{
    law_frame_round_trip(kind, message_body(kind, payload));
}

/// An envelope of another kind than its frame is refused.
pub proof fn law_envelope_kind_checked<T>(
    expected: MessageKind,
    envelope: MessageEnvelope<T>,
    res: Result<T, AegisError>,
)
    requires
        envelope.kind != expected,
        opened(expected, Ok::<MessageEnvelope<T>, String>(envelope), res),
    ensures
        res is Err,
{
}

impl EvalJsRequest {
    /// The payload that asks for a script to be run.
    pub fn to_out(&self) -> (res: JsonOut)
        ensures
            res@ == OutView::Record(one_member("script"@, JsonView::Text(self.script@))),
    {
        let mut members = start_record();
        add_value(&mut members, "script", JsonValue::text(self.script.as_str()));
        assert(out_members_view(members@) =~= one_member(
            "script"@,
            JsonView::Text(self.script@),
        ));
        record(members)
    }
}

/// A flag, where it is set.
pub open spec fn set_flag(flag: bool) -> Option<JsonView> {
    if flag {
        Some(JsonView::Bool(true))
    } else {
        None
    }
}

fn flag_value(flag: bool) -> (res: Option<JsonValue>)
    ensures
        opt_json(res) == set_flag(flag),
{
    if flag {
        Some(JsonValue::Bool(true))
    } else {
        None
    }
}

impl NavigateRequest {
    /// The payload that asks for a page to be loaded.
    pub fn to_out(&self) -> (res: JsonOut)
        ensures
            res@ == OutView::Record(
                one_member("url"@, JsonView::Text(self.url@)) + some_member(
                    "capture_network_events"@,
                    set_flag(self.capture_network_events),
                ),
            ),
    {
        let mut members = start_record();
        add_value(&mut members, "url", JsonValue::text(self.url.as_str()));
        assert(out_members_view(members@) =~= one_member("url"@, JsonView::Text(self.url@)));
        add_some(
            &mut members,
            "capture_network_events",
            flag_value(self.capture_network_events),
        );
        record(members)
    }
}

impl DrainEventsRequest {
    /// The payload that asks for events.
    pub fn to_out(&self) -> (res: JsonOut)
        ensures
            res@ == OutView::Record(
                some_member("enable_network_capture"@, set_flag(self.enable_network_capture)),
            ),
    {
        let mut members = start_record();
        add_some(
            &mut members,
            "enable_network_capture",
            flag_value(self.enable_network_capture),
        );
        assert(out_members_view(members@) =~= some_member(
            "enable_network_capture"@,
            set_flag(self.enable_network_capture),
        ));
        record(members)
    }
}

impl ActivateBrowserRequest {
    /// The payload that asks for a browser to be brought to the front.
    pub fn to_out(&self) -> (res: JsonOut)
        ensures
            res@ == OutView::Record(one_member("browser_id"@, signed_json(self.browser_id as i64))),
    {
        let mut members = start_record();
        add_value(&mut members, "browser_id", signed_value(self.browser_id as i64));
        assert(out_members_view(members@) =~= one_member(
            "browser_id"@,
            signed_json(self.browser_id as i64),
        ));
        record(members)
    }
}

/// An event of a recorded batch.
#[derive(Debug, PartialEq, Eq)]
pub struct TraceEventRecord {
    pub sequence: u64,
    pub timestamp_ms: u64,
    pub event: RuntimeEvent,
}

/// A recorded batch.
#[derive(Debug, PartialEq, Eq)]
pub struct TraceBatchRecord {
    pub batch_id: u64,
    pub request: BatchRequest,
    pub response: BatchWireResponse,
    pub emitted_events: Vec<TraceEventRecord>,
}

/// A recorded run.
#[derive(Debug, PartialEq, Eq)]
pub struct TraceFile {
    pub protocol_version: u16,
    pub browser_config: BrowserConfig,
    pub initial_session: Option<SessionState>,
    pub batches: Vec<TraceBatchRecord>,
}

impl View for BatchWireResponse {
    type V = BatchResponseView;

    open spec fn view(&self) -> BatchResponseView {
        BatchResponseView {
            batch_id: self.batch_id,
            results: results_view(self.results@),
            snapshot: opt_snapshot(self.snapshot),
            events: envelopes_view(self.events@),
        }
    }
}

impl View for TraceEventRecord {
    type V = SequencedView;

    open spec fn view(&self) -> SequencedView {
        SequencedView {
            sequence: self.sequence,
            timestamp_ms: self.timestamp_ms,
            event: self.event@,
        }
    }
}

/// The contents of a list of recorded events.
pub open spec fn records_view(list: Seq<TraceEventRecord>) -> Seq<SequencedView> {
    Seq::new(list.len(), |i: int| list[i]@)
}

/// The contents of a `TraceBatchRecord`.
#[verifier::ext_equal]
pub struct BatchRecordView {
    pub batch_id: u64,
    pub request: BatchRequestView,
    pub response: BatchResponseView,
    pub emitted_events: Seq<SequencedView>,
}

impl View for TraceBatchRecord {
    type V = BatchRecordView;

    open spec fn view(&self) -> BatchRecordView {
        BatchRecordView {
            batch_id: self.batch_id,
            request: self.request@,
            response: self.response@,
            emitted_events: records_view(self.emitted_events@),
        }
    }
}

/// The contents of a list of recorded batches.
pub open spec fn batches_view(list: Seq<TraceBatchRecord>) -> Seq<BatchRecordView> {
    Seq::new(list.len(), |i: int| list[i]@)
}

/// The contents of a `TraceFile`.
#[verifier::ext_equal]
pub struct TraceView {
    pub protocol_version: u16,
    pub browser_config: ConfigView,
    pub initial_session: Option<SessionView>,
    pub batches: Seq<BatchRecordView>,
}

/// The contents of an optional session.
pub open spec fn opt_session(s: Option<SessionState>) -> Option<SessionView> {
    match s {
        Some(x) => Some(x@),
        None => None,
    }
}

impl View for TraceFile {
    type V = TraceView;

    open spec fn view(&self) -> TraceView {
        TraceView {
            protocol_version: self.protocol_version,
            browser_config: self.browser_config@,
            initial_session: opt_session(self.initial_session),
            batches: batches_view(self.batches@),
        }
    }
}

/// The kinds of messages by their codes and by their names.
pub proof fn law_kinds_of_messages()
    ensures
        kind_code(MessageKind::EnsureRuntime) == 1 && kind_name(MessageKind::EnsureRuntime) == "EnsureRuntime"@,
        kind_code(MessageKind::EvalJs) == 2 && kind_name(MessageKind::EvalJs) == "EvalJs"@,
        kind_code(MessageKind::SendBatch) == 3 && kind_name(MessageKind::SendBatch) == "SendBatch"@,
        kind_code(MessageKind::SnapshotDom) == 4 && kind_name(MessageKind::SnapshotDom) == "SnapshotDom"@,
        kind_code(MessageKind::InjectSession) == 5 && kind_name(MessageKind::InjectSession) == "InjectSession"@,
        kind_code(MessageKind::SnapshotSession) == 6 && kind_name(MessageKind::SnapshotSession) == "SnapshotSession"@,
        kind_code(MessageKind::DrainEvents) == 7 && kind_name(MessageKind::DrainEvents) == "DrainEvents"@,
        kind_code(MessageKind::Navigate) == 8 && kind_name(MessageKind::Navigate) == "Navigate"@,
        kind_code(MessageKind::SnapshotHostState) == 9 && kind_name(MessageKind::SnapshotHostState) == "SnapshotHostState"@,
        kind_code(MessageKind::ActivateBrowser) == 10 && kind_name(MessageKind::ActivateBrowser) == "ActivateBrowser"@,
{
}

/// Two kinds of messages have neither the same code nor the same name.
pub proof fn law_kinds_are_told_apart(a: MessageKind, b: MessageKind)
    requires
        a != b,
    ensures
        kind_code(a) != kind_code(b),
        kind_name(a) != kind_name(b),
{
    reveal_strlit("EnsureRuntime");
    reveal_strlit("EvalJs");
    reveal_strlit("SendBatch");
    reveal_strlit("SnapshotDom");
    reveal_strlit("InjectSession");
    reveal_strlit("SnapshotSession");
    reveal_strlit("DrainEvents");
    reveal_strlit("Navigate");
    reveal_strlit("SnapshotHostState");
    reveal_strlit("ActivateBrowser");
    assert("EnsureRuntime"@.len() == 13 && "EvalJs"@.len() == 6 && "SendBatch"@.len() == 9 && "SnapshotDom"@.len() == 11 && "InjectSession"@.len() == 13 && "SnapshotSession"@.len() == 15 && "DrainEvents"@.len() == 11 && "Navigate"@.len() == 8 && "SnapshotHostState"@.len() == 17 && "ActivateBrowser"@.len() == 15);
    assert("EnsureRuntime"@[0] == 'E' && "SnapshotDom"@[0] == 'S' && "InjectSession"@[0] == 'I' && "SnapshotSession"@[0] == 'S' && "DrainEvents"@[0] == 'D' && "ActivateBrowser"@[0] == 'A');
}

/// A frame starts with the letters AEGS, the version, the code of its kind and the length of its
/// body, each number with its lowest byte first, and then holds its body.
pub proof fn law_layout_of_a_frame(code: u16, body: Seq<u8>)
    requires
        body.len() <= u64::MAX,
    ensures
        ({
            let f = frame(code, body);
            &&& f.len() == 16 + body.len()
            &&& f[0] == 65 && f[1] == 69 && f[2] == 71 && f[3] == 83
            &&& f[4] == 1 && f[5] == 0
            &&& f[6] + 256 * f[7] == code
            &&& le_value(f.subrange(8, 16)) == body.len()
            &&& f.skip(16) == body
        }),
{
    lemma_byte_range();
    reveal_with_fuel(le_bytes, 9);
    reveal_with_fuel(le_value, 3);
    lemma_le_round_trip(1, 2);
    lemma_le_round_trip(code as nat, 2);
    lemma_le_round_trip(body.len(), 8);
    let f = frame(code, body);
    assert(f.subrange(8, 16) =~= le_bytes(body.len(), 8));
    assert(f.skip(16) =~= body);
    let v = le_bytes(1, 2);
    let c = le_bytes(code as nat, 2);
    assert(f[4] == v[0] && f[5] == v[1] && f[6] == c[0] && f[7] == c[1]);
    assert(code as nat == (code as nat % 256) + 256 * (code as nat / 256));
}

/// Bytes are a frame of a kind exactly when they have a whole header with the letters, the version,
/// the code and the length that fit; else what is wrong first is told.
pub proof fn law_frames_are_checked(expected: u16, bytes: Seq<u8>)
    ensures
        ({
            let res = frame_body(expected, bytes);
            let long = bytes.len() >= 16;
            let lettered = bytes[0] == 65 && bytes[1] == 69 && bytes[2] == 71 && bytes[3] == 83;
            let version = le_value(bytes.subrange(4, 6));
            let code = le_value(bytes.subrange(6, 8));
            let fits = bytes.len() == 16 + le_value(bytes.subrange(8, 16));
            &&& res is Ok <==> long && lettered && version == 1 && fits && code == expected
            &&& res is Ok ==> res->Ok_0 == bytes.skip(16)
            &&& !long ==> res == Err::<Seq<u8>, ErrorView>(ErrorView::Protocol("frame too short"@))
            &&& long && !lettered ==> res == Err::<Seq<u8>, ErrorView>(
                ErrorView::Protocol("bad magic"@),
            )
            &&& long && lettered && version != 1 ==> res == Err::<Seq<u8>, ErrorView>(
                ErrorView::Protocol("unsupported protocol version "@ + decimal_text(version)),
            )
            &&& long && lettered && version == 1 && !fits ==> res == Err::<Seq<u8>, ErrorView>(
                ErrorView::Protocol("frame length mismatch"@),
            )
            &&& long && lettered && version == 1 && fits && code != expected ==> res == Err::<
                Seq<u8>,
                ErrorView,
            >(
                ErrorView::Protocol(
                    "unexpected message kind "@ + decimal_text(code) + ", expected "@
                        + decimal_text(expected as nat),
                ),
            )
        }),
{
    if bytes.len() >= 16 {
        let four = bytes.take(4);
        assert(four[0] == bytes[0] && four[1] == bytes[1] && four[2] == bytes[2] && four[3]
            == bytes[3]);
        if bytes[0] == 65 && bytes[1] == 69 && bytes[2] == 71 && bytes[3] == 83 {
            assert(four =~= magic());
        }
    }
}

/// A message tells its kind and its payload, and is framed with the code of its kind.
pub proof fn law_messages_tell_their_kind(kind: MessageKind, payload: OutView)
    ensures
        crate::json::found(envelope_record(kind, payload), "kind"@) == Some(
            JsonView::Text(kind_name(kind)),
        ),
        crate::json::found(envelope_record(kind, payload), "payload"@) == Some(plain(payload)),
        message_bytes(kind, payload) == frame(
            kind_code(kind),
            encode_utf8(written_out(envelope_record(kind, payload))),
        ),
{
    broadcast use crate::json::group_found;

    reveal_strlit("kind");
    reveal_strlit("payload");
    assert("kind"@.len() == 4 && "payload"@.len() == 7);
    let r = envelope_record(kind, payload);
    let name = OutView::Value(JsonView::Text(kind_name(kind)));
    lemma_plain(name);
    assert(r->Record_0 =~= Seq::empty().push(("kind"@, name)).push(("payload"@, payload)));
}

} // verus!

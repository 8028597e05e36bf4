//! Errors, batches and the shape of what the native host returns.

use vstd::prelude::*;

use crate::commands::command::{
    commands_view, results_view, Command, CommandResult, CommandView, ResultView,
};
use crate::dom::node::{DomSnapshot, NodeView};
use crate::events::stream::{EventView, RuntimeEvent};
use crate::text::{concat2, concat3, decimal, decimal_text};

verus! {

/// The largest buffer that the native host may return.
pub const MAX_HOST_BUFFER_LEN: usize = 67_108_864;

/// What can go wrong between the runtime and its surroundings.
#[derive(Debug, Clone, PartialEq, Eq)]
pub enum AegisError {
    Serialize(String),
    Deserialize(String),
    Bridge(String),
    InvalidSession(String),
    Io(String),
    Utf8(String),
    Protocol(String),
}

/// The contents of an `AegisError`.
#[verifier::ext_equal]
pub enum ErrorView {
    Serialize(Seq<char>),
    Deserialize(Seq<char>),
    Bridge(Seq<char>),
    InvalidSession(Seq<char>),
    Io(Seq<char>),
    Utf8(Seq<char>),
    Protocol(Seq<char>),
}

impl View for AegisError {
    type V = ErrorView;

    open spec fn view(&self) -> ErrorView {
        match self {
            AegisError::Serialize(m) => ErrorView::Serialize(m@),
            AegisError::Deserialize(m) => ErrorView::Deserialize(m@),
            AegisError::Bridge(m) => ErrorView::Bridge(m@),
            AegisError::InvalidSession(m) => ErrorView::InvalidSession(m@),
            AegisError::Io(m) => ErrorView::Io(m@),
            AegisError::Utf8(m) => ErrorView::Utf8(m@),
            AegisError::Protocol(m) => ErrorView::Protocol(m@),
        }
    }
}

/// The text of an error.
pub open spec fn error_text(e: ErrorView) -> Seq<char> {
    match e {
        ErrorView::Serialize(m) => "serialization error: "@ + m,
        ErrorView::Deserialize(m) => "deserialization error: "@ + m,
        ErrorView::Bridge(m) => "bridge error: "@ + m,
        ErrorView::InvalidSession(m) => "invalid session: "@ + m,
        ErrorView::Io(m) => "io error: "@ + m,
        ErrorView::Utf8(m) => "utf8 error: "@ + m,
        ErrorView::Protocol(m) => "protocol error: "@ + m,
    }
}

impl AegisError {
    /// The text of an error.
    pub fn message(&self) -> (res: String)
        ensures
            res@ == error_text(self@),
    {
        match self {
            AegisError::Serialize(m) => concat2("serialization error: ", m.as_str()),
            AegisError::Deserialize(m) => concat2("deserialization error: ", m.as_str()),
            AegisError::Bridge(m) => concat2("bridge error: ", m.as_str()),
            AegisError::InvalidSession(m) => concat2("invalid session: ", m.as_str()),
            AegisError::Io(m) => concat2("io error: ", m.as_str()),
            AegisError::Utf8(m) => concat2("utf8 error: ", m.as_str()),
            AegisError::Protocol(m) => concat2("protocol error: ", m.as_str()),
        }
    }
}

/// Whether a call into the native host succeeded.
#[derive(Debug, Clone, Copy, PartialEq, Eq, Structural)]
pub enum HostStatus {
    Success,
    Error,
}

/// The shape of a buffer that the native host returned: whether its pointer is null, and its
/// length.
#[derive(Debug, Clone, Copy, PartialEq, Eq, Structural)]
pub struct HostBuffer {
    pub is_null: bool,
    pub len: usize,
}

/// What is to be done with a buffer of the native host.
#[derive(Debug, PartialEq, Eq)]
pub enum BufferAction {
    /// There is nothing to copy and nothing to free.
    Empty,
    /// Copy the bytes, then free the buffer.
    CopyAndFree,
    /// Fail; there is nothing to free.
    Fail(AegisError),
    /// Free the buffer, then fail.
    FreeAndFail(AegisError),
}

/// The message for a buffer over the limit.
pub open spec fn oversized_message(len: usize) -> Seq<char> {
    "native host returned an oversized buffer: "@ + decimal_text(len as nat) + " bytes"@
}

impl HostBuffer {
    /// The buffer that holds nothing.
    pub fn empty() -> (res: Self)
        ensures
            res.is_null,
            res.len == 0,
    {
        HostBuffer { is_null: true, len: 0 }
    }

    /// What is to be done with the buffer: a null pointer goes with length zero and with
    /// nothing else, and no buffer is longer than the limit.
    pub fn action(&self) -> (res: BufferAction)
        ensures
            match res {
                BufferAction::Empty => self.is_null && self.len == 0,
                BufferAction::Fail(e) => self.is_null != (self.len == 0) && e@ == ErrorView::Bridge(
                    "native host returned an invalid buffer shape"@,
                ),
                BufferAction::FreeAndFail(e) => !self.is_null && self.len > MAX_HOST_BUFFER_LEN
                    && e@ == ErrorView::Bridge(oversized_message(self.len)),
                BufferAction::CopyAndFree => !self.is_null && 0 < self.len <= MAX_HOST_BUFFER_LEN,
            },
    {
        if self.is_null && self.len == 0 {
            return BufferAction::Empty;
        }
        if self.is_null || self.len == 0 {
            return BufferAction::Fail(
                AegisError::Bridge("native host returned an invalid buffer shape".to_owned()),
            );
        }
        if self.len > MAX_HOST_BUFFER_LEN {
            let digits = decimal(self.len as u64);
            return BufferAction::FreeAndFail(
                AegisError::Bridge(
                    concat3(
                        "native host returned an oversized buffer: ",
                        digits.as_str(),
                        " bytes",
                    ),
                ),
            );
        }
        BufferAction::CopyAndFree
    }
}

/// An event as the native host reports it.
#[derive(Debug, PartialEq, Eq)]
pub struct BridgeEventEnvelope {
    pub event: RuntimeEvent,
}

impl Clone for BridgeEventEnvelope {
    fn clone(&self) -> (res: Self)
        ensures
            res.event@ == self.event@,
    {
        BridgeEventEnvelope { event: self.event.clone() }
    }
}

/// The contents of a list of reported events.
pub open spec fn envelopes_view(list: Seq<BridgeEventEnvelope>) -> Seq<EventView> {
    Seq::new(list.len(), |i: int| list[i].event@)
}

/// A batch of commands.
#[derive(Debug, PartialEq, Eq)]
pub struct BatchRequest {
    pub batch_id: u64,
    pub commands: Vec<Command>,
}

/// The contents of a `BatchRequest`.
#[verifier::ext_equal]
pub struct BatchRequestView {
    pub batch_id: u64,
    pub commands: Seq<CommandView>,
}

impl View for BatchRequest {
    type V = BatchRequestView;

    open spec fn view(&self) -> BatchRequestView {
        BatchRequestView { batch_id: self.batch_id, commands: commands_view(self.commands@) }
    }
}

/// The outcome of a batch.
#[derive(Debug, PartialEq, Eq)]
pub struct BatchResponse {
    pub batch_id: u64,
    pub results: Vec<CommandResult>,
    pub snapshot: Option<DomSnapshot>,
    pub events: Vec<BridgeEventEnvelope>,
}

/// The contents of a `BatchResponse`.
#[verifier::ext_equal]
pub struct BatchResponseView {
    pub batch_id: u64,
    pub results: Seq<ResultView>,
    pub snapshot: Option<Seq<NodeView>>,
    pub events: Seq<EventView>,
}

/// The contents of an optional snapshot.
pub open spec fn opt_snapshot(s: Option<DomSnapshot>) -> Option<Seq<NodeView>> {
    match s {
        Some(x) => Some(x@),
        None => None,
    }
}

impl View for BatchResponse {
    type V = BatchResponseView;

    open spec fn view(&self) -> BatchResponseView {
        BatchResponseView {
            batch_id: self.batch_id,
            results: results_view(self.results@),
            snapshot: opt_snapshot(self.snapshot),
            events: envelopes_view(self.events@),
        }
    }
}

/// The text of an error says what kind it is and then what happened.
pub proof fn law_texts_of_errors(m: Seq<char>)
    ensures
        error_text(ErrorView::Serialize(m)) == "serialization error: "@ + m,
        error_text(ErrorView::Deserialize(m)) == "deserialization error: "@ + m,
        error_text(ErrorView::Bridge(m)) == "bridge error: "@ + m,
        error_text(ErrorView::InvalidSession(m)) == "invalid session: "@ + m,
        error_text(ErrorView::Io(m)) == "io error: "@ + m,
        error_text(ErrorView::Utf8(m)) == "utf8 error: "@ + m,
        error_text(ErrorView::Protocol(m)) == "protocol error: "@ + m,
{
}

/// Replies of more than 64 mebibytes are refused, with a message that says how long they are.
pub proof fn law_oversized_replies(len: usize)
    ensures
        MAX_HOST_BUFFER_LEN == 64 * 1024 * 1024,
        oversized_message(len) == "native host returned an oversized buffer: "@ + decimal_text(
            len as nat,
        ) + " bytes"@,
{
}

} // verus!

//! Verified core of the Aegis agentic browser runtime.

pub mod api;
pub mod browser;
pub mod browser_import;
pub mod cli;
pub mod clock;
pub mod commands;
pub mod config_store;
pub mod display;
pub mod dom;
pub mod events;
pub mod json;
pub mod keyed;
pub mod native;
pub mod native_build;
pub mod paths;
pub mod runtime;
pub mod session;
pub mod state;
pub mod string_map;
pub mod text;
pub mod trace;
pub mod transfers;
pub mod transport;

pub use browser::{BrowserConfig, BrowserMode};
pub use commands::command::{
    Command, CommandMatcher, CommandResult, CommandTarget, UploadFilePayload,
};
pub use config_store::{AegisConfigStore, AegisSecretStore, CredentialInput};
pub use dom::node::{DomNode, DomSnapshot, NodeId};
pub use events::stream::{EventStream, EventType, RuntimeEvent, SequencedEvent};
pub use native::{app_executable, artifact_for_target, NativeConfiguration, NativeStatus};
pub use runtime::executor::{AegisRuntime, ExecutionReport};
pub use session::cookies::{Cookie, SessionState};
pub use session::profile::{SessionProfileInfo, SessionProfileStore};
pub use session::storage::{NetworkOverride, StorageArea};
pub use state::AegisStatePaths;
pub use trace::recorder::TraceRecorder;
pub use trace::replayer::{replay_trace, ReplayState};
pub use transport::bridge::{
    AegisError, BatchRequest, BatchResponse, BridgeEventEnvelope, HostBuffer, HostStatus,
};
pub use transport::protocol::{decode_message, encode_message, MessageKind, TraceFile};

//! The wire protocol between the runtime and the native host.

pub mod bridge;
pub mod protocol;

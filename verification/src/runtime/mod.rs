//! The runtime: counters and command execution.

pub mod command_stream;
pub mod executor;
pub mod page;
pub mod scheduler;
pub mod wait;

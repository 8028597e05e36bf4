//! The control plane: what requests are answered, and how the runtime reports on itself.

pub mod contexts;
pub mod credentials;
pub mod diagnostics;
pub mod errors;
pub mod manifest;
pub mod requests;
pub mod serving;

//! What the command line tool decides.

pub mod config;
pub mod launch;
pub mod native;

//! Commands and the matching of their targets.

pub mod command;
pub mod encoder;
pub mod matcher;

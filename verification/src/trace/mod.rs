//! Recording runs and replaying them.

pub mod recorder;
pub mod replayer;

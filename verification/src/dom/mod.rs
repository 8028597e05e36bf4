//! The document model: nodes, snapshots, diffs and the live tree.

pub mod diff;
pub mod node;
pub mod tree;

//! A hierarchical task-network planner with priority-preserving re-planning.
//!
//! A task tree of leaf operators and compound `Select` / `Sequence` nodes,
//! guarded by conditions and followed by effects, is decomposed into a
//! linear plan of operator steps. The plan is executed one step per tick
//! against a per-planner key/value world state, and is rebuilt when it
//! empties or fails — but a running plan is never replaced by one of lower
//! priority.

pub mod condition;
pub mod decompose;
pub mod effect;
pub mod engine;
pub mod error;
pub mod laws;
pub mod mtr;
pub mod plan;
pub mod props;
pub mod task;
pub mod value;

//! Configuration of a physics/collision pipeline for a data-parallel task
//! scheduler.
//!
//! The crate assembles an ordered graph of processing stages — broad-phase
//! pruning, narrow-phase detection, contact solving and pose synchronization —
//! and records it in a [`stage::StageGraph`], the model of the host
//! scheduler's registration boundary: a stage is a named unit of work with a
//! list of named predecessors.

pub mod bundle;
pub mod stage;
pub mod sync;

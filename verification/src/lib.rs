//! Core of a parallel directory-deletion engine.
//!
//! The library models the deletion pipeline as verified state machines:
//! a scanner that folds directory enumerations into a dependency tree,
//! a broker that schedules directory removals children-before-parent and
//! splits large directories into file batches, and the pure decision
//! logic of the worker protocol (retry policy, error classification,
//! escalation). All file-system and process I/O is performed by the
//! embedding application, which feeds plain values into these state
//! machines.

pub mod broker;
pub mod error;
pub mod paths;
pub mod platform;
pub mod safety;
pub mod stats;
pub mod tree;
pub mod worker;

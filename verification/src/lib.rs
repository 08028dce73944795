//! Core of a cooperative, stackful fiber runtime: a fixed pool of fibers
//! multiplexed onto one OS thread by explicit, voluntary transfers of control.
//!
//! This crate holds the verified scheduler: the fiber state machine, the
//! round-robin transfer algorithm, the asymmetric call/return discipline, and
//! the stack-bootstrap layout. The machine-level context switch itself and the
//! process-wide runtime handle cannot be expressed in safe code; they live in
//! the thin unverified shell around this library, which owns the stack buffers
//! (the byte-buffer allocator collaborator) and performs the switches that the
//! scheduler here decides on.

pub mod fairness;
pub mod runtime;
pub mod scan;
pub mod stack;
pub mod thread;

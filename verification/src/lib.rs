//! A resumable STARK-proof verification engine.
//!
//! Verification runs as a set of small task state machines scheduled over a
//! persisted bidirectional stack: one end of the stack exchanges data records
//! between tasks, the other end holds serialized task frames.  Each scheduler
//! tick advances exactly one task by one step, so a caller with a bounded
//! compute budget can drive verification to completion across many calls,
//! checkpointing the stack between them.

pub mod codec;
pub mod errors;
pub mod felt;
pub mod hash;
pub mod stack;
pub mod scheduler;
pub mod stark_proof;
pub mod tasks;

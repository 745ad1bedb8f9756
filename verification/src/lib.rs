//! Combinators that harden asynchronous operations: a bounded-time wrapper
//! that turns a stalled operation into a caller-supplied timeout error, and a
//! "first success wins" race over a finite collection of independent attempts.
//!
//! The decision logic is modeled and verified here over plain values: an
//! operation is represented by the instant it completes on the scheduler's
//! clock together with the result it then yields. The actual scheduling
//! (starting, awaiting and cancelling suspended computations) is the job of
//! an external cooperative scheduler driving these decisions.

pub mod bounded;
pub mod op;
pub mod race;

//! The model of an asynchronous operation: an opaque computation that, once
//! driven to completion by the scheduler, yields exactly one `Result<T, E>`.
//! For the purposes of the combinators only two things about it matter: when
//! it completes on the scheduler's monotonic clock, and what it then yields.

use vstd::prelude::*;

verus! {

/// One asynchronous operation, reduced to what the combinators observe of it:
/// the instant (in milliseconds on the scheduler's monotonic clock) at which
/// it completes, and the result it yields at that instant.
pub struct Operation<T, E> {
    /// When the operation completes, on the scheduler's clock.
    pub completes_at: u64,
    /// The result the operation yields upon completion.
    pub outcome: Result<T, E>,
}

/// The operation yields a success once driven to completion.
pub open spec fn succeeds<T, E>(op: Operation<T, E>) -> bool {
    op.outcome is Ok
}

/// The success value of an operation known to succeed.
pub open spec fn success_of<T, E>(op: Operation<T, E>) -> T
    recommends
        succeeds(op),
{
    op.outcome->Ok_0
}

} // verus!

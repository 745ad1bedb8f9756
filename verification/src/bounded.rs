//! The bounded-time wrapper: it races one operation against a countdown of a
//! given duration. If the operation completes first its own result — success
//! or failure — is passed through unchanged; if the countdown elapses first
//! the operation is cancelled and a caller-supplied timeout error is yielded
//! in its place. Exactly one outcome is produced per invocation.

use vstd::prelude::*;

use crate::op::Operation;

verus! {

/// The first thing the wrapper observes once the operation and the countdown
/// are both running: either the operation completed (with its result), or the
/// deadline elapsed first, upon which the operation is cancelled and its
/// eventual result, if any, is never seen by the caller.
pub enum WaitEvent<T, E> {
    /// The operation completed within the deadline, yielding this result.
    Completed(Result<T, E>),
    /// The countdown elapsed before the operation completed.
    DeadlineElapsed,
}

/// Which event a fair scheduler delivers first when an operation is raced
/// against a countdown of `duration_ms`. An operation that completes at the
/// very instant the countdown elapses is still observed as completed: the
/// scheduler judges the operation before the deadline within one scheduling
/// step, which is also why a zero duration admits a synchronous completion.
pub open spec fn wait_event<T, E>(duration_ms: u64, op: Operation<T, E>) -> WaitEvent<T, E> {
    if op.completes_at <= duration_ms {
        WaitEvent::Completed(op.outcome)
    } else {
        WaitEvent::DeadlineElapsed
    }
}

/// What the wrapper yields for a given duration, timeout error and operation:
/// the operation's own result when it beats the deadline, and the supplied
/// timeout error otherwise.
pub open spec fn wait_outcome<T, E>(
    duration_ms: u64,
    timeout_error: E,
    op: Operation<T, E>,
) -> Result<T, E> {
    match wait_event(duration_ms, op) {
        WaitEvent::Completed(result) => result,
        WaitEvent::DeadlineElapsed => Err(timeout_error),
    }
}

/// The decision taken on the first observed event: a completed operation's
/// result is passed through unchanged — never substituted or masked — and an
/// elapsed deadline yields exactly the supplied timeout error.
pub fn resolve_wait<T, E>(event: WaitEvent<T, E>, timeout_error: E) -> (r: Result<T, E>)
    ensures
        event matches WaitEvent::Completed(result) ==> r == result,
        event is DeadlineElapsed ==> r == Err::<T, E>(timeout_error),
{
    match event {
        WaitEvent::Completed(result) => result,
        WaitEvent::DeadlineElapsed => Err(timeout_error),
    }
}

/// The bounded-time wrapper over the operation model: starts the operation
/// and a countdown of `duration_ms` together, observes whichever finishes
/// first, and resolves that event.
pub fn bounded_wait<T, E>(duration_ms: u64, timeout_error: E, op: Operation<T, E>) -> (r: Result<
    T,
    E,
>)
    ensures
        r == wait_outcome(duration_ms, timeout_error, op),
        op.completes_at <= duration_ms ==> r == op.outcome,
        op.completes_at > duration_ms ==> r == Err::<T, E>(timeout_error),
{
    let event = if op.completes_at <= duration_ms {
        WaitEvent::Completed(op.outcome)
    } else {
        WaitEvent::DeadlineElapsed
    };
    resolve_wait(event, timeout_error)
}

/// An operation that needs only half the allowed duration completes well
/// within the deadline, so the wrapper yields the operation's own result,
/// not the timeout error.
pub proof fn lemma_prompt_operation_wins<T, E>(
    duration_ms: u64,
    timeout_error: E,
    op: Operation<T, E>,
)
    requires
        duration_ms > 0,
        op.completes_at == duration_ms / 2,
    ensures
        wait_outcome(duration_ms, timeout_error, op) == op.outcome,
{
}

/// An operation that takes at least twice the allowed duration misses the
/// deadline, so the wrapper yields exactly the supplied timeout error and the
/// operation's eventual result is never observed. A zero duration is left
/// out: twice zero is still zero, and a synchronous completion at instant
/// zero is judged within the same scheduling step.
pub proof fn lemma_stalled_operation_times_out<T, E>(
    duration_ms: u64,
    timeout_error: E,
    op: Operation<T, E>,
)
    requires
        duration_ms > 0,
        op.completes_at >= 2 * (duration_ms as int),
    ensures
        wait_outcome(duration_ms, timeout_error, op) == Err::<T, E>(timeout_error),
{
}

} // verus!

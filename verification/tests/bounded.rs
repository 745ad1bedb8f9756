use netutils::bounded::bounded_wait;
use netutils::bounded::resolve_wait;
use netutils::bounded::WaitEvent;
use netutils::op::Operation;

fn op(completes_at: u64, outcome: Result<u32, &'static str>) -> Operation<u32, &'static str> {
    Operation {
        completes_at,
        outcome,
    }
}

#[test]
fn bounded_wait_returns_prompt_operation_result() {
    assert_eq!(Ok(7), bounded_wait(100, "timed out", op(50, Ok(7))));
}

#[test]
fn bounded_wait_passes_through_operation_error() {
    assert_eq!(Err("boom"), bounded_wait(100, "timed out", op(50, Err("boom"))));
}

#[test]
fn bounded_wait_times_out_stalled_operation() {
    assert_eq!(Err("timed out"), bounded_wait(100, "timed out", op(200, Ok(7))));
}

#[test]
fn bounded_wait_zero_duration_times_out() {
    assert_eq!(Err("timed out"), bounded_wait(0, "timed out", op(1, Ok(7))));
}

#[test]
fn bounded_wait_zero_duration_admits_synchronous_completion() {
    assert_eq!(Ok(7), bounded_wait(0, "timed out", op(0, Ok(7))));
}

#[test]
fn resolve_wait_passes_a_completed_result_through() {
    let completed: WaitEvent<u32, &'static str> = WaitEvent::Completed(Ok(5));
    assert_eq!(Ok(5), resolve_wait(completed, "timed out"));
    let failed: WaitEvent<u32, &'static str> = WaitEvent::Completed(Err("boom"));
    assert_eq!(Err("boom"), resolve_wait(failed, "timed out"));
}

#[test]
fn resolve_wait_substitutes_the_timeout_error_on_expiry() {
    let elapsed: WaitEvent<u32, &'static str> = WaitEvent::DeadlineElapsed;
    assert_eq!(Err("timed out"), resolve_wait(elapsed, "timed out"));
}

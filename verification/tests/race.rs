use netutils::op::Operation;
use netutils::race::first_ok;
use netutils::race::first_success;
use netutils::race::race_step;
use netutils::race::RaceState;

fn op(completes_at: u64, outcome: Result<u32, &'static str>) -> Operation<u32, &'static str> {
    Operation {
        completes_at,
        outcome,
    }
}

#[test]
fn first_ok_picks_the_result_from_earliest_finished_future() {
    let future_1 = op(30, Ok(1));
    let future_2 = op(10, Ok(2));
    let future_3 = op(20, Ok(3));
    let result = first_success(vec![future_1, future_2, future_3]).unwrap();
    assert_eq!(2, result);
}

#[test]
fn first_ok_ignores_failed_futures() {
    let future_1 = op(30, Ok(1));
    let future_2 = op(10, Err("error"));
    let future_3 = op(20, Ok(3));
    let result = first_success(vec![future_1, future_2, future_3]).unwrap();
    assert_eq!(3, result);
}

#[test]
fn first_ok_returns_none_if_all_failed() {
    let future_1 = op(30, Err("error 1"));
    let future_2 = op(10, Err("error 2"));
    let future_3 = op(20, Err("error 3"));
    assert!(first_success(vec![future_1, future_2, future_3]).is_none())
}

#[test]
fn first_success_empty_collection_is_no_success() {
    let operations: Vec<Operation<u32, &'static str>> = vec![];
    assert!(first_success(operations).is_none());
}

#[test]
fn first_success_lone_winner_found_at_any_position() {
    for winner_position in 0..3 {
        let mut operations = vec![op(5, Err("slow")), op(50, Err("fast")), op(25, Err("mid"))];
        operations[winner_position] = op(40, Ok(7));
        assert_eq!(Some(7), first_success(operations));
    }
}

#[test]
fn first_success_tie_resolves_to_a_success() {
    let operations = vec![op(10, Ok(1)), op(10, Ok(2)), op(10, Err("also tied"))];
    let result = first_success(operations).unwrap();
    assert!(result == 1 || result == 2);
}

#[test]
fn first_ok_takes_first_success_in_observed_order() {
    let completions: Vec<Result<u32, &'static str>> = vec![Err("early"), Ok(2), Ok(3)];
    assert_eq!(Some(2), first_ok(completions));
}

#[test]
fn first_ok_is_none_when_every_completion_fails() {
    let completions: Vec<Result<u32, &'static str>> = vec![Err("a"), Err("b")];
    assert_eq!(None, first_ok(completions));
}

#[test]
fn first_ok_is_none_on_no_completions() {
    let completions: Vec<Result<u32, &'static str>> = vec![];
    assert_eq!(None, first_ok(completions));
}

#[test]
fn race_step_success_decides_and_cancels_the_rest() {
    let state: RaceState<u32> = RaceState::Racing { pending: 3 };
    let next = race_step(state, Ok::<u32, &'static str>(5));
    assert!(matches!(next, RaceState::Decided { value: 5 }));
}

#[test]
fn race_step_failure_shrinks_the_pending_count() {
    let state: RaceState<u32> = RaceState::Racing { pending: 3 };
    let next = race_step(state, Err::<u32, &'static str>("discarded"));
    assert!(matches!(next, RaceState::Racing { pending: 2 }));
}

#[test]
fn race_step_last_failure_exhausts_the_race() {
    let state: RaceState<u32> = RaceState::Racing { pending: 1 };
    let next = race_step(state, Err::<u32, &'static str>("discarded"));
    assert!(matches!(next, RaceState::Exhausted));
}

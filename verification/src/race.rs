//! The "first success wins" race: a finite, ordered collection of independent
//! operations is started essentially simultaneously; the first success
//! produced by any of them is the final answer and every still-pending
//! operation is cancelled at that point. Failures are silently discarded. If
//! the collection is empty, or every operation fails, the outcome is "no
//! success" — a distinguished empty result, not an error value.

use vstd::prelude::*;

use crate::op::Operation;
use crate::op::succeeds;
use crate::op::success_of;

verus! {

/// The state of one race, per invocation: racing with some number of
/// operations still pending, decided on the first observed success, or
/// exhausted after the last failure. `Decided` and `Exhausted` are terminal.
pub enum RaceState<T> {
    /// Still awaiting `pending` operations; no success observed yet.
    Racing { pending: usize },
    /// A success was observed; the remaining operations are cancelled and
    /// `value` is the race's final answer.
    Decided { value: T },
    /// Every operation completed with a failure; the race yields no success.
    Exhausted,
}

/// The transitions of the race, per completion observed while racing: a
/// success decides the race from any pending count; a failure shrinks the
/// pending count, exhausting the race when it was the last operation out.
pub open spec fn spec_race_step<T, E>(state: RaceState<T>, completion: Result<T, E>) -> RaceState<
    T,
>
    recommends
        state matches RaceState::Racing { pending } && pending >= 1,
{
    match completion {
        Ok(value) => RaceState::Decided { value },
        Err(_) => match state {
            RaceState::Racing { pending } => if pending == 1 {
                RaceState::Exhausted
            } else {
                RaceState::Racing { pending: (pending - 1) as usize }
            },
            _ => state,
        },
    }
}

/// One transition of the race: a pending operation has completed, and the
/// driver reacts to its result. A success decides the race immediately — the
/// remaining operations are cancelled, not awaited — while a failure is
/// discarded and merely shrinks the pending count, exhausting the race when
/// it was the last operation out.
pub fn race_step<T, E>(state: RaceState<T>, completion: Result<T, E>) -> (next: RaceState<T>)
    requires
        state matches RaceState::Racing { pending } && pending >= 1,
    ensures
        next == spec_race_step(state, completion),
        completion is Ok ==> next is Decided,
        completion is Err ==> !(next is Decided),
{
    match completion {
        Ok(value) => RaceState::Decided { value },
        Err(_) => {
            match state {
                RaceState::Racing { pending } => {
                    if pending == 1 {
                        RaceState::Exhausted
                    } else {
                        RaceState::Racing { pending: pending - 1 }
                    }
                },
                _ => vstd::pervasive::unreached(),
            }
        },
    }
}

/// What "the race decided `r`" means for completions observed in the order
/// `s`: `None` exactly when no completion is a success, and `Some(v)` exactly
/// when `v` is the value of the first success observed — every completion
/// before it a failure.
pub open spec fn first_ok_decides<T, E>(s: Seq<Result<T, E>>, r: Option<T>) -> bool {
    match r {
        Option::None => forall|i: int| 0 <= i < s.len() ==> !(s[i] is Ok),
        Option::Some(v) => exists|i: int|
            0 <= i < s.len() && s[i] == Ok::<T, E>(v) && (forall|j: int|
                0 <= j < i ==> !(s[j] is Ok)),
    }
}

/// The race's decision over the completions it observes, in the order it
/// observes them: the value of the first success, or `None` when every
/// completion is a failure. Individual errors are discarded, never surfaced.
pub fn first_ok<T, E>(completions: Vec<Result<T, E>>) -> (r: Option<T>)
    ensures
        first_ok_decides(completions@, r),
{
    let ghost s = completions@;
    let mut rest = completions;
    let mut best: Option<T> = None;
    let ghost mut best_idx: int = 0;
    proof {
        assert(rest@ =~= s.subrange(0, rest@.len() as int));
    }
    while rest.len() > 0
        invariant
            rest@.len() <= s.len(),
            rest@ == s.subrange(0, rest@.len() as int),
            best matches Some(v) ==> {
                &&& rest@.len() <= best_idx < s.len()
                &&& s[best_idx] == Ok::<T, E>(v)
                &&& forall|j: int| rest@.len() <= j < best_idx ==> !(s[j] is Ok)
            },
            best is None ==> forall|j: int| rest@.len() <= j < s.len() ==> !(s[j] is Ok),
        decreases rest.len(),
    {
        let ghost prev = rest@;
        let ghost k: int = prev.len() - 1;
        let completed = rest.pop().unwrap();
        proof {
            assert(completed == prev[k] && prev[k] == s[k]);
            assert(rest@ =~= s.subrange(0, rest@.len() as int));
        }
        match completed {
            Ok(value) => {
                best = Some(value);
                proof {
                    best_idx = k;
                }
            },
            Err(_) => {},
        }
    }
    proof {
        assert(s.subrange(0, 0) =~= Seq::<Result<T, E>>::empty());
        match &best {
            Some(v) => {
                assert(0 <= best_idx < s.len() && s[best_idx] == Ok::<T, E>(*v) && (forall|j: int|
                    0 <= j < best_idx ==> !(s[j] is Ok)));
            },
            None => {},
        }
    }
    best
}

/// What "the race decided `r`" means for a collection of operations `s` with
/// known completion instants: `None` exactly when no operation succeeds, and
/// `Some(v)` exactly when `v` is the value of a success no other success
/// precedes. Ties between simultaneous successes may resolve to any one of
/// the tied successes, but always to a success.
pub open spec fn race_decides<T, E>(s: Seq<Operation<T, E>>, r: Option<T>) -> bool {
    match r {
        Option::None => forall|i: int| 0 <= i < s.len() ==> !succeeds(s[i]),
        Option::Some(v) => exists|i: int|
            0 <= i < s.len() && s[i].outcome == Ok::<T, E>(v) && (forall|j: int|
                0 <= j < s.len() && succeeds(s[j]) ==> s[i].completes_at <= s[j].completes_at),
    }
}

/// The full race over a collection of operations with known completion
/// instants: every operation is started together, and the decision is the
/// value of the earliest-completing success, independent of the order the
/// operations were supplied in — or "no success" when all of them fail.
pub fn first_success<T, E>(operations: Vec<Operation<T, E>>) -> (r: Option<T>)
    ensures
        race_decides(operations@, r),
{
    let ghost s = operations@;
    let mut rest = operations;
    let mut best: Option<(u64, T)> = None;
    let ghost mut best_idx: int = 0;
    proof {
        assert(rest@ =~= s.subrange(0, rest@.len() as int));
    }
    while rest.len() > 0
        invariant
            rest@.len() <= s.len(),
            rest@ == s.subrange(0, rest@.len() as int),
            best matches Some(b) ==> {
                &&& rest@.len() <= best_idx < s.len()
                &&& s[best_idx].outcome == Ok::<T, E>(b.1)
                &&& s[best_idx].completes_at == b.0
                &&& forall|j: int|
                    rest@.len() <= j < s.len() && succeeds(s[j]) ==> b.0 <= s[j].completes_at
            },
            best is None ==> forall|j: int| rest@.len() <= j < s.len() ==> !succeeds(s[j]),
        decreases rest.len(),
    {
        let ghost prev = rest@;
        let ghost k: int = prev.len() - 1;
        let completed = rest.pop().unwrap();
        proof {
            assert(completed == prev[k] && prev[k] == s[k]);
            assert(rest@ =~= s.subrange(0, rest@.len() as int));
        }
        match completed.outcome {
            Ok(value) => {
                let replace = match &best {
                    None => true,
                    Some(b) => completed.completes_at <= b.0,
                };
                if replace {
                    best = Some((completed.completes_at, value));
                    proof {
                        best_idx = k;
                    }
                }
            },
            Err(_) => {},
        }
    }
    proof {
        assert(s.subrange(0, 0) =~= Seq::<Operation<T, E>>::empty());
    }
    match best {
        None => None,
        Some((_, value)) => {
            proof {
                assert(s[best_idx].outcome == Ok::<T, E>(value) && (forall|j: int|
                    0 <= j < s.len() && succeeds(s[j])
                        ==> s[best_idx].completes_at <= s[j].completes_at));
            }
            Some(value)
        },
    }
}

/// Driving the race machine with a sequence of observed completions, starting
/// from the given state: each completion is one transition, and a terminal
/// state ignores whatever would have completed later — those operations are
/// cancelled, their results never observed.
pub open spec fn run_race<T, E>(state: RaceState<T>, completions: Seq<Result<T, E>>) -> RaceState<
    T,
>
    decreases completions.len(),
{
    if completions.len() == 0 {
        state
    } else {
        match state {
            RaceState::Racing { pending } => run_race(
                spec_race_step(state, completions[0]),
                completions.subrange(1, completions.len() as int),
            ),
            _ => state,
        }
    }
}

/// The terminal verdict of the race machine over completions observed in the
/// order `s`, starting with all of them pending.
pub open spec fn race_verdict<T, E>(s: Seq<Result<T, E>>) -> RaceState<T> {
    run_race(RaceState::Racing { pending: s.len() as usize }, s)
}

/// The race machine agrees with the race's decision: driven by the observed
/// completions, it decides exactly the first success when one exists, and it
/// is exhausted exactly when there was at least one operation and every one
/// of them failed. An empty race stays racing over nothing — the driver
/// reports "no success" without suspending, no transition ever taken.
pub proof fn lemma_race_verdict_decides<T, E>(s: Seq<Result<T, E>>)
    requires
        s.len() <= usize::MAX,
    ensures
        race_verdict::<T, E>(s) matches RaceState::Decided { value } ==> first_ok_decides(
            s,
            Some(value),
        ),
        race_verdict::<T, E>(s) is Exhausted ==> first_ok_decides(s, None::<T>),
        race_verdict::<T, E>(s) is Decided <==> exists|i: int| 0 <= i < s.len() && s[i] is Ok,
        race_verdict::<T, E>(s) is Exhausted <==> (s.len() > 0 && forall|i: int|
            0 <= i < s.len() ==> !(s[i] is Ok)),
    decreases s.len(),
{
    if s.len() == 0 {
    } else {
        let rest = s.subrange(1, s.len() as int);
        lemma_race_verdict_decides::<T, E>(rest);
        assert(forall|j: int| 0 <= j < rest.len() ==> rest[j] == s[j + 1]);
        if s[0] is Ok {
            let v = s[0]->Ok_0;
            assert(spec_race_step::<T, E>(RaceState::Racing { pending: s.len() as usize }, s[0])
                == (RaceState::Decided { value: v }));
            assert(run_race::<T, E>(RaceState::Decided { value: v }, rest) == (RaceState::Decided {
                value: v,
            }));
            assert(race_verdict::<T, E>(s) == (RaceState::Decided { value: v }));
            assert(0 <= 0 < s.len() && s[0] == Ok::<T, E>(v) && (forall|j: int|
                0 <= j < 0 ==> !(s[j] is Ok)));
        } else {
            if s.len() == 1 {
                assert(spec_race_step::<T, E>(
                    RaceState::Racing { pending: s.len() as usize },
                    s[0],
                ) == RaceState::<T>::Exhausted);
                assert(run_race::<T, E>(RaceState::Exhausted, rest) == RaceState::<T>::Exhausted);
                assert(race_verdict::<T, E>(s) is Exhausted);
                assert(forall|i: int| 0 <= i < s.len() ==> !(s[i] is Ok));
            } else {
                assert(spec_race_step::<T, E>(
                    RaceState::Racing { pending: s.len() as usize },
                    s[0],
                ) == (RaceState::<T>::Racing { pending: (s.len() - 1) as usize }));
                assert(rest.len() as usize == (s.len() - 1) as usize);
                assert(race_verdict::<T, E>(s) == race_verdict::<T, E>(rest));
                assert((exists|i: int| 0 <= i < s.len() && s[i] is Ok) <==> (exists|i: int|
                    0 <= i < rest.len() && rest[i] is Ok)) by {
                    if exists|i: int| 0 <= i < s.len() && s[i] is Ok {
                        let i = choose|i: int| 0 <= i < s.len() && s[i] is Ok;
                        assert(rest[i - 1] is Ok);
                    }
                    if exists|i: int| 0 <= i < rest.len() && rest[i] is Ok {
                        let i = choose|i: int| 0 <= i < rest.len() && rest[i] is Ok;
                        assert(s[i + 1] is Ok);
                    }
                }
                assert((forall|i: int| 0 <= i < s.len() ==> !(s[i] is Ok)) <==> (forall|i: int|
                    0 <= i < rest.len() ==> !(rest[i] is Ok))) by {
                    if forall|i: int| 0 <= i < rest.len() ==> !(rest[i] is Ok) {
                        assert forall|i: int| 0 <= i < s.len() implies !(s[i] is Ok) by {
                            if i >= 1 {
                                assert(!(rest[i - 1] is Ok));
                            }
                        }
                    }
                }
                match race_verdict::<T, E>(rest) {
                    RaceState::Decided { value } => {
                        let i = choose|i: int|
                            0 <= i < rest.len() && rest[i] == Ok::<T, E>(value) && (forall|j: int|
                                0 <= j < i ==> !(rest[j] is Ok));
                        assert forall|j: int| 0 <= j < i + 1 implies !(s[j] is Ok) by {
                            if j >= 1 {
                                assert(!(rest[j - 1] is Ok));
                            }
                        }
                        assert(0 <= i + 1 < s.len() && s[i + 1] == Ok::<T, E>(value) && (
                        forall|j: int| 0 <= j < i + 1 ==> !(s[j] is Ok)));
                    },
                    _ => {},
                }
            }
        }
    }
}

/// The results the operations yield, in the order the operations stand.
pub open spec fn outcomes<T, E>(s: Seq<Operation<T, E>>) -> Seq<Result<T, E>> {
    s.map_values(|op: Operation<T, E>| op.outcome)
}

/// When operations are observed in completion-time order, taking the first
/// success observed decides the race exactly as the earliest-completing
/// success demands: any other success completes no earlier.
pub proof fn lemma_first_success_in_time_order<T, E>(s: Seq<Operation<T, E>>, r: Option<T>)
    requires
        forall|i: int, j: int| 0 <= i <= j < s.len() ==> s[i].completes_at <= s[j].completes_at,
        first_ok_decides(outcomes(s), r),
    ensures
        race_decides(s, r),
{
    assert(forall|i: int| 0 <= i < s.len() ==> outcomes(s)[i] == s[i].outcome);
    match r {
        Option::None => {
            assert forall|i: int| 0 <= i < s.len() implies !succeeds(s[i]) by {
                assert(!(outcomes(s)[i] is Ok));
            }
        },
        Option::Some(v) => {
            let i = choose|i: int|
                0 <= i < outcomes(s).len() && outcomes(s)[i] == Ok::<T, E>(v) && (forall|j: int|
                    0 <= j < i ==> !(outcomes(s)[j] is Ok));
            assert forall|j: int| 0 <= j < s.len() && succeeds(s[j]) implies s[i].completes_at
                <= s[j].completes_at by {
                assert(!(outcomes(s)[j] is Ok) || j >= i);
            }
            assert(0 <= i < s.len() && s[i].outcome == Ok::<T, E>(v) && (forall|j: int|
                0 <= j < s.len() && succeeds(s[j]) ==> s[i].completes_at <= s[j].completes_at));
        },
    }
}

/// When exactly one operation in the collection eventually succeeds, the race
/// decides on that operation's value — regardless of its position in the
/// collection and of the completion order of the others.
pub proof fn lemma_lone_success_wins<T, E>(s: Seq<Operation<T, E>>, i: int, r: Option<T>)
    requires
        0 <= i < s.len(),
        succeeds(s[i]),
        forall|j: int| 0 <= j < s.len() && j != i ==> !succeeds(s[j]),
        race_decides(s, r),
    ensures
        r == Some(success_of(s[i])),
{
    match r {
        Option::None => {
            assert(!succeeds(s[i]));
        },
        Option::Some(v) => {
            let w = choose|w: int|
                0 <= w < s.len() && s[w].outcome == Ok::<T, E>(v) && (forall|j: int|
                    0 <= j < s.len() && succeeds(s[j]) ==> s[w].completes_at <= s[j].completes_at);
            assert(succeeds(s[w]));
            assert(w == i);
        },
    }
}

/// When every operation in the collection fails, the race decides "no
/// success".
pub proof fn lemma_all_fail_no_success<T, E>(s: Seq<Operation<T, E>>, r: Option<T>)
    requires
        forall|j: int| 0 <= j < s.len() ==> !succeeds(s[j]),
        race_decides(s, r),
    ensures
        r is None,
{
    match r {
        Option::Some(v) => {
            let w = choose|w: int|
                0 <= w < s.len() && s[w].outcome == Ok::<T, E>(v) && (forall|j: int|
                    0 <= j < s.len() && succeeds(s[j]) ==> s[w].completes_at <= s[j].completes_at);
            assert(!succeeds(s[w]));
        },
        Option::None => {},
    }
}

/// An empty collection of operations decides "no success".
pub proof fn lemma_empty_race_no_success<T, E>(s: Seq<Operation<T, E>>, r: Option<T>)
    requires
        s.len() == 0,
        race_decides(s, r),
    ensures
        r is None,
{
    lemma_all_fail_no_success(s, r);
}

} // verus!

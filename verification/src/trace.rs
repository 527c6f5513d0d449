//! Sequences of outcomes, as an outside device or server gives them in turn.

use vstd::prelude::*;

verus! {

/// Whether `k` is the position of the first failure among `outcomes`.
pub open spec fn is_first_failure<T, E>(outcomes: Seq<Result<T, E>>, k: int) -> bool {
    &&& 0 <= k < outcomes.len()
    &&& outcomes[k] is Err
    &&& forall|j: int| 0 <= j < k ==> (#[trigger] outcomes[j]) is Ok
}

/// The position of the first failure among `outcomes`, if there is a failure.
pub open spec fn first_failure<T, E>(outcomes: Seq<Result<T, E>>) -> Option<int> {
    if exists|k: int| is_first_failure(outcomes, k) {
        Some(choose|k: int| is_first_failure(outcomes, k))
    } else {
        None
    }
}

proof fn failure_has_a_first<T, E>(outcomes: Seq<Result<T, E>>, upto: int)
    requires
        0 <= upto < outcomes.len(),
        outcomes[upto] is Err,
    ensures
        exists|k: int| is_first_failure(outcomes, k),
    decreases upto,
{
    if forall|j: int| 0 <= j < upto ==> (#[trigger] outcomes[j]) is Ok {
        assert(is_first_failure(outcomes, upto));
    } else {
        let j = choose|j: int| 0 <= j < upto && !((#[trigger] outcomes[j]) is Ok);
        failure_has_a_first(outcomes, j);
    }
}

/// The first failure is a function of the sequence: it is nothing exactly
/// when every outcome is a success, and otherwise the one position that holds
/// a failure with only successes before it.
pub proof fn first_failure_is_determined<T, E>(outcomes: Seq<Result<T, E>>)
    ensures
        match first_failure(outcomes) {
            Some(k) => is_first_failure(outcomes, k) && forall|j: int|
                is_first_failure(outcomes, j) ==> j == k,
            None => forall|j: int| 0 <= j < outcomes.len() ==> (#[trigger] outcomes[j]) is Ok,
        },
{
    match first_failure(outcomes) {
        Some(k) => {
            assert forall|j: int| is_first_failure(outcomes, j) implies j == k by {
                if j < k {
                    assert(outcomes[j] is Ok);
                } else if k < j {
                    assert(outcomes[k] is Ok);
                }
            }
        },
        None => {
            assert forall|j: int| 0 <= j < outcomes.len() implies (#[trigger] outcomes[j]) is Ok by {
                if outcomes[j] is Err {
                    failure_has_a_first(outcomes, j);
                }
            }
        },
    }
}

} // verus!

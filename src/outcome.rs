//! The outcome of a sweep, and how per-handle wait results fold into it.
use vstd::prelude::*;

verus! {

/// Why a sweep failed. Error codes are the operating system's `errno` values.
#[derive(Clone, Copy, Debug, PartialEq, Eq, Structural)]
pub enum SweepError {
    /// Stopping every process before the scan failed; nothing else was tried.
    Freeze(i32),
    /// Continuing every process after the scan failed.
    Thaw(i32),
    /// Some signalled process had not exited when the deadline elapsed.
    Timeout,
    /// Waiting on one process handle failed; the first such failure in
    /// collection order.
    Wait(i32),
}

/// The first failure among per-handle wait results, in collection order.
pub open spec fn first_failure(results: Seq<Result<(), i32>>) -> Option<i32>
    decreases results.len(),
{
    if results.len() == 0 {
        None
    } else if results[0] is Err {
        Some(results[0]->Err_0)
    } else {
        first_failure(results.drop_first())
    }
}

/// What the wait phase reports once every wait has completed.
pub open spec fn settle_spec(results: Seq<Result<(), i32>>) -> Result<(), SweepError> {
    match first_failure(results) {
        None => Ok(()),
        Some(e) => Err(SweepError::Wait(e)),
    }
}

proof fn lemma_first_failure_prefix(results: Seq<Result<(), i32>>, i: int)
    requires
        0 <= i < results.len(),
        first_failure(results.subrange(0, i)) is None,
    ensures
        results[i] is Ok ==> first_failure(results.subrange(0, i + 1)) is None,
        results[i] is Err ==> first_failure(results) == Some(results[i]->Err_0),
    decreases i,
{
    if i > 0 {
        let tail = results.drop_first();
        assert(results.subrange(0, i).drop_first() =~= tail.subrange(0, i - 1));
        assert(results.subrange(0, i + 1).drop_first() =~= tail.subrange(0, i));
        assert(results.subrange(0, i)[0] == results[0]);
        assert(results.subrange(0, i + 1)[0] == results[0]);
        lemma_first_failure_prefix(tail, i - 1);
        assert(tail[i - 1] == results[i]);
    } else {
        let one = results.subrange(0, 1);
        assert(one.drop_first() =~= Seq::<Result<(), i32>>::empty());
        assert(first_failure(one.drop_first()) is None);
        assert(one[0] == results[0]);
    }
}

/// Folds the results of waits that all completed before the deadline:
/// success when none failed, else the first failure in collection order.
pub fn settle(results: &Vec<Result<(), i32>>) -> (r: Result<(), SweepError>)
    ensures
        r == settle_spec(results@),
        r is Ok <==> forall|i: int| 0 <= i < results@.len() ==> (#[trigger] results@[i]) is Ok,
{
    let n = results.len();
    let mut i: usize = 0;
    while i < n
        invariant
            n == results@.len(),
            i <= n,
            first_failure(results@.subrange(0, i as int)) is None,
            forall|k: int| 0 <= k < i ==> (#[trigger] results@[k]) is Ok,
        decreases n - i,
    {
        proof {
            lemma_first_failure_prefix(results@, i as int);
        }
        match results[i] {
            Ok(()) => {},
            Err(e) => {
                return Err(SweepError::Wait(e));
            },
        }
        i = i + 1;
    }
    assert(results@.subrange(0, n as int) =~= results@);
    Ok(())
}

} // verus!

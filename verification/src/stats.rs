//! Turnaround statistics.

use vstd::prelude::*;
use crate::schedule::Completion;

verus! {

/// The sum of `spans`.
pub open spec fn total(spans: Seq<u64>) -> nat
    decreases spans.len(),
{
    if spans.len() == 0 {
        0
    } else {
        total(spans.drop_last()) + spans.last() as nat
    }
}

/// The mean of `spans`, rounded down to a whole nanosecond.
pub open spec fn mean(spans: Seq<u64>) -> nat
    recommends
        spans.len() > 0,
{
    total(spans) / spans.len()
}

/// The turnaround of a completed job.
pub open spec fn turnaround_of() -> spec_fn(Completion) -> u64 {
    |completion: Completion| completion.job.turnaround_spec()->0
}

/// The turnarounds of the completed jobs, in completion order.
pub open spec fn turnarounds_of(finished: Seq<Completion>) -> Seq<u64> {
    finished.map_values(turnaround_of())
}

/// A sum is at most as many times the largest value as it has terms.
pub proof fn lemma_total_bound(spans: Seq<u64>)
    ensures
        total(spans) <= spans.len() * u64::MAX,
    decreases spans.len(),
{
    if spans.len() > 0 {
        lemma_total_bound(spans.drop_last());
    }
}

/// The mean of `spans`, rounded down to a whole nanosecond.
pub fn average(spans: &Vec<u64>) -> (result: u64)
    requires
        spans@.len() > 0,
    ensures
        result == mean(spans@),
{
    let mut sum: u128 = 0;
    let mut i: usize = 0;
    while i < spans.len()
        invariant
            i <= spans.len(),
            sum == total(spans@.take(i as int)),
            sum <= i * u64::MAX,
        decreases spans.len() - i,
    {
        proof {
            assert(spans@.take(i + 1).drop_last() =~= spans@.take(i as int));
        }
        sum = sum + spans[i] as u128;
        i = i + 1;
    }
    proof {
        assert(spans@.take(spans.len() as int) =~= spans@);
        let count = spans.len() as int;
        let sum = sum as int;
        assert(sum / count <= u64::MAX) by (nonlinear_arith)
            requires
                count > 0,
                0 <= sum <= count * u64::MAX,
        ;
    }
    (sum / (spans.len() as u128)) as u64
}

/// The turnarounds of the completed jobs, in completion order.
pub fn turnarounds(finished: &Vec<Completion>) -> (spans: Vec<u64>)
    requires
        forall|i: int| 0 <= i < finished@.len() ==> (#[trigger] finished@[i]).job.done(),
    ensures
        spans@ == turnarounds_of(finished@),
{
    let mut spans: Vec<u64> = Vec::new();
    let mut i: usize = 0;
    while i < finished.len()
        invariant
            i <= finished.len(),
            forall|k: int| 0 <= k < finished@.len() ==> (#[trigger] finished@[k]).job.done(),
            spans@ == turnarounds_of(finished@.take(i as int)),
        decreases finished.len() - i,
    {
        proof {
            assert(finished@[i as int].job.done());
            assert(turnarounds_of(finished@.take(i + 1)) =~= turnarounds_of(
                finished@.take(i as int),
            ).push(turnaround_of()(finished@[i as int])));
        }
        match finished[i].job.turnaround() {
            Some(span) => spans.push(span),
            None => {},
        }
        i = i + 1;
    }
    proof {
        assert(finished@.take(finished.len() as int) =~= finished@);
    }
    spans
}

} // verus!

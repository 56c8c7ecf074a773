//! The workload: the jobs of a run and the delay before each arrives.

use vstd::prelude::*;
use crate::job::Job;

verus! {

/// The value that stands in for a workload entry that could not be read (1 s).
pub const DEFAULT_SPAN: u64 = 1_000_000_000;

/// The number of workload entries that a run uses.
pub const WORKLOAD_LIMIT: usize = 4000;

/// A workload entry in nanoseconds: the entry itself where it was read, the
/// default where it was not.
pub open spec fn span_or_default(entry: Option<u64>) -> u64 {
    match entry {
        Some(nanos) => nanos,
        None => DEFAULT_SPAN,
    }
}

/// The jobs of a run, paired by index with the delay before each arrives.
#[derive(Debug)]
pub struct Traffic {
    pub jobs: Vec<Job>,
    /// The delay before each job's arrival, in nanoseconds.
    pub inter_arrival_times: Vec<u64>,
}

impl Traffic {
    /// Whether the traffic is what the first `limit` entries of a workload
    /// make: one fresh job for each size, numbered from 1 in workload order,
    /// and one delay for each gap; the default stands in for an entry that
    /// could not be read.
    pub open spec fn made_from(
        self,
        sizes: Seq<Option<u64>>,
        gaps: Seq<Option<u64>>,
        limit: nat,
    ) -> bool {
        &&& self.jobs@.len() == limit
        &&& self.inter_arrival_times@.len() == limit
        &&& forall|i: int|
            0 <= i < limit ==> #[trigger] self.jobs@[i] == Job::fresh(
                span_or_default(sizes[i]),
                (i + 1) as u64,
            )
        &&& forall|i: int|
            0 <= i < limit ==> #[trigger] self.inter_arrival_times@[i] == span_or_default(gaps[i])
    }

    /// Makes the traffic of a run from the first `limit` entries of a
    /// workload. `sizes` holds the job sizes and `gaps` the delays between
    /// arrivals, both in nanoseconds and in workload order, with `None` for an
    /// entry that could not be read.
    pub fn generate_data(sizes: &Vec<Option<u64>>, gaps: &Vec<Option<u64>>, limit: usize) -> (traffic:
        Traffic)
        requires
            limit <= sizes@.len(),
            limit <= gaps@.len(),
        ensures
            traffic.made_from(sizes@, gaps@, limit as nat),
    {
        let mut jobs: Vec<Job> = Vec::new();
        let mut inter_arrival_times: Vec<u64> = Vec::new();
        let mut i: usize = 0;
        while i < limit
            invariant
                i <= limit,
                limit <= sizes@.len(),
                limit <= gaps@.len(),
                jobs@.len() == i,
                inter_arrival_times@.len() == i,
                forall|k: int|
                    0 <= k < i ==> #[trigger] jobs@[k] == Job::fresh(
                        span_or_default(sizes@[k]),
                        (k + 1) as u64,
                    ),
                forall|k: int|
                    0 <= k < i ==> #[trigger] inter_arrival_times@[k] == span_or_default(gaps@[k]),
            decreases limit - i,
        {
            let size = match sizes[i] {
                Some(nanos) => nanos,
                None => DEFAULT_SPAN,
            };
            let gap = match gaps[i] {
                Some(nanos) => nanos,
                None => DEFAULT_SPAN,
            };
            jobs.push(Job::new(size, (i + 1) as u64));
            inter_arrival_times.push(gap);
            i = i + 1;
        }
        Traffic { jobs, inter_arrival_times }
    }
}

} // verus!

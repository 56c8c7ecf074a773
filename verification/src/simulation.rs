//! The result of a run: the turnaround of every job it completed.

use vstd::prelude::*;
use crate::queue::ServiceQueue;
use crate::stats::{average, mean, turnarounds, turnarounds_of};

verus! {

/// The turnarounds that a run has produced.
pub struct Simulation {
    /// The turnarounds collected so far, in nanoseconds.
    pub durations: Vec<u64>,
}

impl Simulation {
    /// A simulation that has collected nothing.
    pub fn new() -> (simulation: Self)
        ensures
            simulation.durations@ == Seq::<u64>::empty(),
    {
        Self { durations: Vec::new() }
    }

    /// Collects the turnaround of every job that `queue` has completed, in
    /// completion order, after those collected before.
    pub fn collect(&mut self, queue: &ServiceQueue)
        requires
            queue.wf(),
        ensures
            final(self).durations@ == old(self).durations@ + turnarounds_of(queue@.finished),
    {
        let mut spans = turnarounds(&queue.finished_jobs);
        self.durations.append(&mut spans);
    }

    /// The mean of the turnarounds collected, rounded down to a whole
    /// nanosecond.
    pub fn get_average_duration(&self) -> (result: u64)
        requires
            self.durations@.len() > 0,
        ensures
            result == mean(self.durations@),
    {
        average(&self.durations)
    }
}

} // verus!

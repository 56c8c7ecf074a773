//! Jobs: one unit of work each, with its service accounting and timestamps.
//!
//! All durations and timestamps are whole nanoseconds.

use vstd::prelude::*;

verus! {

/// The longest duration, in nanoseconds, that the scheduler accounts for
/// (about 292 years). Job sizes and quanta must not exceed it, so that the
/// service a job has received always fits in 64 bits.
pub const MAX_SPAN: u64 = 9_223_372_036_854_775_807;

/// One unit of work.
#[derive(Clone, Copy, Debug)]
pub struct Job {
    /// Identity of the job; the scheduler never holds two jobs with one id.
    pub id: u64,
    /// Service still owed to the job.
    pub remaining_duration: u64,
    /// Total service the job asks for; fixed at creation.
    pub duration: u64,
    /// Service handed to the job so far; never reset.
    pub work_received: u64,
    /// When the job was admitted, once it has been.
    pub start: Option<u64>,
    /// When the job completed, once it has.
    pub stop: Option<u64>,
}

impl Job {
    /// The job as it is created: nothing served, no timestamps.
    pub open spec fn fresh(nanos: u64, id: u64) -> Job {
        Job {
            id,
            remaining_duration: nanos,
            duration: nanos,
            work_received: 0,
            start: None,
            stop: None,
        }
    }

    /// Whether the job is as `Job::new` made it and small enough to be scheduled.
    pub open spec fn is_fresh(self) -> bool {
        &&& self == Job::fresh(self.duration, self.id)
        &&& self.duration <= MAX_SPAN
    }

    /// The job with its arrival recorded at `at`.
    pub open spec fn arrived(self, at: u64) -> Job {
        Job { start: Some(at), ..self }
    }

    /// The job with its completion recorded at `at`.
    pub open spec fn stopped(self, at: u64) -> Job {
        Job { stop: Some(at), ..self }
    }

    /// Whether the job is one the scheduler may hold in a tier: admitted, not
    /// completed, with all the service it has received accounted for, and with
    /// service still owed to it, unless it asked for none.
    pub open spec fn live(self) -> bool {
        &&& self.start is Some
        &&& self.stop is None
        &&& self.work_received + self.remaining_duration == self.duration
        &&& self.duration <= MAX_SPAN
        &&& self.remaining_duration == 0 ==> self.duration == 0
    }

    /// Whether the job is one the completed list may hold: admitted, completed,
    /// with nothing left to serve.
    pub open spec fn done(self) -> bool {
        &&& self.start is Some
        &&& self.stop is Some
        &&& self.remaining_duration == 0
    }

    /// Whether a service of `share` nanoseconds completes the job.
    pub open spec fn finishes_within(self, share: u64) -> bool {
        self.remaining_duration <= share
    }

    /// The job after a service of `share` nanoseconds that does not complete it.
    pub open spec fn served(self, share: u64) -> Job {
        Job {
            remaining_duration: (self.remaining_duration - share) as u64,
            work_received: (self.work_received + share) as u64,
            ..self
        }
    }

    /// The job after a service of `share` nanoseconds that completes it at
    /// `at`: the whole share is counted as received, and nothing remains.
    pub open spec fn completed(self, share: u64, at: u64) -> Job {
        Job {
            remaining_duration: 0,
            work_received: (self.work_received + share) as u64,
            stop: Some(at),
            ..self
        }
    }

    /// The time from arrival to completion, once both are recorded; zero where
    /// the completion was stamped before the arrival.
    pub open spec fn turnaround_spec(self) -> Option<u64> {
        if self.start is Some && self.stop is Some {
            if self.stop->0 >= self.start->0 {
                Some((self.stop->0 - self.start->0) as u64)
            } else {
                Some(0)
            }
        } else {
            None
        }
    }

    /// Creates a job of `nanos` nanoseconds with the given id.
    pub fn new(nanos: u64, id: u64) -> (job: Job)
        ensures
            job == Job::fresh(nanos, id),
    {
        Job {
            id,
            remaining_duration: nanos,
            duration: nanos,
            work_received: 0,
            start: None,
            stop: None,
        }
    }

    /// Records the arrival time. An arrival is recorded once: a job that has
    /// one already is left as it is, and `false` is returned.
    pub fn started(&mut self, at: u64) -> (recorded: bool)
        ensures
            recorded == (old(self).start is None),
            recorded ==> *final(self) == old(self).arrived(at),
            !recorded ==> *final(self) == *old(self),
    {
        if self.start.is_none() {
            self.start = Some(at);
            true
        } else {
            false
        }
    }

    /// Records the completion time. Only a job with nothing left to serve can
    /// complete, and only once: otherwise the job is left as it is, and
    /// `false` is returned.
    pub fn ended(&mut self, at: u64) -> (recorded: bool)
        ensures
            recorded == (old(self).remaining_duration == 0 && old(self).stop is None),
            recorded ==> *final(self) == old(self).stopped(at),
            !recorded ==> *final(self) == *old(self),
    {
        if self.remaining_duration == 0 && self.stop.is_none() {
            self.stop = Some(at);
            true
        } else {
            false
        }
    }

    /// Whether a completion time has been recorded.
    pub fn has_ended(&self) -> (ended: bool)
        ensures
            ended == (self.stop is Some),
    {
        self.stop.is_some()
    }

    /// The time from arrival to completion, in nanoseconds.
    pub fn turnaround(&self) -> (span: Option<u64>)
        ensures
            span == self.turnaround_spec(),
    {
        match (self.start, self.stop) {
            (Some(start), Some(stop)) => {
                if stop >= start {
                    Some(stop - start)
                } else {
                    Some(0)
                }
            },
            _ => None,
        }
    }
}

} // verus!

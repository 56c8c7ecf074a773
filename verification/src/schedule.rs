//! The scheduler's state as a mathematical value, and the tick as a function
//! on it.
//!
//! A `Schedule` holds the three tiers, the job that the first-come-first-served
//! tier is executing, and the completed jobs in completion order. `step` is
//! one tick; `admitted` is one admission. The executable queue is specified
//! against these.

use vstd::prelude::*;
use crate::job::Job;

verus! {

/// Service, in nanoseconds, beyond which a foreground job is demoted to the
/// background tier (4 s).
pub const THRESHOLD_FG: u64 = 4_000_000_000;

/// Service, in nanoseconds, beyond which a background job is demoted to the
/// first-come-first-served queue (7.5 s).
pub const THRESHOLD_FCFS: u64 = 7_500_000_000;

/// The length of one tick, in nanoseconds (100 ms).
pub const QUANTUM: u64 = 100_000_000;

/// One of the three priority classes.
#[derive(Clone, Copy, Debug, PartialEq, Eq, Structural)]
pub enum Tier {
    Foreground,
    Background,
    Fcfs,
}

/// A completed job, with the tier it was in when it completed.
#[derive(Clone, Copy, Debug)]
pub struct Completion {
    pub job: Job,
    pub from: Tier,
}

/// Where the scheduler holds a job.
pub enum Place {
    Foreground,
    Background,
    /// Waiting in the first-come-first-served queue.
    Queued,
    /// Being executed by the first-come-first-served tier.
    Running,
    Finished,
}

impl Place {
    /// How far down the tiers a place is. A job only ever moves to a place of
    /// the same or a higher rank.
    pub open spec fn rank(self) -> nat {
        match self {
            Place::Foreground => 0,
            Place::Background => 1,
            Place::Queued => 2,
            Place::Running => 3,
            Place::Finished => 4,
        }
    }
}

/// The part of the quantum that each of `population` jobs receives.
pub open spec fn share_of(quantum: u64, population: nat) -> u64
    recommends
        population > 0,
{
    (quantum as nat / population) as u64
}

/// Jobs that a service of `share` leaves in their tier: not completed, and
/// with a service received of at most `limit`.
pub open spec fn staying(share: u64, limit: u64) -> spec_fn(Job) -> bool {
    |job: Job| !job.finishes_within(share) && job.work_received + share <= limit
}

/// Jobs that a service of `share` demotes: not completed, and with a service
/// received beyond `limit`.
pub open spec fn leaving(share: u64, limit: u64) -> spec_fn(Job) -> bool {
    |job: Job| !job.finishes_within(share) && job.work_received + share > limit
}

/// Jobs that a service of `share` completes.
pub open spec fn finishing(share: u64) -> spec_fn(Job) -> bool {
    |job: Job| job.finishes_within(share)
}

/// A service of `share` that does not complete the job.
pub open spec fn serving(share: u64) -> spec_fn(Job) -> Job {
    |job: Job| job.served(share)
}

/// A service of `share` that completes the job at `at`, in the tier `from`.
pub open spec fn completing(share: u64, at: u64, from: Tier) -> spec_fn(Job) -> Completion {
    |job: Job| Completion { job: job.completed(share, at), from }
}

/// The job of a completion.
pub open spec fn job_of() -> spec_fn(Completion) -> Job {
    |completion: Completion| completion.job
}

/// What is left of a tier after each of its jobs received `share`, in the
/// tier's order. (`lemmas::lemma_tier_empty`, `lemma_tier_single` and
/// `lemma_kept_push` say what this is job by job; likewise for `demoted`
/// and `completions`.)
pub open spec fn kept(tier: Seq<Job>, share: u64, limit: u64) -> Seq<Job> {
    tier.filter(staying(share, limit)).map_values(serving(share))
}

/// The jobs of a tier that a service of `share` sends to the next tier, in the
/// tier's order.
pub open spec fn demoted(tier: Seq<Job>, share: u64, limit: u64) -> Seq<Job> {
    tier.filter(leaving(share, limit)).map_values(serving(share))
}

/// The jobs of a tier that a service of `share` completes at `at`, in the
/// tier's order, each tagged with the tier.
pub open spec fn completions(tier: Seq<Job>, share: u64, at: u64, from: Tier) -> Seq<Completion> {
    tier.filter(finishing(share)).map_values(completing(share, at, from))
}

/// How many of `jobs` have the id `id`.
pub open spec fn occurrences(jobs: Seq<Job>, id: u64) -> nat
    decreases jobs.len(),
{
    if jobs.len() == 0 {
        0
    } else {
        occurrences(jobs.drop_last(), id) + if jobs.last().id == id {
            1nat
        } else {
            0nat
        }
    }
}

/// The job among `jobs` that has the id `id` (the last one, should there be
/// several).
pub open spec fn find(jobs: Seq<Job>, id: u64) -> Option<Job>
    decreases jobs.len(),
{
    if jobs.len() == 0 {
        None
    } else if jobs.last().id == id {
        Some(jobs.last())
    } else {
        find(jobs.drop_last(), id)
    }
}

/// The state of the scheduler.
pub struct Schedule {
    /// The foreground tier, in scan order.
    pub foreground: Seq<Job>,
    /// The background tier, in scan order.
    pub background: Seq<Job>,
    /// The first-come-first-served queue, head first.
    pub fcfs: Seq<Job>,
    /// The job that the first-come-first-served tier is executing.
    pub running: Option<Job>,
    /// The completed jobs, in completion order.
    pub finished: Seq<Completion>,
    /// The number of jobs that the run is to complete.
    pub target: nat,
}

impl Schedule {
    /// The schedule that holds no job.
    pub open spec fn empty(target: nat) -> Schedule {
        Schedule {
            foreground: Seq::empty(),
            background: Seq::empty(),
            fcfs: Seq::empty(),
            running: None,
            finished: Seq::empty(),
            target,
        }
    }

    /// The completed jobs, without their tags.
    pub open spec fn finished_jobs(self) -> Seq<Job> {
        self.finished.map_values(job_of())
    }

    /// How many jobs with the id `id` the schedule holds, over all five places.
    pub open spec fn census(self, id: u64) -> nat {
        occurrences(self.foreground, id) + occurrences(self.background, id) + occurrences(
            self.fcfs,
            id,
        ) + (if self.running is Some && self.running->0.id == id {
            1nat
        } else {
            0nat
        }) + occurrences(self.finished_jobs(), id)
    }

    /// The invariant of the scheduler. Every job in a tier is live, and a
    /// foreground job has not received more than `THRESHOLD_FG`; every
    /// completed job is done; no id occurs twice.
    pub open spec fn wf(self) -> bool {
        &&& forall|i: int|
            0 <= i < self.foreground.len() ==> (#[trigger] self.foreground[i]).live()
                && self.foreground[i].work_received <= THRESHOLD_FG
        &&& forall|i: int| 0 <= i < self.background.len() ==> (#[trigger] self.background[i]).live()
        &&& forall|i: int| 0 <= i < self.fcfs.len() ==> (#[trigger] self.fcfs[i]).live()
        &&& self.running is Some ==> self.running->0.live()
        &&& forall|i: int| 0 <= i < self.finished.len() ==> (#[trigger] self.finished[i]).job.done()
        &&& forall|id: u64| #[trigger] self.census(id) <= 1
    }

    /// Whether the run is over: as many jobs completed as it was to complete.
    pub open spec fn complete(self) -> bool {
        self.finished.len() == self.target
    }

    /// Whether `job` can be admitted: it is fresh, and its id is not in use.
    pub open spec fn admits(self, job: Job) -> bool {
        job.is_fresh() && self.census(job.id) == 0
    }

    /// Whether `job` can be put into the background tier or the
    /// first-come-first-served queue as it is: it is live, and its id is not
    /// in use.
    pub open spec fn takes_live(self, job: Job) -> bool {
        job.live() && self.census(job.id) == 0
    }

    /// Whether `job` can be put on the completed list as it is: it is done,
    /// and its id is not in use.
    pub open spec fn takes_done(self, job: Job) -> bool {
        job.done() && self.census(job.id) == 0
    }

    /// The schedule after `job` was admitted at `now`: stamped, and at the end
    /// of the foreground tier.
    pub open spec fn admitted(self, job: Job, now: u64) -> Schedule {
        Schedule { foreground: self.foreground.push(job.arrived(now)), ..self }
    }

    /// A tick in which the first-come-first-served tier executes its job: the
    /// job alone receives the whole quantum.
    pub open spec fn run(self, quantum: u64, now: u64) -> Schedule
        recommends
            self.running is Some,
    {
        let job = self.running->0;
        if job.finishes_within(quantum) {
            Schedule {
                running: None,
                finished: self.finished.push(
                    Completion { job: job.completed(quantum, now), from: Tier::Fcfs },
                ),
                ..self
            }
        } else {
            Schedule { running: Some(job.served(quantum)), ..self }
        }
    }

    /// A tick that serves the foreground tier: its jobs share the quantum
    /// evenly; those that complete leave for the completed list, those whose
    /// service goes beyond `THRESHOLD_FG` for the end of the background tier.
    pub open spec fn serve_foreground(self, quantum: u64, now: u64) -> Schedule
        recommends
            self.foreground.len() > 0,
    {
        let share = share_of(quantum, self.foreground.len());
        Schedule {
            foreground: kept(self.foreground, share, THRESHOLD_FG),
            background: self.background + demoted(self.foreground, share, THRESHOLD_FG),
            finished: self.finished + completions(self.foreground, share, now, Tier::Foreground),
            ..self
        }
    }

    /// A tick that serves the background tier, in the same way; the jobs whose
    /// service goes beyond `THRESHOLD_FCFS` leave for the end of the
    /// first-come-first-served queue.
    pub open spec fn serve_background(self, quantum: u64, now: u64) -> Schedule
        recommends
            self.background.len() > 0,
    {
        let share = share_of(quantum, self.background.len());
        Schedule {
            background: kept(self.background, share, THRESHOLD_FCFS),
            fcfs: self.fcfs + demoted(self.background, share, THRESHOLD_FCFS),
            finished: self.finished + completions(self.background, share, now, Tier::Background),
            ..self
        }
    }

    /// A tick that takes the head of the first-come-first-served queue into
    /// execution. The job receives no service in this tick.
    pub open spec fn dispatch(self) -> Schedule
        recommends
            self.fcfs.len() > 0,
    {
        Schedule { running: Some(self.fcfs.first()), fcfs: self.fcfs.drop_first(), ..self }
    }

    /// One tick of `quantum` nanoseconds at time `now`. The first of these that
    /// applies: the first-come-first-served tier executes its job; the
    /// foreground tier is served; the background tier is served; the head of
    /// the first-come-first-served queue is taken into execution; nothing
    /// happens.
    pub open spec fn step(self, quantum: u64, now: u64) -> Schedule {
        if self.running is Some {
            self.run(quantum, now)
        } else if self.foreground.len() > 0 {
            self.serve_foreground(quantum, now)
        } else if self.background.len() > 0 {
            self.serve_background(quantum, now)
        } else if self.fcfs.len() > 0 {
            self.dispatch()
        } else {
            self
        }
    }

    /// Where a tick takes a job that is in `place`, and what it makes of it.
    /// A job that the tick does not serve stays as and where it is, but for
    /// the head of the first-come-first-served queue when it is taken into
    /// execution.
    pub open spec fn fate(self, place: Place, job: Job, quantum: u64, now: u64) -> (Place, Job) {
        if self.running is Some {
            if place is Running {
                if job.finishes_within(quantum) {
                    (Place::Finished, job.completed(quantum, now))
                } else {
                    (Place::Running, job.served(quantum))
                }
            } else {
                (place, job)
            }
        } else if self.foreground.len() > 0 {
            let share = share_of(quantum, self.foreground.len());
            if place is Foreground {
                if job.finishes_within(share) {
                    (Place::Finished, job.completed(share, now))
                } else if job.work_received + share > THRESHOLD_FG {
                    (Place::Background, job.served(share))
                } else {
                    (Place::Foreground, job.served(share))
                }
            } else {
                (place, job)
            }
        } else if self.background.len() > 0 {
            let share = share_of(quantum, self.background.len());
            if place is Background {
                if job.finishes_within(share) {
                    (Place::Finished, job.completed(share, now))
                } else if job.work_received + share > THRESHOLD_FCFS {
                    (Place::Queued, job.served(share))
                } else {
                    (Place::Background, job.served(share))
                }
            } else {
                (place, job)
            }
        } else if self.fcfs.len() > 0 {
            if place is Queued && job.id == self.fcfs.first().id {
                (Place::Running, job)
            } else {
                (place, job)
            }
        } else {
            (place, job)
        }
    }

    /// How many jobs the schedule holds, over all five places.
    pub open spec fn population(self) -> nat {
        self.foreground.len() + self.background.len() + self.fcfs.len() + (if self.running
            is Some {
            1nat
        } else {
            0nat
        }) + self.finished.len()
    }

    /// Whether `place` holds a job with the id `id`.
    pub open spec fn in_place(self, place: Place, id: u64) -> bool {
        match place {
            Place::Foreground => find(self.foreground, id) is Some,
            Place::Background => find(self.background, id) is Some,
            Place::Queued => find(self.fcfs, id) is Some,
            Place::Running => self.running is Some && self.running->0.id == id,
            Place::Finished => find(self.finished_jobs(), id) is Some,
        }
    }

    /// The place of the job with the id `id`, if the schedule holds one.
    pub open spec fn place_of(self, id: u64) -> Option<Place> {
        if find(self.foreground, id) is Some {
            Some(Place::Foreground)
        } else if find(self.background, id) is Some {
            Some(Place::Background)
        } else if find(self.fcfs, id) is Some {
            Some(Place::Queued)
        } else if self.running is Some && self.running->0.id == id {
            Some(Place::Running)
        } else if find(self.finished_jobs(), id) is Some {
            Some(Place::Finished)
        } else {
            None
        }
    }

    /// The job with the id `id`, if the schedule holds one.
    pub open spec fn job(self, id: u64) -> Option<Job> {
        match self.place_of(id) {
            Some(Place::Foreground) => find(self.foreground, id),
            Some(Place::Background) => find(self.background, id),
            Some(Place::Queued) => find(self.fcfs, id),
            Some(Place::Running) => self.running,
            Some(Place::Finished) => find(self.finished_jobs(), id),
            None => None,
        }
    }
}

} // verus!

//! The scheduler: three tiers, the job in execution, and the completed jobs.

use vstd::prelude::*;
use crate::clock::Clock;
use crate::job::{Job, MAX_SPAN};
use crate::laws::{
    admission_adds_one, admission_keeps_invariant, tick_conserves_jobs, tick_keeps_invariant,
};
use crate::lemmas::{
    lemma_completions_push, lemma_demoted_push, lemma_jobs_push, lemma_kept_push,
    lemma_occurrences_push, lemma_tier_empty,
};
use crate::schedule::{
    Completion, Schedule, Tier, QUANTUM, THRESHOLD_FCFS, THRESHOLD_FG, completions, demoted,
    job_of, kept, occurrences,
};
use crate::stats::{average, mean, turnarounds, turnarounds_of};

verus! {

/// The scheduler's state. Its view is a `Schedule`.
pub struct ServiceQueue {
    /// The foreground tier, in scan order.
    pub foreground: Vec<Job>,
    /// The background tier, in scan order.
    pub background: Vec<Job>,
    /// The first-come-first-served queue, head first.
    pub fcfs: Vec<Job>,
    /// The job that the first-come-first-served tier is executing.
    pub fcfs_running_job: Option<Job>,
    /// The number of jobs that the run is to complete.
    pub num_jobs: usize,
    /// The completed jobs, in completion order.
    pub finished_jobs: Vec<Completion>,
    /// The clock that stamps arrivals and completions.
    pub clock: Clock,
}

impl View for ServiceQueue {
    type V = Schedule;

    open spec fn view(&self) -> Schedule {
        Schedule {
            foreground: self.foreground@,
            background: self.background@,
            fcfs: self.fcfs@,
            running: self.fcfs_running_job,
            finished: self.finished_jobs@,
            target: self.num_jobs as nat,
        }
    }
}

/// A progress report is due whenever the number of completed jobs reaches a
/// multiple of this.
pub const REPORT_EVERY: usize = 100;

/// A progress report holds the mean turnaround whenever the number of
/// completed jobs reaches a multiple of this.
pub const MEAN_EVERY: usize = 500;

/// The scheduler's progress: how many jobs have completed, how many each tier
/// holds, and the mean turnaround so far, in nanoseconds, in the reports that
/// hold one.
#[derive(Clone, Copy, Debug)]
pub struct Progress {
    pub finished: usize,
    pub foreground: usize,
    pub background: usize,
    pub fcfs: usize,
    pub mean_turnaround: Option<u64>,
}

/// Whether a count that has grown from `before` to `after` has reached a
/// multiple of `every`, or gone past one.
pub open spec fn reaches_multiple(before: usize, after: usize, every: usize) -> bool
    recommends
        every > 0,
{
    after / every > before / every
}

/// Whether one of `jobs` has the id `id`.
pub fn has_id(jobs: &Vec<Job>, id: u64) -> (found: bool)
    ensures
        found == (occurrences(jobs@, id) > 0),
{
    let mut found = false;
    let mut i: usize = 0;
    while i < jobs.len()
        invariant
            i <= jobs.len(),
            found == (occurrences(jobs@.take(i as int), id) > 0),
        decreases jobs.len() - i,
    {
        proof {
            assert(jobs@.take(i + 1) =~= jobs@.take(i as int).push(jobs@[i as int]));
            lemma_occurrences_push(jobs@.take(i as int), jobs@[i as int], id);
        }
        if jobs[i].id == id {
            found = true;
        }
        i = i + 1;
    }
    proof {
        assert(jobs@.take(jobs.len() as int) =~= jobs@);
    }
    found
}

/// Serves a tier: every job receives `share`. Returns the jobs that stay in
/// the tier, those that are demoted because their service went beyond
/// `limit`, and those that completed at `now`, tagged with `from`; each list
/// in the tier's order.
pub fn serve_tier(tier: &Vec<Job>, share: u64, limit: u64, now: u64, from: Tier) -> (parts: (
    Vec<Job>,
    Vec<Job>,
    Vec<Completion>,
))
    requires
        forall|i: int| 0 <= i < tier@.len() ==> (#[trigger] tier@[i]).live(),
        share <= MAX_SPAN,
    ensures
        parts.0@ == kept(tier@, share, limit),
        parts.1@ == demoted(tier@, share, limit),
        parts.2@ == completions(tier@, share, now, from),
{
    let mut staying: Vec<Job> = Vec::new();
    let mut leaving: Vec<Job> = Vec::new();
    let mut done: Vec<Completion> = Vec::new();
    proof {
        lemma_tier_empty(share, limit, now, from);
        assert(tier@.take(0) =~= Seq::<Job>::empty());
    }
    let mut i: usize = 0;
    while i < tier.len()
        invariant
            i <= tier.len(),
            forall|k: int| 0 <= k < tier@.len() ==> (#[trigger] tier@[k]).live(),
            share <= MAX_SPAN,
            staying@ == kept(tier@.take(i as int), share, limit),
            leaving@ == demoted(tier@.take(i as int), share, limit),
            done@ == completions(tier@.take(i as int), share, now, from),
        decreases tier.len() - i,
    {
        let mut job = tier[i];
        proof {
            assert(tier@.take(i + 1) =~= tier@.take(i as int).push(tier@[i as int]));
            lemma_kept_push(tier@.take(i as int), job, share, limit);
            lemma_demoted_push(tier@.take(i as int), job, share, limit);
            lemma_completions_push(tier@.take(i as int), job, share, now, from);
            assert(job.live());
        }
        if job.remaining_duration <= share {
            job.remaining_duration = 0;
            job.work_received = job.work_received + share;
            job.ended(now);
            done.push(Completion { job, from });
        } else {
            job.remaining_duration = job.remaining_duration - share;
            job.work_received = job.work_received + share;
            if job.work_received > limit {
                leaving.push(job);
            } else {
                staying.push(job);
            }
        }
        i = i + 1;
    }
    proof {
        assert(tier@.take(tier.len() as int) =~= tier@);
    }
    (staying, leaving, done)
}

impl ServiceQueue {
    /// The scheduler's invariant, on the queue's view.
    pub open spec fn wf(&self) -> bool {
        self@.wf()
    }

    /// An empty scheduler for a run of `num_jobs` jobs. Its clock starts now.
    pub fn new(num_jobs: usize) -> (queue: Self)
        ensures
            queue@ == Schedule::empty(num_jobs as nat),
            queue.wf(),
            forall|id: u64| #[trigger] queue@.census(id) == 0,
    {
        let queue = ServiceQueue {
            foreground: Vec::new(),
            background: Vec::new(),
            fcfs: Vec::new(),
            finished_jobs: Vec::new(),
            num_jobs,
            fcfs_running_job: None,
            clock: Clock::start(),
        };
        proof {
            assert(queue@.finished_jobs() =~= Seq::<Job>::empty());
        }
        queue
    }

    /// Whether the scheduler holds a job with the id `id`, in any tier, in
    /// execution or completed.
    pub fn holds(&self, id: u64) -> (found: bool)
        ensures
            found == (self@.census(id) > 0),
    {
        if has_id(&self.foreground, id) || has_id(&self.background, id) || has_id(&self.fcfs, id) {
            return true;
        }
        match self.fcfs_running_job {
            Some(job) => {
                if job.id == id {
                    return true;
                }
            },
            None => {},
        }
        let mut found = false;
        let mut i: usize = 0;
        while i < self.finished_jobs.len()
            invariant
                i <= self.finished_jobs.len(),
                found == (occurrences(self.finished_jobs@.take(i as int).map_values(job_of()), id)
                    > 0),
            decreases self.finished_jobs.len() - i,
        {
            proof {
                let front = self.finished_jobs@.take(i as int);
                assert(self.finished_jobs@.take(i + 1) =~= front.push(self.finished_jobs@[i as int]));
                lemma_jobs_push(front, self.finished_jobs@[i as int]);
                lemma_occurrences_push(
                    front.map_values(job_of()),
                    self.finished_jobs@[i as int].job,
                    id,
                );
            }
            if self.finished_jobs[i].job.id == id {
                found = true;
            }
            i = i + 1;
        }
        proof {
            assert(self.finished_jobs@.take(self.finished_jobs.len() as int)
                =~= self.finished_jobs@);
        }
        found
    }

    /// Whether `job` can be admitted: it is as `Job::new` made it, no longer
    /// than `MAX_SPAN`, and its id is not in use.
    pub fn admits(&self, job: &Job) -> (ok: bool)
        ensures
            ok == self@.admits(*job),
    {
        job.remaining_duration == job.duration && job.work_received == 0 && job.start.is_none()
            && job.stop.is_none() && job.duration <= MAX_SPAN && !self.holds(job.id)
    }

    /// Admits `job` at time `now`: stamps its arrival and puts it at the end
    /// of the foreground tier.
    pub fn add_job_at(&mut self, job: Job, now: u64)
        requires
            old(self).wf(),
            old(self)@.admits(job),
        ensures
            final(self)@ == old(self)@.admitted(job, now),
            final(self).wf(),
            forall|id: u64|
                #[trigger] final(self)@.census(id) == old(self)@.census(id) + if id == job.id {
                    1nat
                } else {
                    0nat
                },
            final(self).clock == old(self).clock,
    {
        proof {
            admission_keeps_invariant(self@, job, now);
            assert forall|id: u64|
                #[trigger] self@.admitted(job, now).census(id) == self@.census(id) + if id
                    == job.id {
                    1nat
                } else {
                    0nat
                } by {
                admission_adds_one(self@, job, now, id);
            }
        }
        let mut job = job;
        job.started(now);
        self.foreground.push(job);
    }

    /// Admits `job` at the time that the scheduler's clock shows.
    pub fn add_job(&mut self, job: Job)
        requires
            old(self).wf(),
            old(self)@.admits(job),
        ensures
            exists|now: u64| final(self)@ == #[trigger] old(self)@.admitted(job, now),
            final(self).wf(),
            forall|id: u64|
                #[trigger] final(self)@.census(id) == old(self)@.census(id) + if id == job.id {
                    1nat
                } else {
                    0nat
                },
            final(self).clock == old(self).clock,
    {
        let now = self.clock.now();
        self.add_job_at(job, now);
    }

    /// Puts a live job at the end of the background tier, as it is.
    pub fn add_background_job(&mut self, job: Job)
        requires
            old(self).wf(),
            old(self)@.takes_live(job),
        ensures
            final(self)@ == (Schedule {
                background: old(self)@.background.push(job),
                ..old(self)@
            }),
            final(self).wf(),
            forall|id: u64|
                #[trigger] final(self)@.census(id) == old(self)@.census(id) + if id == job.id {
                    1nat
                } else {
                    0nat
                },
            final(self).clock == old(self).clock,
    {
        proof {
            let s = self@;
            let t = Schedule { background: s.background.push(job), ..s };
            assert forall|id: u64|
                #[trigger] t.census(id) == s.census(id) + if id == job.id {
                    1nat
                } else {
                    0nat
                } by {
                lemma_occurrences_push(s.background, job, id);
            }
            assert forall|id: u64| #[trigger] t.census(id) <= 1 by {
                assert(s.census(id) <= 1);
            }
            assert forall|i: int| 0 <= i < t.background.len() implies (#[trigger] t.background[i]).live() by {
                if i < s.background.len() {
                    assert(t.background[i] == s.background[i]);
                }
            }
        }
        self.background.push(job);
    }

    /// Puts a live job at the end of the first-come-first-served queue, as it
    /// is.
    pub fn add_fcfs_job(&mut self, job: Job)
        requires
            old(self).wf(),
            old(self)@.takes_live(job),
        ensures
            final(self)@ == (Schedule { fcfs: old(self)@.fcfs.push(job), ..old(self)@ }),
            final(self).wf(),
            forall|id: u64|
                #[trigger] final(self)@.census(id) == old(self)@.census(id) + if id == job.id {
                    1nat
                } else {
                    0nat
                },
            final(self).clock == old(self).clock,
    {
        proof {
            let s = self@;
            let t = Schedule { fcfs: s.fcfs.push(job), ..s };
            assert forall|id: u64|
                #[trigger] t.census(id) == s.census(id) + if id == job.id {
                    1nat
                } else {
                    0nat
                } by {
                lemma_occurrences_push(s.fcfs, job, id);
            }
            assert forall|id: u64| #[trigger] t.census(id) <= 1 by {
                assert(s.census(id) <= 1);
            }
            assert forall|i: int| 0 <= i < t.fcfs.len() implies (#[trigger] t.fcfs[i]).live() by {
                if i < s.fcfs.len() {
                    assert(t.fcfs[i] == s.fcfs[i]);
                }
            }
        }
        self.fcfs.push(job);
    }

    /// Puts a done job at the end of the completed list, tagged with the tier
    /// it completed in.
    pub fn add_finished_job(&mut self, job: Job, from: Tier)
        requires
            old(self).wf(),
            old(self)@.takes_done(job),
        ensures
            final(self)@ == (Schedule {
                finished: old(self)@.finished.push(Completion { job, from }),
                ..old(self)@
            }),
            final(self).wf(),
            forall|id: u64|
                #[trigger] final(self)@.census(id) == old(self)@.census(id) + if id == job.id {
                    1nat
                } else {
                    0nat
                },
            final(self).clock == old(self).clock,
    {
        proof {
            let s = self@;
            let t = Schedule { finished: s.finished.push(Completion { job, from }), ..s };
            assert forall|id: u64|
                #[trigger] t.census(id) == s.census(id) + if id == job.id {
                    1nat
                } else {
                    0nat
                } by {
                lemma_jobs_push(s.finished, Completion { job, from });
                lemma_occurrences_push(s.finished_jobs(), job, id);
            }
            assert forall|id: u64| #[trigger] t.census(id) <= 1 by {
                assert(s.census(id) <= 1);
            }
            assert forall|i: int| 0 <= i < t.finished.len() implies (#[trigger] t.finished[i]).job.done() by {
                if i < s.finished.len() {
                    assert(t.finished[i] == s.finished[i]);
                }
            }
        }
        self.finished_jobs.push(Completion { job, from });
    }

    /// One tick of `quantum` nanoseconds at time `now`.
    pub fn advance(&mut self, quantum: u64, now: u64)
        requires
            old(self).wf(),
            quantum <= MAX_SPAN,
        ensures
            final(self)@ == old(self)@.step(quantum, now),
            final(self).wf(),
            forall|id: u64| #[trigger] final(self)@.census(id) == old(self)@.census(id),
            final(self).clock == old(self).clock,
    {
        proof {
            tick_keeps_invariant(self@, quantum, now);
            assert forall|id: u64| #[trigger]
                self@.step(quantum, now).census(id) == self@.census(id) by {
                tick_conserves_jobs(self@, quantum, now, id);
            }
        }
        match self.fcfs_running_job {
            Some(running) => {
                let mut job = running;
                if job.remaining_duration <= quantum {
                    job.remaining_duration = 0;
                    job.work_received = job.work_received + quantum;
                    job.ended(now);
                    self.fcfs_running_job = None;
                    self.finished_jobs.push(Completion { job, from: Tier::Fcfs });
                } else {
                    job.remaining_duration = job.remaining_duration - quantum;
                    job.work_received = job.work_received + quantum;
                    self.fcfs_running_job = Some(job);
                }
            },
            None => {
                if self.foreground.len() > 0 {
                    let share = quantum / (self.foreground.len() as u64);
                    let (staying, mut leaving, mut done) = serve_tier(
                        &self.foreground,
                        share,
                        THRESHOLD_FG,
                        now,
                        Tier::Foreground,
                    );
                    self.foreground = staying;
                    self.background.append(&mut leaving);
                    self.finished_jobs.append(&mut done);
                } else if self.background.len() > 0 {
                    let share = quantum / (self.background.len() as u64);
                    let (staying, mut leaving, mut done) = serve_tier(
                        &self.background,
                        share,
                        THRESHOLD_FCFS,
                        now,
                        Tier::Background,
                    );
                    self.background = staying;
                    self.fcfs.append(&mut leaving);
                    self.finished_jobs.append(&mut done);
                } else if self.fcfs.len() > 0 {
                    let job = self.fcfs.remove(0);
                    self.fcfs_running_job = Some(job);
                    proof {
                        assert(self.fcfs@ =~= old(self)@.fcfs.drop_first());
                    }
                }
            },
        }
    }

    /// One tick of `QUANTUM` nanoseconds at the time that the scheduler's
    /// clock shows.
    pub fn tick(&mut self)
        requires
            old(self).wf(),
        ensures
            exists|now: u64| final(self)@ == #[trigger] old(self)@.step(QUANTUM, now),
            final(self).wf(),
            forall|id: u64| #[trigger] final(self)@.census(id) == old(self)@.census(id),
            final(self).clock == old(self).clock,
    {
        let now = self.clock.now();
        self.advance(QUANTUM, now);
    }

    /// Whether the run is over: as many jobs completed as it was to complete.
    pub fn is_finished(&self) -> (over: bool)
        ensures
            over == self@.complete(),
    {
        self.finished_jobs.len() == self.num_jobs
    }

    /// The report that is due once the number of completed jobs has grown
    /// from `before`, if one is due.
    pub open spec fn report(&self, before: usize) -> Option<Progress> {
        let finished = self.finished_jobs.len();
        if reaches_multiple(before, finished, REPORT_EVERY) {
            Some(
                Progress {
                    finished,
                    foreground: self.foreground.len(),
                    background: self.background.len(),
                    fcfs: self.fcfs.len(),
                    mean_turnaround: if reaches_multiple(before, finished, MEAN_EVERY) {
                        Some(mean(turnarounds_of(self.finished_jobs@)) as u64)
                    } else {
                        None
                    },
                },
            )
        } else {
            None
        }
    }

    /// The progress report that is due after the number of completed jobs has
    /// grown from `before` to what it is now. A report is due whenever that
    /// number has reached a multiple of `REPORT_EVERY`, or gone past one, and
    /// it holds the mean turnaround whenever the number has reached a multiple
    /// of `MEAN_EVERY`, or gone past one.
    pub fn progress(&self, before: usize) -> (report: Option<Progress>)
        requires
            self.wf(),
        ensures
            report == self.report(before),
    {
        let finished = self.finished_jobs.len();
        if finished / REPORT_EVERY > before / REPORT_EVERY {
            let mean_turnaround = if finished / MEAN_EVERY > before / MEAN_EVERY {
                let spans = turnarounds(&self.finished_jobs);
                Some(average(&spans))
            } else {
                None
            };
            Some(
                Progress {
                    finished,
                    foreground: self.foreground.len(),
                    background: self.background.len(),
                    fcfs: self.fcfs.len(),
                    mean_turnaround,
                },
            )
        } else {
            None
        }
    }
}

} // verus!

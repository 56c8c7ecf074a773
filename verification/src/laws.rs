//! What holds of every tick and every admission.

use vstd::prelude::*;
use crate::job::{Job, MAX_SPAN};
use crate::lemmas::{
    lemma_find_add, lemma_find_drop_first, lemma_find_occurrences, lemma_find_push,
    lemma_find_service, lemma_jobs_add, lemma_jobs_push, lemma_occurrences_add,
    lemma_occurrences_push, lemma_service_counts, lemma_service_parts, lemma_service_sound,
};
use crate::schedule::{
    Completion, Place, Schedule, Tier, THRESHOLD_FCFS, THRESHOLD_FG, completions, demoted, job_of,
    share_of,
};

verus! {

/// A tick neither loses a job nor makes one twice: every id occurs as often
/// in the schedule after the tick as before it.
pub proof fn tick_conserves_jobs(s: Schedule, quantum: u64, now: u64, id: u64)
    ensures
        s.step(quantum, now).census(id) == s.census(id),
{
    let t = s.step(quantum, now);
    if s.running is Some {
        let job = s.running->0;
        if job.finishes_within(quantum) {
            let completion = Completion { job: job.completed(quantum, now), from: Tier::Fcfs };
            lemma_jobs_push(s.finished, completion);
            lemma_occurrences_push(s.finished_jobs(), completion.job, id);
        }
    } else if s.foreground.len() > 0 {
        let share = share_of(quantum, s.foreground.len());
        let done = completions(s.foreground, share, now, Tier::Foreground);
        lemma_service_parts(s.foreground, share, THRESHOLD_FG, now, Tier::Foreground, id);
        lemma_occurrences_add(s.background, demoted(s.foreground, share, THRESHOLD_FG), id);
        lemma_jobs_add(s.finished, done);
        lemma_occurrences_add(s.finished_jobs(), done.map_values(job_of()), id);
    } else if s.background.len() > 0 {
        let share = share_of(quantum, s.background.len());
        let done = completions(s.background, share, now, Tier::Background);
        lemma_service_parts(s.background, share, THRESHOLD_FCFS, now, Tier::Background, id);
        lemma_occurrences_add(s.fcfs, demoted(s.background, share, THRESHOLD_FCFS), id);
        lemma_jobs_add(s.finished, done);
        lemma_occurrences_add(s.finished_jobs(), done.map_values(job_of()), id);
    } else if s.fcfs.len() > 0 {
        let head = seq![s.fcfs.first()];
        assert(s.fcfs =~= head + s.fcfs.drop_first());
        lemma_occurrences_add(head, s.fcfs.drop_first(), id);
        assert(head =~= Seq::<Job>::empty().push(s.fcfs.first()));
        lemma_occurrences_push(Seq::<Job>::empty(), s.fcfs.first(), id);
    }
}

/// A tick leaves the number of jobs that the schedule holds as it is.
pub proof fn tick_conserves_population(s: Schedule, quantum: u64, now: u64)
    ensures
        s.step(quantum, now).population() == s.population(),
        s.step(quantum, now).target == s.target,
{
    if s.running is Some {
    } else if s.foreground.len() > 0 {
        let share = share_of(quantum, s.foreground.len());
        lemma_service_counts(s.foreground, share, THRESHOLD_FG, now, Tier::Foreground);
    } else if s.background.len() > 0 {
        let share = share_of(quantum, s.background.len());
        lemma_service_counts(s.background, share, THRESHOLD_FCFS, now, Tier::Background);
    }
}

/// A tick finds nothing to do only when every job that the schedule holds
/// has completed.
pub proof fn idle_only_when_drained(s: Schedule)
    ensures
        (s.running is None && s.foreground.len() == 0 && s.background.len() == 0 && s.fcfs.len()
            == 0) <==> s.population() == s.finished.len(),
{
}

/// An admission adds the admitted job and no other.
pub proof fn admission_adds_one(s: Schedule, job: Job, now: u64, id: u64)
    ensures
        s.admitted(job, now).census(id) == s.census(id) + if job.id == id {
            1nat
        } else {
            0nat
        },
        s.admitted(job, now).population() == s.population() + 1,
        s.admitted(job, now).target == s.target,
{
    lemma_occurrences_push(s.foreground, job.arrived(now), id);
}

/// A tick keeps the scheduler's invariant.
pub proof fn tick_keeps_invariant(s: Schedule, quantum: u64, now: u64)
    requires
        s.wf(),
        quantum <= MAX_SPAN,
    ensures
        s.step(quantum, now).wf(),
{
    let t = s.step(quantum, now);
    assert forall|id: u64| #[trigger] t.census(id) <= 1 by {
        tick_conserves_jobs(s, quantum, now, id);
        assert(s.census(id) <= 1);
    }
    if s.running is Some {
    } else if s.foreground.len() > 0 {
        let share = share_of(quantum, s.foreground.len());
        lemma_service_sound(s.foreground, share, THRESHOLD_FG, now, Tier::Foreground);
    } else if s.background.len() > 0 {
        let share = share_of(quantum, s.background.len());
        lemma_service_sound(s.background, share, THRESHOLD_FCFS, now, Tier::Background);
    } else if s.fcfs.len() > 0 {
        assert(s.fcfs.first() == s.fcfs[0]);
        assert forall|i: int| 0 <= i < t.fcfs.len() implies (#[trigger] t.fcfs[i]).live() by {
            assert(t.fcfs[i] == s.fcfs[i + 1]);
        }
    }
}

/// An admission keeps the scheduler's invariant.
pub proof fn admission_keeps_invariant(s: Schedule, job: Job, now: u64)
    requires
        s.wf(),
        s.admits(job),
    ensures
        s.admitted(job, now).wf(),
{
    let t = s.admitted(job, now);
    assert forall|id: u64| #[trigger] t.census(id) <= 1 by {
        admission_adds_one(s, job, now, id);
        assert(s.census(id) <= 1);
    }
    assert forall|i: int| 0 <= i < t.foreground.len() implies (#[trigger] t.foreground[i]).live()
        && t.foreground[i].work_received <= THRESHOLD_FG by {
        if i < s.foreground.len() {
            assert(t.foreground[i] == s.foreground[i]);
        }
    }
}

/// A job is in one place at a time. The schedule holds a job with the id
/// exactly if the id has a place, and then no other place holds a job with
/// the id; the job found has the id.
pub proof fn each_job_in_one_place(s: Schedule, id: u64)
    requires
        s.wf(),
    ensures
        s.place_of(id) is Some <==> s.census(id) == 1,
        s.place_of(id) is None <==> s.census(id) == 0,
        forall|place: Place| #[trigger] s.in_place(place, id) <==> s.place_of(id) == Some(place),
        s.job(id) is Some <==> s.place_of(id) is Some,
        s.job(id) is Some ==> s.job(id)->0.id == id,
{
    assert(s.census(id) <= 1);
    lemma_find_occurrences(s.foreground, id);
    lemma_find_occurrences(s.background, id);
    lemma_find_occurrences(s.fcfs, id);
    lemma_find_occurrences(s.finished_jobs(), id);
}

/// The job that the schedule holds under an id is live while it is in a tier
/// or in execution, has received no more than `THRESHOLD_FG` while it is in
/// the foreground, and is done once it is on the completed list. So it never
/// has more service owed than it asked for; it has its arrival recorded; it
/// has its completion recorded exactly if it is on the completed list, and
/// then nothing is owed to it; and where nothing is owed to it, it has its
/// completion recorded, unless it asked for no service at all.
pub proof fn held_job_is_sound(s: Schedule, id: u64)
    requires
        s.wf(),
        s.place_of(id) is Some,
    ensures
        s.job(id) is Some,
        s.place_of(id) != Some(Place::Finished) ==> s.job(id)->0.live(),
        s.place_of(id) == Some(Place::Foreground) ==> s.job(id)->0.work_received
            <= THRESHOLD_FG,
        s.place_of(id) == Some(Place::Finished) ==> s.job(id)->0.done(),
        s.job(id)->0.remaining_duration <= s.job(id)->0.duration,
        s.job(id)->0.start is Some,
        s.job(id)->0.stop is Some <==> s.place_of(id) == Some(Place::Finished),
        s.job(id)->0.stop is Some ==> s.job(id)->0.remaining_duration == 0,
        s.job(id)->0.remaining_duration == 0 ==> s.job(id)->0.stop is Some || s.job(
            id,
        )->0.duration == 0,
{
    each_job_in_one_place(s, id);
    lemma_find_occurrences(s.foreground, id);
    lemma_find_occurrences(s.background, id);
    lemma_find_occurrences(s.fcfs, id);
    lemma_find_occurrences(s.finished_jobs(), id);
    let job = s.job(id)->0;
    match s.place_of(id)->0 {
        Place::Foreground => {
            let i = choose|i: int| 0 <= i < s.foreground.len() && s.foreground[i] == job;
            assert(s.foreground[i].live());
        },
        Place::Background => {
            let i = choose|i: int| 0 <= i < s.background.len() && s.background[i] == job;
            assert(s.background[i].live());
        },
        Place::Queued => {
            let i = choose|i: int| 0 <= i < s.fcfs.len() && s.fcfs[i] == job;
            assert(s.fcfs[i].live());
        },
        Place::Running => {},
        Place::Finished => {
            let jobs = s.finished_jobs();
            let i = choose|i: int| 0 <= i < jobs.len() && jobs[i] == job;
            assert(s.finished[i].job.done());
        },
    }
}

/// A tick acts on each job by itself: the job that the schedule holds under
/// an id is, after the tick, where `fate` says and what `fate` says; an id
/// that the schedule does not hold is not held after the tick either.
pub proof fn tick_moves_each_job(s: Schedule, quantum: u64, now: u64, id: u64)
    requires
        s.wf(),
    ensures
        s.place_of(id) is None ==> s.step(quantum, now).place_of(id) is None,
        s.place_of(id) is Some ==> {
            let fate = s.fate(s.place_of(id)->0, s.job(id)->0, quantum, now);
            &&& s.step(quantum, now).place_of(id) == Some(fate.0)
            &&& s.step(quantum, now).job(id) == Some(fate.1)
        },
{
    let t = s.step(quantum, now);
    each_job_in_one_place(s, id);
    lemma_find_occurrences(s.foreground, id);
    lemma_find_occurrences(s.background, id);
    lemma_find_occurrences(s.fcfs, id);
    lemma_find_occurrences(s.finished_jobs(), id);
    assert(s.census(id) <= 1);
    if s.running is Some {
        let job = s.running->0;
        if job.finishes_within(quantum) {
            let completion = Completion { job: job.completed(quantum, now), from: Tier::Fcfs };
            lemma_jobs_push(s.finished, completion);
            lemma_find_push(s.finished_jobs(), completion.job, id);
        }
    } else if s.foreground.len() > 0 {
        let share = share_of(quantum, s.foreground.len());
        let done = completions(s.foreground, share, now, Tier::Foreground);
        lemma_find_service(s.foreground, share, THRESHOLD_FG, now, Tier::Foreground, id);
        lemma_find_add(s.background, demoted(s.foreground, share, THRESHOLD_FG), id);
        lemma_jobs_add(s.finished, done);
        lemma_find_add(s.finished_jobs(), done.map_values(job_of()), id);
    } else if s.background.len() > 0 {
        let share = share_of(quantum, s.background.len());
        let done = completions(s.background, share, now, Tier::Background);
        lemma_find_service(s.background, share, THRESHOLD_FCFS, now, Tier::Background, id);
        lemma_find_add(s.fcfs, demoted(s.background, share, THRESHOLD_FCFS), id);
        lemma_jobs_add(s.finished, done);
        lemma_find_add(s.finished_jobs(), done.map_values(job_of()), id);
    } else if s.fcfs.len() > 0 {
        lemma_find_drop_first(s.fcfs, id);
    }
}

/// The service that a job still needs never grows in a tick, and a job that
/// is on the completed list after the tick needs none.
pub proof fn remaining_never_grows(s: Schedule, quantum: u64, now: u64, id: u64)
    requires
        s.wf(),
        s.place_of(id) is Some,
    ensures
        s.job(id) is Some,
        s.step(quantum, now).job(id) is Some,
        s.step(quantum, now).job(id)->0.remaining_duration <= s.job(id)->0.remaining_duration,
        s.step(quantum, now).place_of(id) == Some(Place::Finished) ==> s.step(quantum, now).job(
            id,
        )->0.remaining_duration == 0,
{
    held_job_is_sound(s, id);
    tick_moves_each_job(s, quantum, now, id);
}

/// A tick changes of a job only what service does: the service received
/// never shrinks, and grows by as much as the service owed shrinks unless the
/// job completes; the id, the size and the arrival time stay; a completion
/// time, once recorded, stays.
pub proof fn service_only_accrues(s: Schedule, quantum: u64, now: u64, id: u64)
    requires
        s.wf(),
        quantum <= MAX_SPAN,
        s.place_of(id) is Some,
    ensures
        s.job(id) is Some,
        s.step(quantum, now).job(id) is Some,
        s.step(quantum, now).job(id)->0.id == id,
        s.step(quantum, now).job(id)->0.duration == s.job(id)->0.duration,
        s.step(quantum, now).job(id)->0.start == s.job(id)->0.start,
        s.step(quantum, now).job(id)->0.work_received >= s.job(id)->0.work_received,
        s.step(quantum, now).job(id)->0.stop is None ==> s.step(quantum, now).job(
            id,
        )->0.work_received + s.step(quantum, now).job(id)->0.remaining_duration == s.job(
            id,
        )->0.duration,
        s.job(id)->0.stop is Some ==> s.step(quantum, now).job(id) == s.job(id),
{
    each_job_in_one_place(s, id);
    held_job_is_sound(s, id);
    tick_moves_each_job(s, quantum, now, id);
    if s.running is None && s.foreground.len() > 0 {
        assert(share_of(quantum, s.foreground.len()) <= quantum) by (nonlinear_arith)
            requires
                s.foreground.len() > 0,
                share_of(quantum, s.foreground.len()) == quantum as nat / s.foreground.len(),
        ;
    } else if s.running is None && s.background.len() > 0 {
        assert(share_of(quantum, s.background.len()) <= quantum) by (nonlinear_arith)
            requires
                s.background.len() > 0,
                share_of(quantum, s.background.len()) == quantum as nat / s.background.len(),
        ;
    }
}

/// Demotion is one-way: a tick never takes a job to a place of lower rank.
/// From the foreground a job goes to the background or the completed list,
/// from the background to the first-come-first-served queue or the completed
/// list, from the queue into execution, from execution to the completed list,
/// and from the completed list nowhere.
pub proof fn demotion_is_one_way(s: Schedule, quantum: u64, now: u64, id: u64)
    requires
        s.wf(),
        s.place_of(id) is Some,
    ensures
        s.step(quantum, now).place_of(id) is Some,
        s.step(quantum, now).place_of(id)->0.rank() >= s.place_of(id)->0.rank(),
        s.place_of(id) == Some(Place::Finished) ==> s.step(quantum, now).place_of(id) == Some(
            Place::Finished,
        ) && s.step(quantum, now).job(id) == s.job(id),
{
    tick_moves_each_job(s, quantum, now, id);
}

/// Demotion out of the foreground happens exactly when the service received
/// first goes beyond `THRESHOLD_FG`. A foreground job has not received more
/// than the threshold. After a tick that serves the foreground it has
/// received its share more; it is in the background exactly if it did not
/// complete and has now received more than the threshold, and still in the
/// foreground exactly if it did not complete and has not. With a quantum of
/// no more than the distance between the two thresholds, it has not gone
/// beyond `THRESHOLD_FCFS` by then.
pub proof fn foreground_demotion_at_threshold(s: Schedule, quantum: u64, now: u64, id: u64)
    requires
        s.wf(),
        quantum <= MAX_SPAN,
        s.running is None,
        s.place_of(id) == Some(Place::Foreground),
    ensures
        s.job(id) is Some,
        s.step(quantum, now).job(id) is Some,
        s.job(id)->0.work_received <= THRESHOLD_FG,
        s.step(quantum, now).job(id)->0.work_received == s.job(id)->0.work_received + share_of(
            quantum,
            s.foreground.len(),
        ),
        s.step(quantum, now).place_of(id) == Some(Place::Background) <==> s.step(
            quantum,
            now,
        ).job(id)->0.stop is None && s.step(quantum, now).job(id)->0.work_received
            > THRESHOLD_FG,
        s.step(quantum, now).place_of(id) == Some(Place::Foreground) <==> s.step(
            quantum,
            now,
        ).job(id)->0.stop is None && s.step(quantum, now).job(id)->0.work_received
            <= THRESHOLD_FG,
        quantum <= THRESHOLD_FCFS - THRESHOLD_FG ==> s.step(quantum, now).job(
            id,
        )->0.work_received <= THRESHOLD_FCFS,
{
    held_job_is_sound(s, id);
    lemma_find_occurrences(s.foreground, id);
    tick_moves_each_job(s, quantum, now, id);
    assert(share_of(quantum, s.foreground.len()) <= quantum) by (nonlinear_arith)
        requires
            s.foreground.len() > 0,
            share_of(quantum, s.foreground.len()) == quantum as nat / s.foreground.len(),
    ;
}

/// Demotion out of the background happens exactly when a service in the
/// background takes the service received beyond `THRESHOLD_FCFS`, or finds it
/// there. After a tick that serves the background, a background job has
/// received its share more; it is in the first-come-first-served queue
/// exactly if it did not complete and has now received more than the
/// threshold, and still in the background exactly if it did not complete and
/// has not.
pub proof fn background_demotion_at_threshold(s: Schedule, quantum: u64, now: u64, id: u64)
    requires
        s.wf(),
        quantum <= MAX_SPAN,
        s.running is None,
        s.foreground.len() == 0,
        s.place_of(id) == Some(Place::Background),
    ensures
        s.job(id) is Some,
        s.step(quantum, now).job(id) is Some,
        s.step(quantum, now).job(id)->0.work_received == s.job(id)->0.work_received + share_of(
            quantum,
            s.background.len(),
        ),
        s.step(quantum, now).place_of(id) == Some(Place::Queued) <==> s.step(quantum, now).job(
            id,
        )->0.stop is None && s.step(quantum, now).job(id)->0.work_received > THRESHOLD_FCFS,
        s.step(quantum, now).place_of(id) == Some(Place::Background) <==> s.step(
            quantum,
            now,
        ).job(id)->0.stop is None && s.step(quantum, now).job(id)->0.work_received
            <= THRESHOLD_FCFS,
{
    held_job_is_sound(s, id);
    lemma_find_occurrences(s.background, id);
    tick_moves_each_job(s, quantum, now, id);
}

/// The foreground has priority: in a tick that finds the foreground tier
/// occupied and nothing in execution, no job of the background tier or of
/// the first-come-first-served queue is served. Each is after the tick where
/// and what it was before, and nothing is taken into execution.
pub proof fn foreground_has_priority(s: Schedule, quantum: u64, now: u64, id: u64)
    requires
        s.wf(),
        s.running is None,
        s.foreground.len() > 0,
        s.place_of(id) == Some(Place::Background) || s.place_of(id) == Some(Place::Queued),
    ensures
        s.step(quantum, now).place_of(id) == s.place_of(id),
        s.step(quantum, now).job(id) == s.job(id),
        s.step(quantum, now).running is None,
        s.step(quantum, now).fcfs == s.fcfs,
        s.step(quantum, now).background.take(s.background.len() as int) == s.background,
{
    tick_moves_each_job(s, quantum, now, id);
    assert(s.step(quantum, now).background.take(s.background.len() as int) =~= s.background);
}

/// An admitted job is in the foreground, stamped with its arrival, and every
/// other job is where and what it was.
pub proof fn admission_places_job(s: Schedule, job: Job, now: u64, id: u64)
    requires
        s.wf(),
        s.admits(job),
    ensures
        s.admitted(job, now).place_of(job.id) == Some(Place::Foreground),
        s.admitted(job, now).job(job.id) == Some(job.arrived(now)),
        id != job.id ==> s.admitted(job, now).place_of(id) == s.place_of(id) && s.admitted(
            job,
            now,
        ).job(id) == s.job(id),
{
    lemma_find_push(s.foreground, job.arrived(now), id);
    lemma_find_push(s.foreground, job.arrived(now), job.id);
}

} // verus!

//! Facts about the sequences that a tick builds, on which the proofs of the
//! queue and of the scheduling laws rest.

use vstd::prelude::*;
use crate::job::{Job, MAX_SPAN};
use crate::schedule::{
    Completion, Tier, completions, demoted, find, finishing, job_of, kept, leaving, occurrences,
    staying,
};

verus! {

/// Every non-empty sequence is its front with its last element pushed on.
pub proof fn lemma_unfold_last<A>(s: Seq<A>)
    requires
        s.len() > 0,
    ensures
        s == s.drop_last().push(s.last()),
{
    assert(s =~= s.drop_last().push(s.last()));
}

/// What a service keeps of a tier with one more job at its end.
pub proof fn lemma_kept_push(tier: Seq<Job>, job: Job, share: u64, limit: u64)
    ensures
        kept(tier.push(job), share, limit) == if staying(share, limit)(job) {
            kept(tier, share, limit).push(job.served(share))
        } else {
            kept(tier, share, limit)
        },
{
    tier.lemma_filter_push(job, staying(share, limit));
    if staying(share, limit)(job) {
        assert(kept(tier.push(job), share, limit) =~= kept(tier, share, limit).push(
            job.served(share),
        ));
    }
}

/// What a service demotes of a tier with one more job at its end.
pub proof fn lemma_demoted_push(tier: Seq<Job>, job: Job, share: u64, limit: u64)
    ensures
        demoted(tier.push(job), share, limit) == if leaving(share, limit)(job) {
            demoted(tier, share, limit).push(job.served(share))
        } else {
            demoted(tier, share, limit)
        },
{
    tier.lemma_filter_push(job, leaving(share, limit));
    if leaving(share, limit)(job) {
        assert(demoted(tier.push(job), share, limit) =~= demoted(tier, share, limit).push(
            job.served(share),
        ));
    }
}

/// What a service completes of a tier with one more job at its end.
pub proof fn lemma_completions_push(tier: Seq<Job>, job: Job, share: u64, at: u64, from: Tier)
    ensures
        completions(tier.push(job), share, at, from) == if finishing(share)(job) {
            completions(tier, share, at, from).push(
                Completion { job: job.completed(share, at), from },
            )
        } else {
            completions(tier, share, at, from)
        },
{
    tier.lemma_filter_push(job, finishing(share));
    if finishing(share)(job) {
        assert(completions(tier.push(job), share, at, from) =~= completions(
            tier,
            share,
            at,
            from,
        ).push(Completion { job: job.completed(share, at), from }));
    }
}

/// A tier that has no jobs keeps, demotes and completes none.
pub proof fn lemma_tier_empty(share: u64, limit: u64, at: u64, from: Tier)
    ensures
        kept(Seq::<Job>::empty(), share, limit) == Seq::<Job>::empty(),
        demoted(Seq::<Job>::empty(), share, limit) == Seq::<Job>::empty(),
        completions(Seq::<Job>::empty(), share, at, from) == Seq::<Completion>::empty(),
{
    reveal(Seq::filter);
    assert(kept(Seq::<Job>::empty(), share, limit) =~= Seq::<Job>::empty());
    assert(demoted(Seq::<Job>::empty(), share, limit) =~= Seq::<Job>::empty());
    assert(completions(Seq::<Job>::empty(), share, at, from) =~= Seq::<Completion>::empty());
}

/// What a service makes of a tier of one job: the job is kept, demoted or
/// completed, and the other two lists are empty.
pub proof fn lemma_tier_single(job: Job, share: u64, limit: u64, at: u64, from: Tier)
    ensures
        kept(seq![job], share, limit) == if staying(share, limit)(job) {
            seq![job.served(share)]
        } else {
            Seq::<Job>::empty()
        },
        demoted(seq![job], share, limit) == if leaving(share, limit)(job) {
            seq![job.served(share)]
        } else {
            Seq::<Job>::empty()
        },
        completions(seq![job], share, at, from) == if finishing(share)(job) {
            seq![Completion { job: job.completed(share, at), from }]
        } else {
            Seq::<Completion>::empty()
        },
{
    let none = Seq::<Job>::empty();
    assert(seq![job] =~= none.push(job));
    lemma_tier_empty(share, limit, at, from);
    lemma_kept_push(none, job, share, limit);
    lemma_demoted_push(none, job, share, limit);
    lemma_completions_push(none, job, share, at, from);
    assert(Seq::<Job>::empty().push(job.served(share)) =~= seq![job.served(share)]);
    assert(Seq::<Completion>::empty().push(Completion { job: job.completed(share, at), from })
        =~= seq![Completion { job: job.completed(share, at), from }]);
}

/// The occurrences of an id in a sequence with one more job at its end.
pub proof fn lemma_occurrences_push(jobs: Seq<Job>, job: Job, id: u64)
    ensures
        occurrences(jobs.push(job), id) == occurrences(jobs, id) + if job.id == id {
            1nat
        } else {
            0nat
        },
{
    assert(jobs.push(job).drop_last() =~= jobs);
}

/// The occurrences of an id in two sequences, one after the other.
pub proof fn lemma_occurrences_add(a: Seq<Job>, b: Seq<Job>, id: u64)
    ensures
        occurrences(a + b, id) == occurrences(a, id) + occurrences(b, id),
    decreases b.len(),
{
    if b.len() == 0 {
        assert(a + b =~= a);
    } else {
        assert((a + b).drop_last() =~= a + b.drop_last());
        lemma_occurrences_add(a, b.drop_last(), id);
    }
}

/// The job found in a sequence with one more job at its end.
pub proof fn lemma_find_push(jobs: Seq<Job>, job: Job, id: u64)
    ensures
        find(jobs.push(job), id) == if job.id == id {
            Some(job)
        } else {
            find(jobs, id)
        },
{
    assert(jobs.push(job).drop_last() =~= jobs);
}

/// `find` finds a job exactly where the id occurs, and the job it finds has
/// that id and is one of the sequence.
pub proof fn lemma_find_occurrences(jobs: Seq<Job>, id: u64)
    ensures
        find(jobs, id) is Some <==> occurrences(jobs, id) > 0,
        find(jobs, id) is Some ==> find(jobs, id)->0.id == id && jobs.contains(find(jobs, id)->0),
        occurrences(jobs, id) == 0 ==> forall|i: int|
            0 <= i < jobs.len() ==> (#[trigger] jobs[i]).id != id,
    decreases jobs.len(),
{
    if jobs.len() > 0 {
        lemma_find_occurrences(jobs.drop_last(), id);
        if jobs.last().id == id {
            assert(jobs[jobs.len() - 1] == jobs.last());
        } else if find(jobs, id) is Some {
            let found = find(jobs.drop_last(), id)->0;
            let i = choose|i: int| 0 <= i < jobs.drop_last().len() && jobs.drop_last()[i] == found;
            assert(jobs[i] == found);
        }
        if occurrences(jobs, id) == 0 {
            assert forall|i: int| 0 <= i < jobs.len() implies (#[trigger] jobs[i]).id != id by {
                if i < jobs.len() - 1 {
                    assert(jobs.drop_last()[i] == jobs[i]);
                }
            }
        }
    }
}

/// The job found in two sequences, one after the other.
pub proof fn lemma_find_add(a: Seq<Job>, b: Seq<Job>, id: u64)
    ensures
        find(a + b, id) == if find(b, id) is Some {
            find(b, id)
        } else {
            find(a, id)
        },
    decreases b.len(),
{
    if b.len() == 0 {
        assert(a + b =~= a);
    } else {
        assert((a + b).drop_last() =~= a + b.drop_last());
        lemma_find_add(a, b.drop_last(), id);
    }
}

/// Where an id occurs once at most, dropping the head of the sequence loses
/// the head and nothing else; and if the head has the id, it is the job found.
pub proof fn lemma_find_drop_first(jobs: Seq<Job>, id: u64)
    requires
        jobs.len() > 0,
        occurrences(jobs, id) <= 1,
    ensures
        occurrences(jobs.drop_first(), id) + (if jobs.first().id == id {
            1nat
        } else {
            0nat
        }) == occurrences(jobs, id),
        find(jobs.drop_first(), id) == if jobs.first().id == id {
            None
        } else {
            find(jobs, id)
        },
        jobs.first().id == id ==> find(jobs, id) == Some(jobs.first()),
{
    let head = seq![jobs.first()];
    assert(jobs =~= head + jobs.drop_first());
    lemma_occurrences_add(head, jobs.drop_first(), id);
    lemma_find_add(head, jobs.drop_first(), id);
    assert(head =~= Seq::<Job>::empty().push(jobs.first()));
    lemma_occurrences_push(Seq::<Job>::empty(), jobs.first(), id);
    lemma_find_push(Seq::<Job>::empty(), jobs.first(), id);
    lemma_find_occurrences(jobs.drop_first(), id);
}

/// The completed jobs of a list with one more completion.
pub proof fn lemma_jobs_push(finished: Seq<Completion>, completion: Completion)
    ensures
        finished.push(completion).map_values(job_of()) == finished.map_values(job_of()).push(
            completion.job,
        ),
{
    assert(finished.push(completion).map_values(job_of()) =~= finished.map_values(job_of()).push(
        completion.job,
    ));
}

/// The completed jobs of two lists, one after the other.
pub proof fn lemma_jobs_add(a: Seq<Completion>, b: Seq<Completion>)
    ensures
        (a + b).map_values(job_of()) == a.map_values(job_of()) + b.map_values(job_of()),
{
    assert((a + b).map_values(job_of()) =~= a.map_values(job_of()) + b.map_values(job_of()));
}

/// A service parts a tier in three: each id occurs as often among the jobs
/// kept, demoted and completed together as it did in the tier.
pub proof fn lemma_service_parts(
    tier: Seq<Job>,
    share: u64,
    limit: u64,
    at: u64,
    from: Tier,
    id: u64,
)
    ensures
        occurrences(kept(tier, share, limit), id) + occurrences(demoted(tier, share, limit), id)
            + occurrences(completions(tier, share, at, from).map_values(job_of()), id)
            == occurrences(tier, id),
    decreases tier.len(),
{
    if tier.len() == 0 {
        lemma_tier_empty(share, limit, at, from);
        assert(tier =~= Seq::<Job>::empty());
        assert(Seq::<Completion>::empty().map_values(job_of()) =~= Seq::<Job>::empty());
    } else {
        let front = tier.drop_last();
        let job = tier.last();
        lemma_unfold_last(tier);
        lemma_service_parts(front, share, limit, at, from, id);
        lemma_kept_push(front, job, share, limit);
        lemma_demoted_push(front, job, share, limit);
        lemma_completions_push(front, job, share, at, from);
        lemma_occurrences_push(kept(front, share, limit), job.served(share), id);
        lemma_occurrences_push(demoted(front, share, limit), job.served(share), id);
        lemma_jobs_push(
            completions(front, share, at, from),
            Completion { job: job.completed(share, at), from },
        );
        lemma_occurrences_push(
            completions(front, share, at, from).map_values(job_of()),
            job.completed(share, at),
            id,
        );
    }
}

/// A service parts a tier in three: as many jobs are kept, demoted and
/// completed together as the tier had.
pub proof fn lemma_service_counts(tier: Seq<Job>, share: u64, limit: u64, at: u64, from: Tier)
    ensures
        kept(tier, share, limit).len() + demoted(tier, share, limit).len() + completions(
            tier,
            share,
            at,
            from,
        ).len() == tier.len(),
    decreases tier.len(),
{
    if tier.len() == 0 {
        lemma_tier_empty(share, limit, at, from);
        assert(tier =~= Seq::<Job>::empty());
    } else {
        let front = tier.drop_last();
        let job = tier.last();
        lemma_unfold_last(tier);
        lemma_service_counts(front, share, limit, at, from);
        lemma_kept_push(front, job, share, limit);
        lemma_demoted_push(front, job, share, limit);
        lemma_completions_push(front, job, share, at, from);
    }
}

/// A service of a tier of live jobs leaves live jobs in the tier, none of them
/// with a service beyond the limit, demotes live jobs, and completes done ones.
pub proof fn lemma_service_sound(tier: Seq<Job>, share: u64, limit: u64, at: u64, from: Tier)
    requires
        forall|i: int| 0 <= i < tier.len() ==> (#[trigger] tier[i]).live(),
        share <= MAX_SPAN,
    ensures
        forall|i: int|
            0 <= i < kept(tier, share, limit).len() ==> (#[trigger] kept(
                tier,
                share,
                limit,
            )[i]).live() && kept(tier, share, limit)[i].work_received <= limit,
        forall|i: int|
            0 <= i < demoted(tier, share, limit).len() ==> (#[trigger] demoted(
                tier,
                share,
                limit,
            )[i]).live(),
        forall|i: int|
            0 <= i < completions(tier, share, at, from).len() ==> (#[trigger] completions(
                tier,
                share,
                at,
                from,
            )[i]).job.done(),
    decreases tier.len(),
{
    if tier.len() == 0 {
        lemma_tier_empty(share, limit, at, from);
        assert(tier =~= Seq::<Job>::empty());
    } else {
        let front = tier.drop_last();
        let job = tier.last();
        lemma_unfold_last(tier);
        assert forall|i: int| 0 <= i < front.len() implies (#[trigger] front[i]).live() by {
            assert(front[i] == tier[i]);
        }
        assert(job == tier[tier.len() - 1]);
        assert(job.live());
        lemma_service_sound(front, share, limit, at, from);
        lemma_kept_push(front, job, share, limit);
        lemma_demoted_push(front, job, share, limit);
        lemma_completions_push(front, job, share, at, from);
    }
}

/// Where an id occurs once at most in a tier, the job with that id is found
/// after a service in the one list that the service put it on, served or
/// completed, and in neither of the other two.
pub proof fn lemma_find_service(
    tier: Seq<Job>,
    share: u64,
    limit: u64,
    at: u64,
    from: Tier,
    id: u64,
)
    requires
        occurrences(tier, id) <= 1,
    ensures
        find(kept(tier, share, limit), id) == match find(tier, id) {
            Some(job) => if staying(share, limit)(job) {
                Some(job.served(share))
            } else {
                None
            },
            None => None,
        },
        find(demoted(tier, share, limit), id) == match find(tier, id) {
            Some(job) => if leaving(share, limit)(job) {
                Some(job.served(share))
            } else {
                None
            },
            None => None,
        },
        find(completions(tier, share, at, from).map_values(job_of()), id) == match find(tier, id) {
            Some(job) => if finishing(share)(job) {
                Some(job.completed(share, at))
            } else {
                None
            },
            None => None,
        },
    decreases tier.len(),
{
    if tier.len() == 0 {
        lemma_tier_empty(share, limit, at, from);
        assert(tier =~= Seq::<Job>::empty());
        assert(Seq::<Completion>::empty().map_values(job_of()) =~= Seq::<Job>::empty());
    } else {
        let front = tier.drop_last();
        let job = tier.last();
        lemma_unfold_last(tier);
        lemma_occurrences_push(front, job, id);
        lemma_find_push(front, job, id);
        lemma_find_service(front, share, limit, at, from, id);
        lemma_find_occurrences(front, id);
        lemma_kept_push(front, job, share, limit);
        lemma_demoted_push(front, job, share, limit);
        lemma_completions_push(front, job, share, at, from);
        lemma_find_push(kept(front, share, limit), job.served(share), id);
        lemma_find_push(demoted(front, share, limit), job.served(share), id);
        lemma_jobs_push(
            completions(front, share, at, from),
            Completion { job: job.completed(share, at), from },
        );
        lemma_find_push(
            completions(front, share, at, from).map_values(job_of()),
            job.completed(share, at),
            id,
        );
    }
}

} // verus!

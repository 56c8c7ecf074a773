use mlfq::job::{Job, MAX_SPAN};
use mlfq::queue::{has_id, serve_tier, ServiceQueue};
use mlfq::schedule::{Tier, QUANTUM, THRESHOLD_FCFS, THRESHOLD_FG};

const SECOND: u64 = 1_000_000_000;

fn live(id: u64, duration: u64, received: u64) -> Job {
    let mut job = Job::new(duration, id);
    job.started(0);
    job.remaining_duration = duration - received;
    job.work_received = received;
    job
}

/// Ticks until `done` jobs have completed; returns the number of ticks made.
/// The k-th tick is stamped k quanta after time zero.
fn run_until(queue: &mut ServiceQueue, done: usize, at_most: u64) -> u64 {
    let mut ticks = 0;
    while queue.finished_jobs.len() < done {
        assert!(ticks < at_most, "the jobs did not complete in {} ticks", at_most);
        ticks += 1;
        queue.advance(QUANTUM, ticks * QUANTUM);
    }
    ticks
}

#[test]
fn constants_are_the_defaults() {
    assert_eq!(THRESHOLD_FG, 4 * SECOND);
    assert_eq!(THRESHOLD_FCFS, 7 * SECOND + SECOND / 2);
    assert_eq!(QUANTUM, SECOND / 10);
}

#[test]
fn new_queue_is_empty() {
    let queue = ServiceQueue::new(3);
    assert_eq!(queue.num_jobs, 3);
    assert!(queue.foreground.is_empty());
    assert!(queue.background.is_empty());
    assert!(queue.fcfs.is_empty());
    assert!(queue.fcfs_running_job.is_none());
    assert!(queue.finished_jobs.is_empty());
    assert!(!queue.is_finished());
}

#[test]
fn queue_for_no_jobs_is_finished_at_once() {
    let queue = ServiceQueue::new(0);
    assert!(queue.is_finished());
}

#[test]
fn queue_is_finished_at_the_target_only() {
    let mut queue = ServiceQueue::new(1);
    queue.add_job_at(Job::new(QUANTUM, 1), 0);
    queue.add_job_at(Job::new(QUANTUM, 2), 0);
    assert!(!queue.is_finished());
    queue.advance(2 * QUANTUM, 1);
    // two completed where one was to complete
    assert_eq!(queue.finished_jobs.len(), 2);
    assert!(!queue.is_finished());
}

#[test]
fn admission_stamps_and_appends() {
    let mut queue = ServiceQueue::new(2);
    queue.add_job_at(Job::new(SECOND, 1), 5);
    queue.add_job_at(Job::new(2 * SECOND, 2), 9);
    assert_eq!(queue.foreground.len(), 2);
    assert_eq!(queue.foreground[0].id, 1);
    assert_eq!(queue.foreground[0].start, Some(5));
    assert_eq!(queue.foreground[1].id, 2);
    assert_eq!(queue.foreground[1].start, Some(9));
    assert_eq!(queue.foreground[1].remaining_duration, 2 * SECOND);
    assert!(queue.background.is_empty());
}

#[test]
fn admits_fresh_jobs_with_unused_ids_only() {
    let mut queue = ServiceQueue::new(2);
    let job = Job::new(SECOND, 1);
    assert!(queue.admits(&job));
    queue.add_job_at(job, 0);
    assert!(!queue.admits(&Job::new(SECOND, 1)));
    assert!(queue.admits(&Job::new(SECOND, 2)));
    assert!(!queue.admits(&live(3, SECOND, 0)));
    let mut served = Job::new(SECOND, 4);
    served.work_received = 1;
    assert!(!queue.admits(&served));
    let mut ended = Job::new(0, 5);
    ended.ended(0);
    assert!(!queue.admits(&ended));
    assert!(queue.admits(&Job::new(MAX_SPAN, 6)));
    assert!(!queue.admits(&Job::new(MAX_SPAN + 1, 7)));
}

#[test]
fn holds_looks_in_every_place() {
    let mut queue = ServiceQueue::new(5);
    queue.add_job_at(Job::new(SECOND, 1), 0);
    queue.add_background_job(live(2, SECOND, 0));
    queue.add_fcfs_job(live(3, SECOND, 0));
    let mut done = live(4, SECOND, SECOND);
    done.ended(7);
    queue.add_finished_job(done, Tier::Background);
    for id in 1..=4 {
        assert!(queue.holds(id));
    }
    assert!(!queue.holds(5));
    // the queued job is taken into execution once the tiers above are empty
    queue.foreground.clear();
    queue.background.clear();
    queue.advance(QUANTUM, 1);
    assert_eq!(queue.fcfs_running_job.map(|job| job.id), Some(3));
    assert!(queue.holds(3));
    assert!(!queue.holds(1));
}

#[test]
fn has_id_finds_ids_that_occur() {
    let jobs = vec![Job::new(1, 4), Job::new(1, 9), Job::new(1, 2)];
    assert!(has_id(&jobs, 4));
    assert!(has_id(&jobs, 9));
    assert!(has_id(&jobs, 2));
    assert!(!has_id(&jobs, 1));
    assert!(!has_id(&Vec::new(), 4));
}

#[test]
fn add_finished_job_tags_the_job() {
    let mut queue = ServiceQueue::new(1);
    let mut done = live(4, SECOND, SECOND);
    done.ended(7);
    queue.add_finished_job(done, Tier::Fcfs);
    assert_eq!(queue.finished_jobs.len(), 1);
    assert_eq!(queue.finished_jobs[0].job.id, 4);
    assert_eq!(queue.finished_jobs[0].from, Tier::Fcfs);
    assert!(queue.is_finished());
}

#[test]
fn tick_on_an_empty_queue_changes_nothing() {
    let mut queue = ServiceQueue::new(1);
    queue.advance(QUANTUM, 1);
    queue.tick();
    assert!(queue.foreground.is_empty());
    assert!(queue.background.is_empty());
    assert!(queue.fcfs.is_empty());
    assert!(queue.fcfs_running_job.is_none());
    assert!(queue.finished_jobs.is_empty());
}

#[test]
fn serve_tier_parts_the_tier_in_order() {
    let tier = vec![
        live(1, 10, 0),  // stays
        live(2, 3, 0),   // completes: 3 <= 4
        live(3, 20, 8),  // demoted: 8 + 4 > 10
        live(4, 4, 0),   // completes: 4 <= 4
        live(5, 30, 6),  // stays: 6 + 4 <= 10
        live(6, 30, 7),  // demoted
    ];
    let (kept, demoted, done) = serve_tier(&tier, 4, 10, 99, Tier::Background);
    assert_eq!(kept.iter().map(|job| job.id).collect::<Vec<u64>>(), vec![1, 5]);
    assert_eq!(demoted.iter().map(|job| job.id).collect::<Vec<u64>>(), vec![3, 6]);
    assert_eq!(done.iter().map(|c| c.job.id).collect::<Vec<u64>>(), vec![2, 4]);
    assert_eq!(kept[0].remaining_duration, 6);
    assert_eq!(kept[0].work_received, 4);
    assert_eq!(kept[1].remaining_duration, 20);
    assert_eq!(kept[1].work_received, 10);
    assert_eq!(demoted[0].remaining_duration, 8);
    assert_eq!(demoted[0].work_received, 12);
    assert!(demoted[0].stop.is_none());
    // a completed job has nothing left and the whole share counted
    assert_eq!(done[0].job.remaining_duration, 0);
    assert_eq!(done[0].job.work_received, 4);
    assert_eq!(done[0].job.stop, Some(99));
    assert_eq!(done[0].from, Tier::Background);
    assert_eq!(done[1].job.work_received, 4);
}

#[test]
fn quantum_is_divided_by_the_population_rounding_down() {
    let mut queue = ServiceQueue::new(3);
    for id in 1..=3 {
        queue.add_job_at(Job::new(SECOND, id), 0);
    }
    queue.advance(QUANTUM, 1);
    for job in queue.foreground.iter() {
        assert_eq!(job.work_received, 33_333_333);
        assert_eq!(job.remaining_duration, SECOND - 33_333_333);
    }
}

#[test]
fn short_job_completes_from_foreground() {
    let mut queue = ServiceQueue::new(1);
    queue.add_job_at(Job::new(2 * SECOND, 1), 0);
    for tick in 1..=19 {
        queue.advance(QUANTUM, tick * QUANTUM);
        assert_eq!(queue.foreground.len(), 1);
        assert_eq!(queue.foreground[0].remaining_duration, 2 * SECOND - tick * QUANTUM);
        assert!(!queue.is_finished());
    }
    queue.advance(QUANTUM, 20 * QUANTUM);
    assert!(queue.is_finished());
    assert!(queue.foreground.is_empty());
    assert!(queue.background.is_empty());
    let completion = queue.finished_jobs[0];
    assert_eq!(completion.from, Tier::Foreground);
    assert_eq!(completion.job.id, 1);
    assert_eq!(completion.job.remaining_duration, 0);
    assert_eq!(completion.job.work_received, 2 * SECOND);
    // no queueing: the turnaround is the size
    assert_eq!(completion.job.turnaround(), Some(2 * SECOND));
}

#[test]
fn medium_job_is_demoted_once() {
    let mut queue = ServiceQueue::new(1);
    queue.add_job_at(Job::new(6 * SECOND, 1), 0);
    for tick in 1..=40 {
        queue.advance(QUANTUM, tick * QUANTUM);
    }
    // exactly 4 s received: not beyond the threshold yet
    assert_eq!(queue.foreground.len(), 1);
    assert_eq!(queue.foreground[0].work_received, THRESHOLD_FG);
    queue.advance(QUANTUM, 41 * QUANTUM);
    assert!(queue.foreground.is_empty());
    assert_eq!(queue.background.len(), 1);
    assert_eq!(queue.background[0].work_received, THRESHOLD_FG + QUANTUM);
    assert_eq!(queue.background[0].remaining_duration, 6 * SECOND - 41 * QUANTUM);
    for tick in 42..=59 {
        queue.advance(QUANTUM, tick * QUANTUM);
        assert_eq!(queue.background.len(), 1);
        assert!(queue.fcfs.is_empty());
    }
    queue.advance(QUANTUM, 60 * QUANTUM);
    assert!(queue.is_finished());
    assert_eq!(queue.finished_jobs[0].from, Tier::Background);
    assert_eq!(queue.finished_jobs[0].job.turnaround(), Some(6 * SECOND));
}

#[test]
fn long_job_goes_through_every_tier() {
    let mut queue = ServiceQueue::new(1);
    queue.add_job_at(Job::new(10 * SECOND, 1), 0);
    let mut rank = 0;
    let mut tick = 0;
    let mut to_background = 0;
    let mut to_fcfs = 0;
    let mut into_execution = 0;
    while !queue.is_finished() {
        tick += 1;
        assert!(tick <= 200);
        queue.advance(QUANTUM, tick * QUANTUM);
        let now = if !queue.foreground.is_empty() {
            0
        } else if !queue.background.is_empty() {
            1
        } else if !queue.fcfs.is_empty() {
            2
        } else if queue.fcfs_running_job.is_some() {
            3
        } else {
            4
        };
        // never back to a tier above
        assert!(now >= rank);
        if now > rank {
            match now {
                1 => to_background = tick,
                2 => to_fcfs = tick,
                3 => into_execution = tick,
                _ => {},
            }
        }
        rank = now;
    }
    // beyond 4 s after 41 ticks, beyond 7.5 s after 76
    assert_eq!(to_background, 41);
    assert_eq!(to_fcfs, 76);
    // taking the job into execution serves it nothing
    assert_eq!(into_execution, 77);
    assert_eq!(tick, 101);
    let completion = queue.finished_jobs[0];
    assert_eq!(completion.from, Tier::Fcfs);
    assert_eq!(completion.job.work_received, 10 * SECOND);
    assert_eq!(completion.job.remaining_duration, 0);
    assert_eq!(completion.job.stop, Some(101 * QUANTUM));
}

#[test]
fn equal_jobs_share_the_quantum() {
    let mut queue = ServiceQueue::new(2);
    queue.add_job_at(Job::new(4 * SECOND, 1), 0);
    queue.add_job_at(Job::new(4 * SECOND, 2), 0);
    for tick in 1..=79 {
        queue.advance(QUANTUM, tick * QUANTUM);
        assert_eq!(queue.foreground.len(), 2);
        for job in queue.foreground.iter() {
            assert_eq!(job.work_received, tick * QUANTUM / 2);
            assert_eq!(job.remaining_duration, 4 * SECOND - tick * QUANTUM / 2);
        }
    }
    queue.advance(QUANTUM, 80 * QUANTUM);
    assert!(queue.is_finished());
    // both in the same tick, in admission order
    assert_eq!(queue.finished_jobs[0].job.id, 1);
    assert_eq!(queue.finished_jobs[1].job.id, 2);
    assert_eq!(queue.finished_jobs[0].job.stop, Some(80 * QUANTUM));
    assert_eq!(queue.finished_jobs[1].job.stop, Some(80 * QUANTUM));
    assert_eq!(queue.finished_jobs[0].from, Tier::Foreground);
    assert_eq!(queue.finished_jobs[1].from, Tier::Foreground);
}

#[test]
fn equal_long_jobs_are_demoted_in_the_same_tick() {
    let mut queue = ServiceQueue::new(2);
    queue.add_job_at(Job::new(5 * SECOND, 1), 0);
    queue.add_job_at(Job::new(5 * SECOND, 2), 0);
    for tick in 1..=80 {
        queue.advance(QUANTUM, tick * QUANTUM);
    }
    assert_eq!(queue.foreground.len(), 2);
    queue.advance(QUANTUM, 81 * QUANTUM);
    assert!(queue.foreground.is_empty());
    assert_eq!(queue.background.iter().map(|job| job.id).collect::<Vec<u64>>(), vec![1, 2]);
    let ticks = 81 + run_until(&mut queue, 2, 1_000);
    assert_eq!(ticks, 100);
    assert_eq!(queue.finished_jobs[0].job.id, 1);
    assert_eq!(queue.finished_jobs[1].job.id, 2);
}

#[test]
fn foreground_is_served_before_background_and_queue() {
    let mut queue = ServiceQueue::new(3);
    queue.add_background_job(live(2, 3 * SECOND, SECOND));
    queue.add_fcfs_job(live(3, 9 * SECOND, 8 * SECOND));
    queue.add_job_at(Job::new(SECOND, 1), 0);
    for tick in 1..=10 {
        queue.advance(QUANTUM, tick * QUANTUM);
        assert_eq!(queue.background[0].work_received, SECOND);
        assert_eq!(queue.background[0].remaining_duration, 2 * SECOND);
        assert_eq!(queue.fcfs[0].work_received, 8 * SECOND);
        assert!(queue.fcfs_running_job.is_none());
    }
    assert_eq!(queue.finished_jobs[0].job.id, 1);
    // then the background, and only then the queue
    queue.advance(QUANTUM, 11 * QUANTUM);
    assert_eq!(queue.background[0].work_received, SECOND + QUANTUM);
    assert_eq!(queue.fcfs.len(), 1);
}

#[test]
fn job_in_execution_is_served_before_the_foreground() {
    let mut queue = ServiceQueue::new(2);
    queue.add_fcfs_job(live(1, 9 * SECOND, 8 * SECOND));
    queue.advance(QUANTUM, 1);
    assert!(queue.fcfs.is_empty());
    let running = queue.fcfs_running_job.unwrap();
    assert_eq!(running.id, 1);
    assert_eq!(running.work_received, 8 * SECOND);
    queue.add_job_at(Job::new(SECOND, 2), 2);
    queue.advance(QUANTUM, 3);
    assert_eq!(queue.fcfs_running_job.unwrap().work_received, 8 * SECOND + QUANTUM);
    assert_eq!(queue.fcfs_running_job.unwrap().remaining_duration, SECOND - QUANTUM);
    assert_eq!(queue.foreground[0].work_received, 0);
    for tick in 0..9 {
        queue.advance(QUANTUM, 4 + tick);
    }
    assert!(queue.fcfs_running_job.is_none());
    assert_eq!(queue.finished_jobs[0].job.id, 1);
    assert_eq!(queue.finished_jobs[0].from, Tier::Fcfs);
    assert_eq!(queue.foreground[0].work_received, 0);
}

#[test]
fn queue_is_first_come_first_served() {
    let mut queue = ServiceQueue::new(2);
    queue.add_fcfs_job(live(1, 9 * SECOND, 8 * SECOND));
    queue.add_fcfs_job(live(2, 8 * SECOND + QUANTUM, 8 * SECOND));
    run_until(&mut queue, 2, 100);
    assert_eq!(queue.finished_jobs[0].job.id, 1);
    assert_eq!(queue.finished_jobs[1].job.id, 2);
    // 1 tick to start the first, 10 to serve it, 1 to start the second, 1 to serve it
    assert_eq!(queue.finished_jobs[0].job.stop, Some(11 * QUANTUM));
    assert_eq!(queue.finished_jobs[1].job.stop, Some(13 * QUANTUM));
}

#[test]
fn large_quantum_completes_with_the_whole_share_counted() {
    let mut queue = ServiceQueue::new(1);
    queue.add_job_at(Job::new(MAX_SPAN, 1), 0);
    queue.advance(MAX_SPAN, 1);
    assert!(queue.is_finished());
    assert_eq!(queue.finished_jobs[0].job.work_received, MAX_SPAN);
    let mut queue = ServiceQueue::new(1);
    queue.add_job_at(Job::new(1, 1), 0);
    queue.advance(MAX_SPAN, 1);
    assert_eq!(queue.finished_jobs[0].job.work_received, MAX_SPAN);
    assert_eq!(queue.finished_jobs[0].job.remaining_duration, 0);
}

#[test]
fn large_quantum_demotes_one_tier_at_a_time() {
    let mut queue = ServiceQueue::new(1);
    queue.add_job_at(Job::new(20 * SECOND, 1), 0);
    queue.advance(10 * SECOND, 1);
    // beyond both thresholds, but out of the foreground into the background
    assert_eq!(queue.background.len(), 1);
    assert!(queue.fcfs.is_empty());
    assert_eq!(queue.background[0].work_received, 10 * SECOND);
}

#[test]
fn zero_quantum_completes_only_jobs_of_no_size() {
    let mut queue = ServiceQueue::new(2);
    queue.add_job_at(Job::new(0, 1), 0);
    queue.add_job_at(Job::new(5, 2), 0);
    queue.advance(0, 1);
    assert_eq!(queue.finished_jobs.len(), 1);
    assert_eq!(queue.finished_jobs[0].job.id, 1);
    assert_eq!(queue.foreground.len(), 1);
    assert_eq!(queue.foreground[0].remaining_duration, 5);
}

#[test]
fn is_finished_does_not_change_between_calls() {
    let mut queue = ServiceQueue::new(1);
    assert_eq!(queue.is_finished(), queue.is_finished());
    queue.add_job_at(Job::new(QUANTUM, 1), 0);
    assert!(!queue.is_finished());
    assert!(!queue.is_finished());
    queue.advance(QUANTUM, 1);
    assert!(queue.is_finished());
    assert!(queue.is_finished());
}

#[test]
fn remaining_never_grows_and_jobs_stay_in_one_place() {
    let mut queue = ServiceQueue::new(4);
    let sizes = [3 * SECOND, 9 * SECOND, SECOND / 2, 12 * SECOND];
    for (i, size) in sizes.iter().enumerate() {
        queue.add_job_at(Job::new(*size, i as u64 + 1), 0);
    }
    let mut before = sizes.to_vec();
    let mut tick = 0;
    while !queue.is_finished() {
        tick += 1;
        assert!(tick < 10_000);
        queue.advance(QUANTUM, tick * QUANTUM);
        let mut seen = [0; 4];
        let mut all: Vec<Job> = Vec::new();
        all.extend(queue.foreground.iter());
        all.extend(queue.background.iter());
        all.extend(queue.fcfs.iter());
        all.extend(queue.fcfs_running_job.iter());
        all.extend(queue.finished_jobs.iter().map(|c| c.job));
        for job in all.iter() {
            let i = (job.id - 1) as usize;
            seen[i] += 1;
            assert!(job.remaining_duration <= before[i]);
            before[i] = job.remaining_duration;
        }
        assert_eq!(seen, [1, 1, 1, 1]);
        for completion in queue.finished_jobs.iter() {
            assert_eq!(completion.job.remaining_duration, 0);
            assert!(completion.job.has_ended());
        }
    }
}

#[test]
fn clock_stamps_do_not_run_backwards() {
    let mut queue = ServiceQueue::new(1);
    queue.add_job(Job::new(QUANTUM, 1));
    assert!(queue.foreground[0].start.is_some());
    queue.tick();
    assert!(queue.is_finished());
    let job = queue.finished_jobs[0].job;
    assert!(job.stop.unwrap() >= job.start.unwrap());
    assert_eq!(job.turnaround(), Some(job.stop.unwrap() - job.start.unwrap()));
}

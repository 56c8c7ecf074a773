//! A multi-level feedback queue scheduler over simulated time.
//!
//! Jobs are admitted to a foreground tier, served in fixed quanta, demoted to a
//! background tier and then to a first-come-first-served queue as the service
//! they have received grows, and timed from arrival to completion.
//!
//! - `job`: the jobs.
//! - `schedule`: the scheduler's state as a mathematical value, and the tick
//!   as a function on it.
//! - `queue`: the executable scheduler, specified against `schedule`.
//! - `laws`: what holds of every tick and every admission.
//! - `lemmas`: the facts about sequences that the proofs use.
//! - `clock`: the clock that stamps arrivals and completions.
//! - `traffic`: the workload of a run.
//! - `stats`, `simulation`: turnaround statistics.

pub mod clock;
pub mod job;
pub mod laws;
pub mod lemmas;
pub mod queue;
pub mod schedule;
pub mod simulation;
pub mod stats;
pub mod traffic;

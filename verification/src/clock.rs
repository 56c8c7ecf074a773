//! The scheduler's clock: nanoseconds elapsed since the clock was started.

use vstd::prelude::*;
use std::time::{Duration, Instant};

verus! {

#[verifier::external_type_specification]
#[verifier::external_body]
pub struct ExInstant(std::time::Instant);

/// `Instant::now`: the current reading of the monotonic system clock.
/// Nothing is claimed of the reading.
#[verifier::external_body]
fn instant_now() -> Instant {
    Instant::now()
}

/// `Instant::saturating_duration_since`: the time from `earlier` to `later`,
/// zero where `earlier` is the later of the two. Instants are opaque here, so
/// nothing is claimed of the amount.
#[verifier::external_body]
fn span_between(earlier: &Instant, later: &Instant) -> Duration {
    later.saturating_duration_since(*earlier)
}

/// `Duration::as_nanos`: the duration in whole nanoseconds. Durations are
/// opaque here, so nothing is claimed of the number.
#[verifier::external_body]
fn span_nanos(span: &Duration) -> u128 {
    span.as_nanos()
}

/// The timestamp for an elapsed time of `nanos` nanoseconds: the amount itself
/// where it fits in 64 bits, the largest timestamp where it does not.
pub open spec fn timestamp_of(nanos: u128) -> u64 {
    if nanos <= u64::MAX {
        nanos as u64
    } else {
        u64::MAX
    }
}

/// Turns an elapsed time into a timestamp.
pub fn timestamp(nanos: u128) -> (at: u64)
    ensures
        at == timestamp_of(nanos),
{
    if nanos <= u64::MAX as u128 {
        nanos as u64
    } else {
        u64::MAX
    }
}

/// A clock that counts nanoseconds from the moment it was started.
pub struct Clock {
    origin: Instant,
}

impl Clock {
    /// Starts a clock at the current instant. The instant is the system
    /// clock's alone to give, so nothing is promised of the clock.
    pub fn start() -> Clock {
        Clock { origin: instant_now() }
    }

    /// Reads the clock: the timestamp of the time elapsed since it was
    /// started. The reading depends on the system clock alone, so nothing is
    /// promised of it.
    pub fn now(&self) -> u64 {
        let current = instant_now();
        let elapsed = span_between(&self.origin, &current);
        timestamp(span_nanos(&elapsed))
    }
}

} // verus!

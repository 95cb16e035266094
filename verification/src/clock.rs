//! The clock of the menu: moments are counted in nanoseconds since it was started.

use std::time::Instant;

use vstd::prelude::*;

verus! {

/// `std::time::Instant`, a moment of the machine's monotonic clock. Nothing is said of what it
/// holds.
#[verifier::external_type_specification]
#[verifier::external_body]
pub struct ExInstant(Instant);

/// `Instant::now` reads the clock: any moment can come back.
pub assume_specification[ Instant::now ]() -> (now: Instant)
;

/// `Instant::elapsed`, in nanoseconds. It reads the clock: any time can have gone by.
#[verifier::external_body]
fn elapsed_nanos(since: &Instant) -> (nanos: u128) {
    since.elapsed().as_nanos()
}

/// A clock that counts from the moment at which it was started.
#[derive(Clone, Copy, Debug)]
pub struct Clock {
    start: Instant,
}

/// What a call for the time since some moment gives.
fn reading<F: Fn(&Instant) -> u128>(measure: F, since: &Instant) -> (nanos: u128)
    requires
        call_requires(measure, (since,)),
    ensures
        call_ensures(measure, (since,), nanos),
{
    measure(since)
}

impl Clock {
    /// Whether `now` is what reading this clock can give: what asking the machine for the time
    /// since the clock's start can.
    pub closed spec fn can_read(self, now: u128) -> bool {
        call_ensures(elapsed_nanos, (&self.start,), now)
    }

    /// Starts a clock.
    pub(crate) fn start() -> (clock: Clock) {
        Clock { start: Instant::now() }
    }

    /// The present moment. Nothing is said of how readings follow each other.
    pub(crate) fn now(&self) -> (now: u128)
        ensures
            self.can_read(now),
    {
        reading(elapsed_nanos, &self.start)
    }
}

/// A reading of a clock is what the machine gives for the time since its start, and nothing else
/// is.
proof fn law_readings_come_from_the_machine(clock: Clock, now: u128)
    ensures
        clock.can_read(now) <==> call_ensures(elapsed_nanos, (&clock.start,), now),
{
}

/// How much time lies between two moments; none where the second is not the later one.
pub open spec fn gone_by(since: u128, now: u128) -> u128 {
    if since <= now {
        (now - since) as u128
    } else {
        0
    }
}

/// How much time lies between two moments; none where the second is not the later one.
pub fn time_between(since: u128, now: u128) -> (time: u128)
    ensures
        time == gone_by(since, now),
{
    if since <= now {
        now - since
    } else {
        0
    }
}

} // verus!

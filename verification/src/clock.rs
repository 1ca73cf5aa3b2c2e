//! Time, in nanoseconds on a monotonic clock.
use std::time::{Duration, Instant};
use vstd::prelude::*;

verus! {

/// One second.
pub const SECOND: u128 = 1_000_000_000;

/// No reading of a [`Clock`] is later than this: the longest `Duration` that there is.
pub const LATEST: u128 = 18_446_744_073_709_551_615 * 1_000_000_000 + 999_999_999;

/// The moment that `std::time::Instant` holds stays hidden.
#[verifier::external_type_specification]
#[verifier::external_body]
pub struct ExInstant(Instant);

/// `Instant::now` reads the machine's monotonic clock. Nothing is claimed of the reading.
pub assume_specification[ Instant::now ]() -> Instant
;

/// `Instant::elapsed` tells how long ago an instant was. Nothing is claimed of the answer, which
/// rests on the machine's clock.
pub assume_specification[ Instant::elapsed ](instant: &Instant) -> Duration
;

/// `Duration::as_nanos` gives a duration in nanoseconds. The longest duration is `u64::MAX`
/// seconds and 999 999 999 nanoseconds.
pub assume_specification[ Duration::as_nanos ](duration: &Duration) -> (nanos: u128)
    ensures
        nanos <= LATEST,
;

/// A monotonic clock that counts from the moment at which it was made.
#[derive(Debug, Clone, Copy)]
pub struct Clock {
    start: Instant,
}

impl Clock {
    /// The moment from which the clock counts is one that a call of `Instant::now` may return.
    pub closed spec fn started(&self) -> bool {
        call_ensures(Instant::now, (), self.start)
    }

    /// The clock may read this: a number of nanoseconds that `Duration::as_nanos` may return for a
    /// time that `Instant::elapsed` may return for the moment from which the clock counts.
    pub closed spec fn reads(&self, nanos: u128) -> bool {
        exists|passed: Duration|
            call_ensures(Instant::elapsed, (&self.start,), passed) && #[trigger] call_ensures(
                Duration::as_nanos,
                (&passed,),
                nanos,
            )
    }

    /// No reading of a clock is later than [`LATEST`].
    pub proof fn reading_is_bounded(&self, nanos: u128)
        requires
            self.reads(nanos),
        ensures
            nanos <= LATEST,
    {
    }

    /// A clock that starts now.
    pub fn new() -> (clock: Self)
        ensures
            clock.started(),
    {
        Clock { start: Instant::now() }
    }

    /// The time since the clock was made. Which time it is rests on the machine.
    pub fn now(&self) -> (nanos: u128)
        ensures
            self.reads(nanos),
            nanos <= LATEST,
    {
        self.start.elapsed().as_nanos()
    }
}

/// A clock counts from a moment that `Instant::now` gave when it was made.
proof fn clock_starts_when_it_is_made(clock: Clock)
    requires
        call_ensures(Clock::new, (), clock),
    ensures
        call_ensures(Instant::now, (), clock.start),
{
}

/// What a clock reads is the time since that moment, in nanoseconds, as `Instant::elapsed` gave it.
proof fn reading_is_the_time_since_the_start(clock: &Clock, nanos: u128) -> (passed: Duration)
    requires
        clock.reads(nanos),
    ensures
        call_ensures(Instant::elapsed, (&clock.start,), passed),
        call_ensures(Duration::as_nanos, (&passed,), nanos),
{
    choose|passed: Duration|
        call_ensures(Instant::elapsed, (&clock.start,), passed) && #[trigger] call_ensures(
            Duration::as_nanos,
            (&passed,),
            nanos,
        )
}

/// How long `moment` lies back at the time `now`; nothing where it lies ahead.
pub open spec fn age(now: u128, moment: u128) -> u128 {
    if moment <= now {
        (now - moment) as u128
    } else {
        0
    }
}

/// Computes [`age`].
pub fn time_since(now: u128, moment: u128) -> (nanos: u128)
    ensures
        nanos == age(now, moment),
{
    if moment <= now {
        now - moment
    } else {
        0
    }
}

} // verus!

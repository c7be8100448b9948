//! Spans and points of monotonic time as plain values.

use vstd::prelude::*;

verus! {

/// A span of time.
#[derive(Clone, Copy, Debug, PartialEq, Eq, Structural)]
pub struct Duration {
    pub nanos: u128,
}

/// A point of monotonic time, counted from a start that all points share.
#[derive(Clone, Copy, Debug, PartialEq, Eq, Structural)]
pub struct Instant {
    pub nanos: u128,
}

impl Duration {
    pub fn from_secs(secs: u64) -> (r: Self)
        ensures
            r.nanos == secs * 1_000_000_000,
    {
        Duration { nanos: secs as u128 * 1_000_000_000 }
    }

    pub fn from_millis(millis: u64) -> (r: Self)
        ensures
            r.nanos == millis * 1_000_000,
    {
        Duration { nanos: millis as u128 * 1_000_000 }
    }

    /// The whole milliseconds, as far as 64 bits hold them.
    pub fn millis_timestamp(&self) -> (r: u64)
        ensures
            r == (self.nanos / 1_000_000) % 0x1_0000_0000_0000_0000,
    {
        let millis: u128 = self.nanos / 1_000_000;
        (millis % 0x1_0000_0000_0000_0000) as u64
    }

    pub fn is_zero(&self) -> (r: bool)
        ensures
            r == (self.nanos == 0),
    {
        self.nanos == 0
    }
}

/// Whether more than `timeout` has passed between the two points. No time has passed between a
/// point and an earlier one.
pub open spec fn timed_out(since: Instant, now: Instant, timeout: Duration) -> bool {
    now.nanos - since.nanos > timeout.nanos
}

impl Instant {
    /// Whether more than `timeout` has passed since `since`.
    pub fn timed_out(&self, since: Instant, timeout: Duration) -> (r: bool)
        ensures
            r == timed_out(since, *self, timeout),
    {
        self.nanos > since.nanos && self.nanos - since.nanos > timeout.nanos
    }
}

/// A point is out of time exactly when it is later than the other by more than the timeout.
pub proof fn out_of_time_is_later_than_allowed(since: Instant, now: Instant, timeout: Duration)
    ensures
        timed_out(since, now, timeout) <==> now.nanos > since.nanos + timeout.nanos,
{
}

} // verus!

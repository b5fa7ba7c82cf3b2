//! Readings of the two clocks, as plain numbers.
use vstd::prelude::*;

verus! {

/// Nanoseconds in a second.
pub const SECOND: u64 = 1_000_000_000;

/// How long an observation counts as fresh, in nanoseconds.
pub const FRESH: u64 = 5_000_000_000;

/// A reading of the wall clock: nanoseconds since the Unix epoch.
#[derive(Clone, Copy, Debug, PartialEq, Eq, Structural)]
pub struct Timestamp {
    pub nanos: i128,
}

/// A reading of the monotonic clock: nanoseconds since some fixed moment.
#[derive(Clone, Copy, Debug, PartialEq, Eq, Structural)]
pub struct Moment {
    pub nanos: u64,
}

impl DeepView for Timestamp {
    type V = Timestamp;

    open spec fn deep_view(&self) -> Timestamp {
        *self
    }
}

impl Timestamp {
    /// The moment that many seconds after the Unix epoch.
    pub open spec fn of_seconds(seconds: u64) -> Timestamp {
        Timestamp { nanos: (seconds * SECOND) as i128 }
    }

    /// The moment that many seconds after the Unix epoch.
    pub fn from_seconds(seconds: u64) -> (r: Timestamp)
        ensures
            r == Timestamp::of_seconds(seconds),
            r.nanos == seconds * SECOND,
    {
        assert(0 <= seconds * SECOND <= u64::MAX * SECOND) by (nonlinear_arith)
            requires
                0 <= seconds <= u64::MAX,
        ;
        Timestamp { nanos: seconds as i128 * SECOND as i128 }
    }

    /// Whether an observation of this time is fresh at `now`: not in the future
    /// and at most five seconds old.
    pub open spec fn fresh_at(self, now: Timestamp) -> bool {
        0 <= now.nanos - self.nanos <= FRESH
    }

    /// Whether an observation of this time is fresh at `now`.
    pub fn is_fresh(&self, now: Timestamp) -> (r: bool)
        ensures
            r == self.fresh_at(now),
    {
        match now.nanos.checked_sub(self.nanos) {
            Some(age) => 0 <= age && age <= FRESH as i128,
            None => false,
        }
    }
}

/// Whether an optional observation time is there and fresh.
pub open spec fn fresh(at: Option<Timestamp>, now: Timestamp) -> bool {
    match at {
        Some(at) => at.fresh_at(now),
        None => false,
    }
}

/// Whether an optional observation time is there and fresh.
pub fn is_fresh(at: Option<Timestamp>, now: Timestamp) -> (r: bool)
    ensures
        r == fresh(at, now),
{
    match at {
        Some(at) => at.is_fresh(now),
        None => false,
    }
}

} // verus!

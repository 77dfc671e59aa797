use vstd::prelude::*;

use crate::errors::ClientError;

verus! {

/// A span of wall-clock time, in nanoseconds. The trusting period, the
/// unbonding period and the maximum clock drift are all durations.
#[derive(Clone, Copy, PartialEq, Eq, Structural, Debug)]
pub struct Duration {
    pub nanos: u64,
}

impl Duration {
    pub fn from_nanos(nanos: u64) -> (r: Duration)
        ensures
            r == (Duration { nanos }),
    {
        Duration { nanos }
    }
}

/// A monotonic wall-clock instant, in nanoseconds since the epoch. The zero
/// instant is the "unset" sentinel: it is a valid value of the type but has
/// no Tendermint-time representation.
#[derive(Clone, Copy, PartialEq, Eq, Structural, Debug)]
pub struct Timestamp {
    pub nanos: u64,
}

impl Timestamp {
    pub fn from_nanos(nanos: u64) -> (r: Timestamp)
        ensures
            r == (Timestamp { nanos }),
    {
        Timestamp { nanos }
    }

    /// The instant at which a consensus state recorded at `self` stops being
    /// a valid trust anchor, in unbounded arithmetic.
    pub open spec fn spec_expiry(self, trusting_period: Duration) -> int {
        self.nanos + trusting_period.nanos
    }

    /// Adds a duration, failing with `Overflow` when the sum does not fit.
    pub fn checked_add(self, d: Duration) -> (r: Result<Timestamp, ClientError>)
        ensures
            self.spec_expiry(d) <= u64::MAX ==> r == Ok::<Timestamp, ClientError>(
                Timestamp { nanos: (self.nanos + d.nanos) as u64 }),
            self.spec_expiry(d) > u64::MAX ==> r == Err::<Timestamp, ClientError>(
                ClientError::Overflow),
    {
        match self.nanos.checked_add(d.nanos) {
            Some(n) => Ok(Timestamp { nanos: n }),
            None => Err(ClientError::Overflow),
        }
    }

    /// Whether the instant has a Tendermint-time representation; only the
    /// zero sentinel has none.
    pub open spec fn spec_tm_representable(self) -> bool {
        self.nanos > 0
    }

    /// Converts to a Tendermint-format time, or `None` for the zero
    /// sentinel.
    pub fn into_tm_time(self) -> (r: Option<Timestamp>)
        ensures
            self.spec_tm_representable() ==> r == Some(self),
            !self.spec_tm_representable() ==> r is None,
    {
        if self.nanos > 0 {
            Some(self)
        } else {
            None
        }
    }

    pub fn after(&self, other: &Timestamp) -> (r: bool)
        ensures
            r == (self.nanos > other.nanos),
    {
        self.nanos > other.nanos
    }
}

} // verus!

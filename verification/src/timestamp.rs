//! Points in time on the UTC time line, as plain numbers.

use std::cmp::Ordering;
use vstd::prelude::*;

use crate::constants::{
    LIVE_PEER_DURATION_SECONDS, MAX_TIMESTAMP_SECONDS, MIN_TIMESTAMP_SECONDS,
    TIMESTAMP_TRUNCATION_SECONDS,
};

verus! {

/// A point in time: whole seconds since the Unix epoch, and the nanoseconds
/// since the last second boundary.
#[derive(Copy, Clone, Debug, PartialEq, Eq, Structural)]
pub struct Timestamp {
    /// Seconds since 1970-01-01T00:00:00Z, negative before it.
    pub secs: i64,
    /// Nanoseconds since the last second boundary. During a leap second the
    /// count goes on past 999,999,999.
    pub nanos: u32,
}

impl Timestamp {
    /// A timestamp is well formed when its seconds lie in the supported range
    /// of years and its nanoseconds stay below two seconds.
    pub open spec fn wf(self) -> bool {
        &&& MIN_TIMESTAMP_SECONDS <= self.secs <= MAX_TIMESTAMP_SECONDS
        &&& self.nanos < 2_000_000_000
    }

    /// Earlier timestamps order first: by seconds, then by nanoseconds.
    pub open spec fn ordering(self, other: Self) -> Ordering {
        if self.secs < other.secs {
            Ordering::Less
        } else if self.secs > other.secs {
            Ordering::Greater
        } else if self.nanos < other.nanos {
            Ordering::Less
        } else if self.nanos > other.nanos {
            Ordering::Greater
        } else {
            Ordering::Equal
        }
    }

    /// Whether `self` is strictly later than `other`.
    pub open spec fn is_after(self, other: Self) -> bool {
        self.secs > other.secs || (self.secs == other.secs && self.nanos > other.nanos)
    }

    /// The start of the truncation bucket that holds this timestamp.
    pub open spec fn truncated(self) -> Self {
        Timestamp {
            secs: (self.secs - self.secs % TIMESTAMP_TRUNCATION_SECONDS) as i64,
            nanos: 0,
        }
    }

    /// The time before which a peer that responded is presumed disconnected,
    /// when the current time is `self`.
    pub open spec fn liveness_cutoff(self) -> Self {
        Timestamp {
            secs: if self.secs - LIVE_PEER_DURATION_SECONDS >= i64::MIN {
                (self.secs - LIVE_PEER_DURATION_SECONDS) as i64
            } else {
                i64::MIN
            },
            nanos: self.nanos,
        }
    }

    /// Makes a timestamp of whole seconds.
    pub fn from_secs(secs: i64) -> (t: Self)
        ensures
            t == (Timestamp { secs, nanos: 0 }),
    {
        Timestamp { secs, nanos: 0 }
    }

    /// Compares two timestamps, the earlier one first.
    pub fn cmp(&self, other: &Self) -> (o: Ordering)
        ensures
            o == self.ordering(*other),
    {
        if self.secs < other.secs {
            Ordering::Less
        } else if self.secs > other.secs {
            Ordering::Greater
        } else if self.nanos < other.nanos {
            Ordering::Less
        } else if self.nanos > other.nanos {
            Ordering::Greater
        } else {
            Ordering::Equal
        }
    }

    /// Tells whether `self` is strictly later than `other`.
    pub fn after(&self, other: &Self) -> (b: bool)
        ensures
            b == self.is_after(*other),
    {
        self.secs > other.secs || (self.secs == other.secs && self.nanos > other.nanos)
    }

    /// Truncates the timestamp to the start of its bucket of
    /// `TIMESTAMP_TRUNCATION_SECONDS` seconds.
    pub fn truncate(&self) -> (t: Self)
        requires
            self.secs - self.secs % TIMESTAMP_TRUNCATION_SECONDS >= i64::MIN,
        ensures
            t == self.truncated(),
            self.wf() ==> t.wf(),
            t.nanos == 0,
            t.secs % TIMESTAMP_TRUNCATION_SECONDS == 0,
            t.secs <= self.secs < t.secs + TIMESTAMP_TRUNCATION_SECONDS,
    {
        let offset: i64 = match self.secs.checked_rem_euclid(TIMESTAMP_TRUNCATION_SECONDS) {
            Some(r) => r,
            None => 0,
        };
        Timestamp { secs: self.secs - offset, nanos: 0 }
    }

    /// The liveness cutoff for the current time `self`: `LIVE_PEER_DURATION_SECONDS`
    /// earlier, stopping at the earliest second that can be held.
    pub fn cutoff(&self) -> (t: Self)
        ensures
            t == self.liveness_cutoff(),
    {
        let secs: i64 = if self.secs >= i64::MIN + LIVE_PEER_DURATION_SECONDS {
            self.secs - LIVE_PEER_DURATION_SECONDS
        } else {
            i64::MIN
        };
        Timestamp { secs, nanos: self.nanos }
    }
}

} // verus!

//! The wall clock.

use chrono::Utc;
use vstd::prelude::*;

use crate::timestamp::Timestamp;

verus! {

/// Reads the current UTC time with `chrono::Utc::now`, and takes its seconds
/// with `DateTime::timestamp` and its nanoseconds with
/// `DateTime::timestamp_subsec_nanos`.
///
/// Nothing is claimed of which time comes back, only that it lies in the
/// range of dates that `chrono` can hold, which is the range of a well formed
/// timestamp. `chrono` panics where the system clock stands before the Unix
/// epoch.
#[verifier::external_body]
pub(crate) fn utc_now() -> (now: Timestamp)
    ensures
        now.wf(),
{
    let now = Utc::now();
    Timestamp { secs: now.timestamp(), nanos: now.timestamp_subsec_nanos() }
}

} // verus!

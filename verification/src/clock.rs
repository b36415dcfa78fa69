//! Points in wall-clock time, and the whole seconds between two of them.

use vstd::prelude::*;

verus! {

/// A point in time: seconds since the Unix epoch and the nanoseconds since
/// that second began.
#[derive(Debug, Clone, Copy, PartialEq, Eq, Structural)]
pub struct Timestamp {
    pub secs: i64,
    pub nanos: u32,
}

/// Nanoseconds from `earlier` to `later`; negative where `later` comes first.
pub open spec fn nanos_between(earlier: Timestamp, later: Timestamp) -> int {
    (later.secs - earlier.secs) * 1_000_000_000 + (later.nanos - earlier.nanos)
}

/// Whole seconds from `earlier` to `later`: 0 where `later` is not after
/// `earlier`, and never more than a `u64` holds.
pub open spec fn seconds_between(earlier: Timestamp, later: Timestamp) -> int {
    if nanos_between(earlier, later) <= 0 {
        0
    } else if nanos_between(earlier, later) / 1_000_000_000 > u64::MAX {
        u64::MAX as int
    } else {
        nanos_between(earlier, later) / 1_000_000_000
    }
}

impl Timestamp {
    /// `chrono::Utc::now`, taken apart into whole seconds and nanoseconds.
    /// Nothing is claimed of the time that it gives. The call fails where
    /// the system clock stands before the Unix epoch.
    #[verifier::external_body]
    pub(crate) fn now() -> (now: Timestamp) {
        let now = chrono::Utc::now();
        Timestamp { secs: now.timestamp(), nanos: now.timestamp_subsec_nanos() }
    }

    /// Whole seconds that have passed from `self` to `later`, never negative.
    pub fn seconds_until(&self, later: Timestamp) -> (elapsed: u64)
        ensures
            elapsed == seconds_between(*self, later),
    {
        let whole: i128 = later.secs as i128 - self.secs as i128;
        let part: i128 = later.nanos as i128 - self.nanos as i128;
        let total: i128 = whole * 1_000_000_000 + part;
        if total <= 0 {
            0
        } else {
            let elapsed: i128 = total / 1_000_000_000;
            if elapsed > u64::MAX as i128 {
                u64::MAX
            } else {
                elapsed as u64
            }
        }
    }
}

} // verus!

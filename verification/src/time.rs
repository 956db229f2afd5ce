//! Points in time, as plain integers.

use vstd::prelude::*;

verus! {

/// A point in time: the whole seconds since the Unix epoch, and the nanoseconds
/// that have passed since that second began.
///
/// Two timestamps are ordered by seconds first and nanoseconds second.
#[derive(Clone, Copy, Debug, PartialEq, Eq, Structural)]
pub struct Timestamp {
    pub secs: i64,
    pub nanos: u32,
}

impl Timestamp {
    /// `self` lies strictly before `other`.
    pub open spec fn precedes(self, other: Timestamp) -> bool {
        self.secs < other.secs || (self.secs == other.secs && self.nanos < other.nanos)
    }

    /// `self` is `other` or lies after it.
    pub open spec fn reached(self, other: Timestamp) -> bool {
        !self.precedes(other)
    }

    /// Builds a timestamp from its two parts.
    pub fn new(secs: i64, nanos: u32) -> (t: Timestamp)
        ensures
            t.secs == secs,
            t.nanos == nanos,
    {
        Timestamp { secs, nanos }
    }

    /// Tells whether `self` lies strictly before `other`.
    pub fn is_before(&self, other: &Timestamp) -> (r: bool)
        ensures
            r == self.precedes(*other),
    {
        self.secs < other.secs || (self.secs == other.secs && self.nanos < other.nanos)
    }
}

/// Reads the system clock through `chrono::Utc::now` and splits the answer into
/// the seconds since the Unix epoch (`DateTime::timestamp`) and the nanoseconds
/// within that second (`DateTime::timestamp_subsec_nanos`).
///
/// Nothing is claimed of the value: two calls may return any two timestamps.
/// Like the clock call itself, this aborts if the system time is set before the
/// Unix epoch.
#[verifier::external_body]
pub(crate) fn current_time() -> (t: Timestamp) {
    let now = chrono::Utc::now();
    Timestamp { secs: now.timestamp(), nanos: now.timestamp_subsec_nanos() }
}

} // verus!

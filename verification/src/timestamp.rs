//! Points in time, as the curation rules read them.

use std::cmp::Ordering;
use vstd::prelude::*;

verus! {

/// A point in time, together with the offset of the clock it is shown on.
///
/// Two timestamps are ordered by `seconds`, then by `nanos`. The offset takes
/// no part in the order: it only says how the instant is written out.
#[derive(Clone, Copy, Debug)]
pub struct Timestamp {
    /// Whole seconds since 1970-01-01T00:00:00 UTC, leap seconds not counted.
    pub seconds: i64,
    /// Nanoseconds past `seconds`.
    pub nanos: u32,
    /// Seconds that the local clock is ahead of UTC.
    pub offset: i32,
}

impl Timestamp {
    /// True when `self` is strictly earlier than `other`.
    pub open spec fn earlier_than(self, other: Timestamp) -> bool {
        self.seconds < other.seconds || (self.seconds == other.seconds && self.nanos
            < other.nanos)
    }

    /// True when both name the same instant, whatever their offsets.
    pub open spec fn same_instant(self, other: Timestamp) -> bool {
        self.seconds == other.seconds && self.nanos == other.nanos
    }

    /// The chronological order of two timestamps.
    pub open spec fn chronological(self, other: Timestamp) -> Ordering {
        if self.earlier_than(other) {
            Ordering::Less
        } else if other.earlier_than(self) {
            Ordering::Greater
        } else {
            Ordering::Equal
        }
    }

    /// The instant `nanos` nanoseconds past `seconds`, shown on a clock
    /// `offset` seconds ahead of UTC.
    pub fn new(seconds: i64, nanos: u32, offset: i32) -> (t: Timestamp)
        ensures
            t.seconds == seconds,
            t.nanos == nanos,
            t.offset == offset,
    {
        Timestamp { seconds, nanos, offset }
    }

    /// Compares two timestamps chronologically.
    pub fn compare(&self, other: &Timestamp) -> (o: Ordering)
        ensures
            o == self.chronological(*other),
    {
        if self.seconds < other.seconds {
            Ordering::Less
        } else if self.seconds > other.seconds {
            Ordering::Greater
        } else if self.nanos < other.nanos {
            Ordering::Less
        } else if self.nanos > other.nanos {
            Ordering::Greater
        } else {
            Ordering::Equal
        }
    }

    /// The same instant, shown on a clock `offset` seconds ahead of UTC.
    pub fn with_offset(&self, offset: i32) -> (t: Timestamp)
        ensures
            t.seconds == self.seconds,
            t.nanos == self.nanos,
            t.offset == offset,
    {
        Timestamp { seconds: self.seconds, nanos: self.nanos, offset }
    }
}

impl PartialEq for Timestamp {
    fn eq(&self, other: &Timestamp) -> (r: bool) {
        self.seconds == other.seconds && self.nanos == other.nanos
    }
}

impl vstd::std_specs::cmp::PartialEqSpecImpl for Timestamp {
    open spec fn obeys_eq_spec() -> bool {
        true
    }

    open spec fn eq_spec(&self, other: &Timestamp) -> bool {
        self.same_instant(*other)
    }
}

} // verus!

//! Points in time, counted from the Unix epoch.

use vstd::prelude::*;

verus! {

/// A point in time: whole seconds since the Unix epoch and the nanoseconds
/// within that second.
#[derive(Debug, Clone, Copy, PartialEq, Eq, Structural)]
pub struct Timestamp {
    pub secs_since_epoch: u64,
    pub nanos_since_epoch: u32,
}

impl Timestamp {
    /// Whether this is the Unix epoch itself, which the merges use as the mark
    /// of a record that no fetch has confirmed.
    pub open spec fn is_epoch(self) -> bool {
        self.secs_since_epoch == 0 && self.nanos_since_epoch == 0
    }

    /// Strict chronological order.
    pub open spec fn earlier_than(self, other: Timestamp) -> bool {
        self.secs_since_epoch < other.secs_since_epoch || (self.secs_since_epoch
            == other.secs_since_epoch && self.nanos_since_epoch < other.nanos_since_epoch)
    }

    /// The later of two points in time.
    pub open spec fn later_of(self, other: Timestamp) -> Timestamp {
        if self.earlier_than(other) {
            other
        } else {
            self
        }
    }

    /// The Unix epoch.
    pub fn epoch() -> (t: Timestamp)
        ensures
            t.is_epoch(),
            t == (Timestamp { secs_since_epoch: 0, nanos_since_epoch: 0 }),
    {
        Timestamp { secs_since_epoch: 0, nanos_since_epoch: 0 }
    }

    /// A point in time `secs` seconds and `nanos` nanoseconds after the epoch.
    pub fn new(secs: u64, nanos: u32) -> (t: Timestamp)
        ensures
            t == (Timestamp { secs_since_epoch: secs, nanos_since_epoch: nanos }),
    {
        Timestamp { secs_since_epoch: secs, nanos_since_epoch: nanos }
    }

    /// Tests for the Unix epoch.
    pub fn is_unix_epoch(&self) -> (r: bool)
        ensures
            r == self.is_epoch(),
    {
        self.secs_since_epoch == 0 && self.nanos_since_epoch == 0
    }

    /// Tests whether `self` lies strictly before `other`.
    pub fn is_before(&self, other: &Timestamp) -> (r: bool)
        ensures
            r == self.earlier_than(*other),
    {
        self.secs_since_epoch < other.secs_since_epoch || (self.secs_since_epoch
            == other.secs_since_epoch && self.nanos_since_epoch < other.nanos_since_epoch)
    }
}

} // verus!

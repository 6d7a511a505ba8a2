//! Readings of a monotonic clock.

use vstd::prelude::*;

verus! {

/// Nanoseconds in a second.
pub const NANOS_PER_SEC: u64 = 1_000_000_000;

/// Nanoseconds in a tenth of a second.
pub const NANOS_PER_TENTH: u64 = 100_000_000;

/// A reading of the monotonic clock, in nanoseconds since an origin that the host chooses.
#[derive(Clone, Copy, Debug, PartialEq, Eq, Structural)]
pub struct Instant {
    pub nanos: u64,
}

impl Instant {
    /// The nanoseconds from `earlier` to `self`, or zero where `earlier` is the later one.
    pub open spec fn nanos_after(self, earlier: Instant) -> nat {
        if self.nanos >= earlier.nanos {
            (self.nanos - earlier.nanos) as nat
        } else {
            0
        }
    }

    /// The nanoseconds from `earlier` to `self`, or zero where `earlier` is the later one.
    pub fn nanos_since(self, earlier: Instant) -> (nanos: u64)
        ensures
            nanos == self.nanos_after(earlier),
    {
        if self.nanos >= earlier.nanos {
            self.nanos - earlier.nanos
        } else {
            0
        }
    }

    /// The whole seconds from `earlier` to `self`, or zero where `earlier` is the later one.
    pub fn secs_since(self, earlier: Instant) -> (secs: u64)
        ensures
            secs == self.nanos_after(earlier) / NANOS_PER_SEC as nat,
    {
        self.nanos_since(earlier) / NANOS_PER_SEC
    }
}

} // verus!

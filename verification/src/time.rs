//! Instants, as plain numbers.

use vstd::prelude::*;

verus! {

/// An instant in UTC: whole seconds since the Unix epoch, rounded down, and the
/// nanoseconds past them.
#[derive(Debug, Clone, Copy, PartialEq, Eq, Structural, PartialOrd, Ord, Hash)]
pub struct Timestamp {
    pub seconds: i64,
    pub nanos: u32,
}

impl DeepView for Timestamp {
    type V = Timestamp;

    open spec fn deep_view(&self) -> Timestamp {
        *self
    }
}

impl Timestamp {
    /// Whether the instant lies in the years 0 to 9999, within a second that is no leap
    /// second.
    pub open spec fn common(self) -> bool {
        -62_167_219_200 <= self.seconds <= 253_402_300_799 && self.nanos < 1_000_000_000
    }

    /// The start of the Unix epoch.
    pub fn unix_epoch() -> (r: Timestamp)
        ensures
            r == (Timestamp { seconds: 0, nanos: 0 }),
    {
        Timestamp { seconds: 0, nanos: 0 }
    }
}

} // verus!

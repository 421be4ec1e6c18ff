//! Points in time as plain numbers.

use vstd::prelude::*;

verus! {

/// A point in time, in nanoseconds after a fixed origin.
///
/// Restart windows count from any monotonic origin; event timestamps count
/// from the Unix epoch.
#[derive(Debug, Clone, Copy, PartialEq, Eq, Structural, Hash, PartialOrd, Ord)]
pub struct Timestamp {
    /// Nanoseconds after the origin.
    pub nanos: u128,
}

impl Timestamp {
    /// Creates a point in time.
    pub fn from_nanos(nanos: u128) -> (time: Self)
        ensures
            time == (Timestamp { nanos }),
    {
        Timestamp { nanos }
    }
}

} // verus!

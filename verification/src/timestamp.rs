//! Wall-clock instants carried by client input messages.

use vstd::prelude::*;

verus! {

/// A wall-clock instant as milliseconds since the Unix epoch.
#[derive(Debug, Clone, Copy, PartialEq, Eq, Structural)]
pub struct Timestamp(pub u64);

impl Timestamp {
    pub fn from_epoch_millis(epoch_millis: u64) -> (t: Timestamp)
        ensures
            t.0 == epoch_millis,
    {
        Timestamp(epoch_millis)
    }
}

/// A span of wall-clock time in milliseconds.
#[derive(Debug, Clone, Copy, PartialEq, Eq, Structural)]
pub struct TimeDelta(pub u64);

} // verus!

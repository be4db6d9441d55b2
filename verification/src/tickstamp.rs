//! The world's tick counter and differences between ticks.

use vstd::prelude::*;
use crate::random::{hash_u32, randomize_u32};

verus! {

/// Monotonic counter of world updates.
#[derive(Debug, Default, Clone, Copy, PartialEq, Eq, PartialOrd, Ord, Hash, Structural)]
pub struct Tickstamp(pub i64);

impl Tickstamp {
    pub fn increment(&mut self)
        requires
            old(self).0 < i64::MAX,
        ensures
            final(self).0 == old(self).0 + 1,
    {
        self.0 = self.0 + 1;
    }

    /// A hash seed derived from the counter.
    pub fn random_seed(&self) -> (r: u32)
        ensures
            r == self.random_seed_spec(),
    {
        randomize_u32(self.0 as u32 ^ 12345)
    }

    pub open spec fn random_seed_spec(&self) -> u32 {
        hash_u32(self.0 as u32 ^ 12345)
    }

    /// The tick `d` ticks later.
    pub fn advanced(self, d: TickDuration) -> (r: Tickstamp)
        requires
            i64::MIN <= self.0 + d.0 <= i64::MAX,
        ensures
            r.0 == self.0 + d.0,
    {
        Tickstamp(self.0 + d.0)
    }

    /// The duration since another tick.
    pub fn since(self, other: Tickstamp) -> (r: TickDuration)
        requires
            i64::MIN <= self.0 - other.0 <= i64::MAX,
        ensures
            r.0 == self.0 - other.0,
    {
        TickDuration(self.0 - other.0)
    }
}

/// A span of ticks.
#[derive(Debug, Default, Clone, Copy, PartialEq, Eq, PartialOrd, Ord, Structural)]
pub struct TickDuration(pub i64);

} // verus!

//! Periodic timers.

use vstd::prelude::*;

verus! {

/// A timer that fires once every `period`.
pub struct Interval {
    pub period: core::time::Duration,
}

/// A timer with the given period.
pub fn interval(period: core::time::Duration) -> (r: Interval)
    ensures
        r.period == period,
{
    Interval { period }
}

} // verus!

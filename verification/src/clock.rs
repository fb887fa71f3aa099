//! Readings of a monotonic clock, in nanoseconds since an origin that the
//! caller fixes once, for instance the start of the process.

use vstd::prelude::*;

verus! {

/// Nanoseconds in a second.
pub const NANOS_PER_SECOND: u64 = 1_000_000_000;

/// Time that passed from `earlier` to `now`; zero when the reading `now` is
/// not later than `earlier`.
pub open spec fn elapsed_since(earlier: u64, now: u64) -> int {
    if now >= earlier {
        now - earlier
    } else {
        0
    }
}

/// Time that passed from `earlier` to `now`.
pub fn elapsed(earlier: u64, now: u64) -> (nanos: u64)
    ensures
        nanos == elapsed_since(earlier, now),
{
    if now >= earlier {
        now - earlier
    } else {
        0
    }
}

} // verus!

//! Spans and points of time, in nanoseconds.

use vstd::prelude::*;

verus! {

/// A span of time, or a point of time since some fixed start, in nanoseconds.
pub type Nanos = u128;

/// One millisecond.
pub const MILLISECOND: Nanos = 1_000_000;

/// One second.
pub const SECOND: Nanos = 1_000_000_000;

/// The longest span: the largest count of seconds that 64 bits hold, and a nanosecond less than
/// one second more.
pub const LONGEST: Nanos = 18_446_744_073_709_551_615_999_999_999;

/// The smaller of two spans.
pub open spec fn shorter(left: Nanos, right: Nanos) -> Nanos {
    if left <= right {
        left
    } else {
        right
    }
}

/// The wait that follows the wait `current` in a series that doubles up to `limit`.
pub open spec fn doubled_up_to(current: Nanos, limit: Nanos) -> Nanos {
    shorter((current * 2) as Nanos, limit)
}

/// The wait that follows the wait `current` in a series that doubles up to `limit`.
pub fn double_up_to(current: Nanos, limit: Nanos) -> (next: Nanos)
    requires
        current * 2 <= LONGEST,
    ensures
        next == doubled_up_to(current, limit),
{
    let twice = current * 2;
    if twice <= limit {
        twice
    } else {
        limit
    }
}

} // verus!

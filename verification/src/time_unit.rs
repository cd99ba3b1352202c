//! The precision at which a recorded datetime is truncated when rendered.

use vstd::prelude::*;

verus! {

/// Granularity to which a stored timestamp is truncated for display.
///
/// Fields finer than the chosen unit are zeroed (or omitted, for `Day`)
/// when the value is rendered as an ISO-8601 string.
#[derive(Clone, Copy, Debug, PartialEq, Eq, Structural)]
pub enum TimeUnit {
    /// Full nanosecond resolution.
    Nanosecond,
    /// Truncate to whole microseconds.
    Microsecond,
    /// Truncate to whole milliseconds.
    Millisecond,
    /// Truncate to whole seconds.
    Second,
    /// Truncate to whole minutes.
    Minute,
    /// Truncate to whole hours.
    Hour,
    /// Truncate to whole days; the rendering carries no time-of-day part.
    Day,
}

} // verus!

//! Spans of time, in microseconds.

use vstd::prelude::*;

verus! {

/// A second.
pub const SECOND: i128 = 1_000_000;

/// A minute.
pub const MINUTE: i128 = 60_000_000;

/// A day.
pub const DAY: i128 = 86_400_000_000;

} // verus!

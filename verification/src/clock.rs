//! Points in time as plain numbers.
//!
//! Nothing here reads a clock: whoever calls the library reads the clocks and hands the readings
//! over.

use vstd::prelude::*;

verus! {

/// A reading of the monotonic clock, in nanoseconds from a fixed but unknown origin.
pub type Moment = i128;

/// Nanoseconds in one second.
pub const SECOND: i128 = 1_000_000_000;

/// The first moment that the monotonic clock can show: its seconds are an `i64`.
pub const MOMENT_MIN: i128 = -9_223_372_036_854_775_808_000_000_000;

/// The last moment that the monotonic clock can show.
pub const MOMENT_MAX: i128 = 9_223_372_036_854_775_807_999_999_999;

/// One reading of both clocks, taken at the same time.
#[derive(Clone, Copy, Debug, PartialEq, Eq, Structural)]
pub struct Clock {
    /// Whole seconds since the Unix epoch, zero where the system clock stands before it.
    pub unix_secs: i64,
    /// The monotonic clock.
    pub moment: Moment,
}

/// Can the monotonic clock show this moment?
pub open spec fn in_range(moment: int) -> bool {
    MOMENT_MIN <= moment <= MOMENT_MAX
}

/// The moment that lies `secs` seconds after `from`.
pub open spec fn plus(from: Moment, secs: int) -> int {
    from + secs * SECOND
}

/// Whole seconds from `earlier` to `now`, zero where `earlier` lies in the future.
pub open spec fn elapsed(now: Moment, earlier: Moment) -> int {
    if earlier <= now {
        (now - earlier) / (SECOND as int)
    } else {
        0
    }
}

/// The moment that lies `secs` seconds after `from`.
pub fn after(from: Moment, secs: u64) -> (r: Moment)
    requires
        in_range(from as int),
        in_range(plus(from, secs as int)),
    ensures
        r == plus(from, secs as int),
        in_range(r as int),
{
    from + secs as i128 * SECOND
}

/// Have at most `secs` whole seconds passed from `earlier` to `now`?
pub fn elapsed_at_most(now: Moment, earlier: Moment, secs: u64) -> (r: bool)
    ensures
        r == (elapsed(now, earlier) <= secs),
{
    if earlier > now {
        return true;
    }
    match now.checked_sub(earlier) {
        Some(passed) => passed / SECOND <= secs as i128,
        None => false,
    }
}

} // verus!

//! The two clocks: the UTC wall clock, read through `chrono`, and the monotonic clock of `std`.

use chrono::Utc;
use vstd::prelude::*;

verus! {

/// The latest second that `chrono` can represent.
pub const LAST_SECOND: i64 = 8_210_266_876_799;

/// Whether `t` is a Unix timestamp that the wall clock can show.
pub open spec fn is_wall_time(t: i64) -> bool {
    0 <= t <= LAST_SECOND
}

/// Whether the wall clock showed `t`. What that is stays inside this module: elsewhere only what a
/// reading of the clock returned is known to have been shown.
pub closed spec fn was_shown(t: i64) -> bool {
    is_wall_time(t)
}

/// `chrono::Utc::now` and `DateTime::timestamp`: the current Unix time in seconds. It is not
/// negative, because `now` accepts no time before the epoch, and not past the last second of the
/// last year that a `DateTime` can hold.
#[verifier::external_body]
pub(crate) fn unix_seconds() -> (t: i64)
    ensures
        was_shown(t),
        is_wall_time(t),
{
    Utc::now().timestamp()
}

/// The latest millisecond that `chrono` can represent.
pub const LAST_MILLISECOND: i64 = 8_210_266_876_799_999;

/// Whether `t` is a Unix timestamp in milliseconds that the wall clock can show.
pub open spec fn is_wall_millis(t: i64) -> bool {
    0 <= t <= LAST_MILLISECOND
}

/// Whether the wall clock showed `t`, in milliseconds. What that is stays inside this module:
/// elsewhere only what a reading of the clock returned is known to have been shown.
pub closed spec fn was_shown_millis(t: i64) -> bool {
    is_wall_millis(t)
}

/// `chrono::Utc::now` and `DateTime::timestamp_millis`: the current Unix time in milliseconds. It
/// is not negative, because `now` accepts no time before the epoch, and not past the last second
/// of the last year that a `DateTime` can hold.
#[verifier::external_body]
pub(crate) fn unix_millis() -> (t: i64)
    ensures
        was_shown_millis(t),
        is_wall_millis(t),
{
    Utc::now().timestamp_millis()
}

#[verifier::external_type_specification]
#[verifier::external_body]
pub struct ExInstant(std::time::Instant);

/// The nanoseconds that a `Duration` counts stay below this.
pub const NANOS_LIMIT: u128 = 18_446_744_073_709_551_616_000_000_000;

/// Whether `nanos` is a time that can have passed on the monotonic clock.
pub open spec fn is_reading(nanos: u128) -> bool {
    nanos < NANOS_LIMIT
}

/// Whether the monotonic clock showed that `nanos` had passed since `origin`. What that is stays
/// inside this module: elsewhere only what a reading of the clock against this origin returned is
/// known to have passed.
pub closed spec fn had_passed(origin: std::time::Instant, nanos: u128) -> bool {
    is_reading(nanos)
}

/// `std::time::Instant::now`: the monotonic clock's reading, of which nothing is claimed.
#[verifier::external_body]
pub(crate) fn monotonic_now() -> (instant: std::time::Instant) {
    std::time::Instant::now()
}

/// `std::time::Instant::elapsed`, in nanoseconds: the time since `origin`. A `Duration` holds a
/// `u64` of seconds and less than one second beyond, so the nanoseconds stay below the limit;
/// nothing more is claimed.
#[verifier::external_body]
pub(crate) fn nanos_since(origin: &std::time::Instant) -> (nanos: u128)
    ensures
        had_passed(*origin, nanos),
        is_reading(nanos),
{
    origin.elapsed().as_nanos()
}

} // verus!

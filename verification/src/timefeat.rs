//! Time-context features, from a Unix timestamp (UTC seconds).
//!
//! Hour of day and day of week are taken directly from the timestamp:
//! Unix time has no leap seconds, so the UTC hour is `(t / 3600) % 24`,
//! and since 1970-01-01 was a Thursday, the Monday-based weekday is
//! `(t / 86400 + 3) % 7`. Each is then scaled into `[0, MICRO)` by
//! dividing by 24 or 7.

use vstd::prelude::*;
use crate::MICRO;

verus! {

pub const SECONDS_PER_HOUR: u64 = 3600;

pub const SECONDS_PER_DAY: u64 = 86400;

/// UTC hour of day, `0 ..= 23`.
pub open spec fn spec_hour_of_day(timestamp: u64) -> int {
    ((timestamp / SECONDS_PER_HOUR) % 24) as int
}

/// Monday-based day of week, `0 ..= 6` (Monday is 0).
pub open spec fn spec_day_of_week(timestamp: u64) -> int {
    ((timestamp / SECONDS_PER_DAY + 3) % 7) as int
}

/// Hour of day scaled into `[0, MICRO)`: `hour * MICRO / 24`.
pub open spec fn spec_hour_feature(timestamp: u64) -> int {
    spec_hour_of_day(timestamp) * (MICRO as int) / 24
}

/// Day of week scaled into `[0, MICRO)`: `day * MICRO / 7`.
pub open spec fn spec_day_feature(timestamp: u64) -> int {
    spec_day_of_week(timestamp) * (MICRO as int) / 7
}

pub fn hour_of_day(timestamp: u64) -> (h: u64)
    ensures
        h == spec_hour_of_day(timestamp),
        h < 24,
{
    timestamp / SECONDS_PER_HOUR % 24
}

pub fn day_of_week(timestamp: u64) -> (d: u64)
    ensures
        d == spec_day_of_week(timestamp),
        d < 7,
{
    (timestamp / SECONDS_PER_DAY + 3) % 7
}

/// The hour-of-day feature in micros; always strictly below one unit.
pub fn hour_feature_micros(timestamp: u64) -> (r: u64)
    ensures
        r == spec_hour_feature(timestamp),
        r < MICRO,
{
    let h = hour_of_day(timestamp);
    h * MICRO / 24
}

/// The day-of-week feature in micros; always strictly below one unit.
pub fn day_feature_micros(timestamp: u64) -> (r: u64)
    ensures
        r == spec_day_feature(timestamp),
        r < MICRO,
{
    let d = day_of_week(timestamp);
    d * MICRO / 7
}

} // verus!

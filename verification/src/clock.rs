//! Wall-clock time as milliseconds since the Unix epoch, and calendar days.
use vstd::prelude::*;

verus! {

/// Milliseconds in a day.
pub const MILLIS_PER_DAY: i64 = 86_400_000i64;

/// Milliseconds in an hour.
pub const MILLIS_PER_HOUR: i64 = 3_600_000i64;

/// The current time.  Trusted: calls `chrono::Utc::now` and reads its
/// millisecond timestamp; nothing is promised of the value.
#[verifier::external_body]
pub fn now_millis() -> i64 {
    chrono::Utc::now().timestamp_millis()
}

/// Whole seconds of a millisecond timestamp, rounded down.
pub open spec fn secs_of(ms: i64) -> int {
    ms as int / 1000
}

/// The current time in whole seconds since the epoch: the clock's
/// millisecond reading rounded down (as `chrono`'s `timestamp` does).
pub fn now_secs() -> (r: i64)
    ensures
        exists|ms: i64| r == #[trigger] secs_of(ms),
{
    let ms = now_millis();
    let r = secs_of_millis(ms);
    assert(r == secs_of(ms));
    r
}

/// Whole seconds of a millisecond timestamp, rounded down.
pub fn secs_of_millis(ms: i64) -> (r: i64)
    ensures
        r == ms as int / 1000,
{
    if ms >= 0 {
        ms / 1000
    } else {
        let p: i64 = -(ms + 1);
        -(p / 1000) - 1
    }
}

/// The UTC calendar day (days since the epoch) of a timestamp.
pub open spec fn day_of(ms: int) -> int {
    if ms >= 0 {
        ms / (MILLIS_PER_DAY as int)
    } else {
        -((-ms - 1) / (MILLIS_PER_DAY as int)) - 1
    }
}

/// The UTC calendar day (days since the epoch) of a timestamp.
pub fn day_of_millis(ms: i64) -> (r: i64)
    ensures
        r == day_of(ms as int),
{
    if ms >= 0 {
        ms / MILLIS_PER_DAY
    } else {
        let p: i64 = -(ms + 1);
        -(p / MILLIS_PER_DAY) - 1
    }
}

/// Whole hours in a span, truncated toward zero (as `chrono::Duration::num_hours`).
pub open spec fn whole_hours(ms: int) -> int {
    if ms >= 0 {
        ms / (MILLIS_PER_HOUR as int)
    } else {
        -((-ms) / (MILLIS_PER_HOUR as int))
    }
}

/// Whole hours from `from` to `to`, truncated toward zero.
pub fn hours_between(from: i64, to: i64) -> (r: i64)
    ensures
        r == whole_hours(to - from),
{
    let d: i128 = to as i128 - from as i128;
    if d >= 0 {
        (d / (MILLIS_PER_HOUR as i128)) as i64
    } else {
        -((-d) / (MILLIS_PER_HOUR as i128)) as i64
    }
}

} // verus!

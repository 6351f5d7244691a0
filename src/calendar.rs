//! Calendar arithmetic on UTC timestamps held as seconds since the epoch.

use chrono::{DateTime, Datelike, TimeZone, Utc};
use vstd::arithmetic::div_mod::lemma_fundamental_div_mod_converse;
use vstd::prelude::*;

verus! {

pub const SECONDS_PER_DAY: i64 = 86400;

pub const SECONDS_PER_WEEK: i64 = 604800;

/// 0000-01-01T00:00:00Z, the first instant this library accepts.
pub const EARLIEST_TIMESTAMP: i64 = -62167219200;

/// 9999-12-31T23:59:59Z, the last instant this library accepts.
pub const LATEST_TIMESTAMP: i64 = 253402300799;

pub open spec fn supported_timestamp(t: int) -> bool {
    EARLIEST_TIMESTAMP <= t <= LATEST_TIMESTAMP
}

/// Midnight (00:00:00 UTC) of the day that holds `t`.
pub open spec fn day_start(t: int) -> int {
    (t / 86400) * 86400
}

/// Day of the week of `t`, counted from Monday (0) to Sunday (6).
/// 1970-01-01 was a Thursday.
pub open spec fn weekday_of(t: int) -> int {
    (t / 86400 + 3) % 7
}

/// Monday 00:00:00 UTC of the week that holds `t`.
pub open spec fn week_one_start(t: int) -> int {
    day_start(t) - weekday_of(t) * 86400
}

/// The calendar year (proleptic Gregorian, UTC) that holds `t`.
pub uninterp spec fn calendar_year(t: int) -> int;

/// The calendar month (1 to 12, UTC) that holds `t`.
pub uninterp spec fn calendar_month(t: int) -> int;

/// The timestamp of the first day of `month` in `year`, at 00:00:00 UTC.
pub uninterp spec fn month_start_of(year: int, month: int) -> int;

/// Relies on chrono's `DateTime::from_timestamp` and `Datelike::weekday`,
/// `Weekday::num_days_from_monday`: the day of the week of a UTC instant.
#[verifier::external_body]
fn weekday_from_monday(t: i64) -> (r: u32)
    requires
        supported_timestamp(t as int),
    ensures
        r as int == weekday_of(t as int),
{
    DateTime::from_timestamp(t, 0).unwrap().weekday().num_days_from_monday()
}

/// Relies on chrono's `DateTime::from_timestamp` and `Datelike::year`.
#[verifier::external_body]
pub(crate) fn year_of(t: i64) -> (r: i32)
    requires
        supported_timestamp(t as int),
    ensures
        r as int == calendar_year(t as int),
        0 <= r <= 9999,
{
    DateTime::from_timestamp(t, 0).unwrap().year()
}

/// Relies on chrono's `DateTime::from_timestamp` and `Datelike::month`,
/// which lies in 1 to 12.
#[verifier::external_body]
pub(crate) fn month_of(t: i64) -> (r: u32)
    requires
        supported_timestamp(t as int),
    ensures
        r as int == calendar_month(t as int),
        1 <= r <= 12,
{
    DateTime::from_timestamp(t, 0).unwrap().month()
}

/// Relies on chrono's `TimeZone::with_ymd_and_hms` for `Utc`, which is a
/// single instant for every valid date, and `DateTime::timestamp`.
#[verifier::external_body]
fn first_day_of_month(year: i32, month: u32) -> (r: i64)
    requires
        0 <= year <= 9999,
        1 <= month <= 12,
    ensures
        r as int == month_start_of(year as int, month as int),
{
    Utc.with_ymd_and_hms(year, month, 1, 0, 0, 0).unwrap().timestamp()
}

/// Midnight of the day that holds `t`.
pub fn start_of_day(t: i64) -> (r: i64)
    requires
        supported_timestamp(t as int),
    ensures
        r as int == day_start(t as int),
        r <= t,
        t - r < SECONDS_PER_DAY,
{
    let offset: i64 = t - EARLIEST_TIMESTAMP;
    let days: i64 = offset / SECONDS_PER_DAY;
    let rem: i64 = offset % SECONDS_PER_DAY;
    proof {
        assert(offset == days * 86400 + rem);
        assert(t as int == (days - 719528) * 86400 + rem) by (nonlinear_arith)
            requires
                offset == days * 86400 + rem,
                offset == t - (-62167219200),
        ;
        lemma_fundamental_div_mod_converse(t as int, 86400, days - 719528, rem as int);
    }
    EARLIEST_TIMESTAMP + days * SECONDS_PER_DAY
}

/// Monday 00:00:00 UTC of the week that holds `t`.
pub fn start_of_week(t: i64) -> (r: i64)
    requires
        supported_timestamp(t as int),
    ensures
        r as int == week_one_start(t as int),
        r <= t,
        t - r < SECONDS_PER_WEEK,
{
    let day = start_of_day(t);
    let back = weekday_from_monday(t);
    day - (back as i64) * SECONDS_PER_DAY
}

/// Midnight of the first day of the calendar month that holds `t`.
pub fn month_start(t: i64) -> (r: i64)
    requires
        supported_timestamp(t as int),
    ensures
        r as int == month_start_of(calendar_year(t as int), calendar_month(t as int)),
{
    let y = year_of(t);
    let m = month_of(t);
    first_day_of_month(y, m)
}

/// Midnight of the first day of `month` in `year`.
pub fn month_start_from_parts(year: i32, month: u32) -> (r: i64)
    requires
        0 <= year <= 9999,
        1 <= month <= 12,
    ensures
        r as int == month_start_of(year as int, month as int),
{
    first_day_of_month(year, month)
}

} // verus!

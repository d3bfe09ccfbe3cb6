//! Calls into the clock, the id generator and the calendar, each behind a
//! trusted wrapper with the contract the outside crate's documentation gives.

use vstd::prelude::*;

verus! {

/// The microsecond Unix timestamp of a civil date and time, as the calendar
/// (proleptic Gregorian, UTC, no leap seconds) defines it.
pub uninterp spec fn civil_timestamp(
    year: int,
    month: int,
    day: int,
    hour: int,
    min: int,
    sec: int,
) -> int;

/// Whether `year` is a leap year of the proleptic Gregorian calendar.
pub open spec fn spec_is_leap_year(year: int) -> bool {
    (year % 4 == 0 && year % 100 != 0) || year % 400 == 0
}

/// The number of days of `month` in `year`.
pub open spec fn spec_days_in_month(year: int, month: int) -> int {
    if month == 2 {
        if spec_is_leap_year(year) {
            29
        } else {
            28
        }
    } else if month == 4 || month == 6 || month == 9 || month == 11 {
        30
    } else {
        31
    }
}

/// The current time, in microseconds since the Unix epoch.
///
/// Relies on chrono's `Utc::now` and `DateTime::timestamp_micros`: the result
/// follows the system clock, so nothing is promised of its value.
#[verifier::external_body]
pub fn current_timestamp() -> i64 {
    chrono::Utc::now().timestamp_micros()
}

/// The microsecond Unix timestamp of the given civil date and time.
///
/// Relies on chrono's `NaiveDate::from_ymd_opt`, `NaiveDate::and_hms_opt` and
/// `NaiveDateTime::and_utc`: for a date and time within the ranges below they
/// return the calendar's value of that instant, a function of the arguments
/// alone.
#[verifier::external_body]
pub fn expiration_date(year: i32, month: i32, day: i32, hour: i32, min: i32, sec: i32) -> (r:
    i64)
    requires
        1 <= year <= 9999,
        1 <= month <= 12,
        1 <= day <= spec_days_in_month(year as int, month as int),
        0 <= hour <= 23,
        0 <= min <= 59,
        0 <= sec <= 59,
    ensures
        r == civil_timestamp(
            year as int,
            month as int,
            day as int,
            hour as int,
            min as int,
            sec as int,
        ),
{
    chrono::NaiveDate::from_ymd_opt(year, month as u32, day as u32)
        .unwrap()
        .and_hms_opt(hour as u32, min as u32, sec as u32)
        .unwrap()
        .and_utc()
        .timestamp_micros()
}

/// A freshly generated job identifier in hyphenated text form.
///
/// Relies on uuid's `Uuid::new_v4` and its `Display` impl: the hyphenated
/// form is always 36 characters. The value is random, so no two calls are
/// related.
#[verifier::external_body]
pub fn generate_job_id() -> (r: String)
    ensures
        r@.len() == 36,
{
    uuid::Uuid::new_v4().to_string()
}

} // verus!

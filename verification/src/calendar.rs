//! Calendar arithmetic, left to the chrono crate.

use vstd::prelude::*;

verus! {

/// Whether `chrono::NaiveDate::from_ymd_opt` has the first day of the month:
/// whether the month is one of the twelve and the year within chrono's range.
pub uninterp spec fn month_exists(year: i32, month: u32) -> bool;

/// The Unix time that chrono's `timestamp` gives for the first second, in
/// UTC, of a month that it has.
pub uninterp spec fn month_start_seconds(year: i32, month: u32) -> i64;

/// Whether `chrono::DateTime::from_timestamp` has the instant that many
/// seconds after the Unix epoch.
pub uninterp spec fn instant_exists(seconds: i64) -> bool;

/// The text that chrono's `to_rfc3339` gives for an instant that it has.
pub uninterp spec fn rfc3339_text(seconds: i64) -> Seq<char>;

/// The Unix time of the first second of a month, or `None` where the
/// calendar has no such month.
pub open spec fn month_start_of(year: i32, month: u32) -> Option<i64> {
    if month_exists(year, month) {
        Some(month_start_seconds(year, month))
    } else {
        None
    }
}

/// The RFC 3339 text of an instant in UTC, or `None` where the instant lies
/// outside the calendar.
pub open spec fn rendered(seconds: i64) -> Option<Seq<char>> {
    if instant_exists(seconds) {
        Some(rfc3339_text(seconds))
    } else {
        None
    }
}

/// Builds the first day of the month with `chrono::NaiveDate::from_ymd_opt`,
/// takes its midnight with `and_hms_opt(0, 0, 0)` and reads the Unix time of
/// that instant in UTC with `and_utc().timestamp()`. Trusted: the result is
/// `None` exactly where chrono has no such day, and is otherwise the Unix time
/// chrono gives.
#[verifier::external_body]
pub(crate) fn month_start(year: i32, month: u32) -> (r: Option<i64>)
    ensures
        r == if month_exists(year, month) {
            Some(month_start_seconds(year, month))
        } else {
            None::<i64>
        },
{
    match chrono::NaiveDate::from_ymd_opt(year, month, 1) {
        Some(day) => match day.and_hms_opt(0, 0, 0) {
            Some(midnight) => Some(midnight.and_utc().timestamp()),
            None => None,
        },
        None => None,
    }
}

/// Makes the instant with `chrono::DateTime::from_timestamp(seconds, 0)` and
/// writes it with `to_rfc3339`. Trusted: the result is `None` exactly where
/// chrono has no such instant, and is otherwise the text chrono writes.
#[verifier::external_body]
pub(crate) fn rfc3339(seconds: i64) -> (r: Option<String>)
    ensures
        match r {
            Some(text) => instant_exists(seconds) && text@ == rfc3339_text(seconds),
            None => !instant_exists(seconds),
        },
{
    match chrono::DateTime::from_timestamp(seconds, 0) {
        Some(instant) => Some(instant.to_rfc3339()),
        None => None,
    }
}

/// The Unix time of the first second of a month, where there is one.
pub fn start_of_month(year: i32, month: u32) -> (r: Option<i64>)
    ensures
        r == month_start_of(year, month),
{
    month_start(year, month)
}

} // verus!

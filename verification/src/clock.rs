//! Points in time.
//!
//! A point in time is a number of microseconds since 1 January 1970, UTC.

use chrono::{DateTime, NaiveDate};
use std::time::{SystemTime, UNIX_EPOCH};
use vstd::prelude::*;

verus! {

/// The compact text of a point in time, in UTC: year, month and day, an
/// underscore, then hour, minute and second (`%Y%m%d_%H%M%S`).  `None` where
/// the calendar does not reach that far.
pub uninterp spec fn utc_stamp(micros: int) -> Option<Seq<char>>;

/// `SystemTime::now`, taken since the epoch, made a point in time by
/// `DateTime::from_timestamp` and read as `timestamp_micros`: the current
/// time.  `None` where the clock of the system stands before 1970 or beyond
/// the years that the calendar holds.
#[verifier::external_body]
pub(crate) fn utc_now() -> (r: Option<i64>) {
    let since = SystemTime::now().duration_since(UNIX_EPOCH).ok()?;
    let seconds = i64::try_from(since.as_secs()).ok()?;
    let time = DateTime::from_timestamp(seconds, since.subsec_nanos())?;
    Some(time.timestamp_micros())
}

/// `DateTime::from_timestamp_micros` followed by `format` with
/// `%Y%m%d_%H%M%S`.  The text is a function of the point in time.
#[verifier::external_body]
pub(crate) fn format_utc(micros: i64) -> (r: Option<String>)
    ensures
        r matches Some(s) ==> utc_stamp(micros as int) == Some(s@),
        r is None ==> utc_stamp(micros as int) is None,
{
    let time = DateTime::from_timestamp_micros(micros)?;
    Some(time.format("%Y%m%d_%H%M%S").to_string())
}

/// The first second of the day that a text of the form `%Y-%m-%d` names, in
/// seconds since 1970, UTC.  `None` where the text names no day.
pub uninterp spec fn day_start(text: Seq<char>) -> Option<i64>;

/// `SystemTime::now`, as whole seconds since the epoch; `None` where the
/// clock of the system stands before the epoch.
#[verifier::external_body]
pub(crate) fn unix_now() -> (r: Option<i64>) {
    let since = SystemTime::now().duration_since(UNIX_EPOCH).ok()?;
    Some(since.as_secs() as i64)
}

/// `NaiveDate::parse_from_str` with `%Y-%m-%d`, taken at midnight UTC as
/// `timestamp`.  The result is a function of the text.
#[verifier::external_body]
pub(crate) fn parse_day(text: &str) -> (r: Option<i64>)
    ensures
        r == day_start(text@),
{
    let day = NaiveDate::parse_from_str(text, "%Y-%m-%d").ok()?;
    Some(day.and_hms_opt(0, 0, 0)?.and_utc().timestamp())
}

} // verus!

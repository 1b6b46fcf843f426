//! Times as milliseconds since the epoch, and their written forms.

use chrono::{Datelike, Timelike};
use vstd::prelude::*;

verus! {

/// The form in which the date of a request is stored.
pub const LOG_DATE_FORMAT: &'static str = "%Y-%m-%dT%H:%M:%S%.3fZ";

/// The form of the time from which a live-tail session reads the store.
pub const TAIL_DATE_FORMAT: &'static str = "%Y-%m-%dT%H:%M:%S.%3f";

/// The form in which the start of a chart interval is labelled.
pub const RESPONSE_LOG_DATE_FORMAT: &'static str = "%d-%m-%Y %H:%M:%S%.3f";

/// The time that an RFC 3339 text stands for, as chrono reads it; `None`
/// where chrono rejects the text.
pub uninterp spec fn rfc3339_millis(text: Seq<char>) -> Option<i64>;

/// The text that chrono writes for a time in UTC under a format; `None`
/// where the time is beyond the dates that chrono can hold.
pub uninterp spec fn formatted_time(millis: i64, format: Seq<char>) -> Option<Seq<char>>;

/// The RFC 3339 text that chrono writes for a time in UTC; `None` where the
/// time is beyond the dates that chrono can hold.
pub uninterp spec fn rfc3339_text(millis: i64) -> Option<Seq<char>>;

/// Whether `format` is one of the three forms that this library writes.
pub open spec fn known_format(format: Seq<char>) -> bool {
    format == LOG_DATE_FORMAT@ || format == TAIL_DATE_FORMAT@ || format
        == RESPONSE_LOG_DATE_FORMAT@
}

/// Calls `chrono::DateTime::parse_from_rfc3339` and gives the instant that
/// it read as `timestamp_millis` counts it. What chrono accepts is not
/// spelled out: the contract names the result.
#[verifier::external_body]
pub(crate) fn parse_rfc3339(text: &str) -> (millis: Option<i64>)
    ensures
        millis == rfc3339_millis(text@),
{
    match chrono::DateTime::parse_from_rfc3339(text) {
        Ok(time) => Some(time.timestamp_millis()),
        Err(_) => None,
    }
}

/// Calls `chrono::DateTime::format` on the UTC time that
/// `DateTime::from_timestamp_millis` makes of `millis`. The format must be
/// one of the three of this library, which chrono accepts; the text is named,
/// not spelled out.
#[verifier::external_body]
fn format_millis(millis: i64, format: &str) -> (text: Option<String>)
    requires
        known_format(format@),
    ensures
        match text {
            Some(written) => formatted_time(millis, format@) == Some(written@),
            None => formatted_time(millis, format@) is None,
        },
{
    match chrono::DateTime::from_timestamp_millis(millis) {
        Some(time) => Some(time.format(format).to_string()),
        None => None,
    }
}

/// Calls `chrono::DateTime::to_rfc3339` on the UTC time that
/// `DateTime::from_timestamp_millis` makes of `millis`. The text is named,
/// not spelled out.
#[verifier::external_body]
pub(crate) fn write_rfc3339(millis: i64) -> (text: Option<String>)
    ensures
        match text {
            Some(written) => rfc3339_text(millis) == Some(written@),
            None => rfc3339_text(millis) is None,
        },
{
    match chrono::DateTime::from_timestamp_millis(millis) {
        Some(time) => Some(time.to_rfc3339()),
        None => None,
    }
}

/// The time with its minute of the hour set to zero, as chrono's
/// `with_minute` gives it for the time in UTC; `None` where chrono holds no
/// such time.
pub uninterp spec fn minute_zero(millis: i64) -> Option<i64>;

/// The time with its hour of the day set to zero, as chrono's `with_hour`
/// gives it for the time in UTC; `None` where chrono holds no such time.
pub uninterp spec fn hour_zero(millis: i64) -> Option<i64>;

/// The time with its day set to the first of the month, as chrono's
/// `with_day0` gives it for the time in UTC; `None` where chrono holds no
/// such time.
pub uninterp spec fn first_of_month(millis: i64) -> Option<i64>;

/// The number of days from the Monday before to the day of the time in UTC,
/// as chrono counts them; `None` where chrono holds no such time.
pub uninterp spec fn days_from_monday(millis: i64) -> Option<u32>;

/// Calls `Timelike::with_minute` with zero on the UTC time that
/// `DateTime::from_timestamp_millis` makes of `millis`, and gives the result
/// as `timestamp_millis` counts it. The result is named, not spelled out.
#[verifier::external_body]
pub(crate) fn with_minute_zero(millis: i64) -> (start: Option<i64>)
    ensures
        start == minute_zero(millis),
{
    match chrono::DateTime::from_timestamp_millis(millis) {
        Some(time) => match time.naive_utc().with_minute(0) {
            Some(start) => Some(start.and_utc().timestamp_millis()),
            None => None,
        },
        None => None,
    }
}

/// Calls `Timelike::with_hour` with zero on the UTC time that
/// `DateTime::from_timestamp_millis` makes of `millis`, and gives the result
/// as `timestamp_millis` counts it. The result is named, not spelled out.
#[verifier::external_body]
pub(crate) fn with_hour_zero(millis: i64) -> (start: Option<i64>)
    ensures
        start == hour_zero(millis),
{
    match chrono::DateTime::from_timestamp_millis(millis) {
        Some(time) => match time.naive_utc().with_hour(0) {
            Some(start) => Some(start.and_utc().timestamp_millis()),
            None => None,
        },
        None => None,
    }
}

/// Calls `Datelike::with_day0` with zero on the UTC time that
/// `DateTime::from_timestamp_millis` makes of `millis`, and gives the result
/// as `timestamp_millis` counts it. The result is named, not spelled out.
#[verifier::external_body]
pub(crate) fn with_first_day(millis: i64) -> (start: Option<i64>)
    ensures
        start == first_of_month(millis),
{
    match chrono::DateTime::from_timestamp_millis(millis) {
        Some(time) => match time.naive_utc().with_day0(0) {
            Some(start) => Some(start.and_utc().timestamp_millis()),
            None => None,
        },
        None => None,
    }
}

/// Calls `Weekday::num_days_from_monday` on the weekday of the UTC time that
/// `DateTime::from_timestamp_millis` makes of `millis`. The number is named;
/// the contract adds that it is under seven, Monday being zero and Sunday
/// six.
#[verifier::external_body]
pub(crate) fn weekday_from_monday(millis: i64) -> (days: Option<u32>)
    ensures
        days == days_from_monday(millis),
        days matches Some(count) ==> count < 7,
{
    match chrono::DateTime::from_timestamp_millis(millis) {
        Some(time) => Some(time.naive_utc().weekday().num_days_from_monday()),
        None => None,
    }
}

/// Writes a time in the form in which the date of a request is stored.
pub fn log_date(millis: i64) -> (text: Option<String>)
    ensures
        match text {
            Some(written) => formatted_time(millis, LOG_DATE_FORMAT@) == Some(written@),
            None => formatted_time(millis, LOG_DATE_FORMAT@) is None,
        },
{
    format_millis(millis, LOG_DATE_FORMAT)
}

/// Writes a time in the form from which a live-tail session reads the store.
pub fn tail_date(millis: i64) -> (text: Option<String>)
    ensures
        match text {
            Some(written) => formatted_time(millis, TAIL_DATE_FORMAT@) == Some(written@),
            None => formatted_time(millis, TAIL_DATE_FORMAT@) is None,
        },
{
    format_millis(millis, TAIL_DATE_FORMAT)
}

/// Writes a time in the form in which a chart interval is labelled.
pub fn chart_date(millis: i64) -> (text: Option<String>)
    ensures
        match text {
            Some(written) => formatted_time(millis, RESPONSE_LOG_DATE_FORMAT@) == Some(written@),
            None => formatted_time(millis, RESPONSE_LOG_DATE_FORMAT@) is None,
        },
{
    format_millis(millis, RESPONSE_LOG_DATE_FORMAT)
}

} // verus!

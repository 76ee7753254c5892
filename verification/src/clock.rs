//! The calls into `chrono`: the current time, and the RFC 3339 and
//! calendar-date texts of instants.

use vstd::prelude::*;
use crate::model::{time_ok, TIME_LIMIT_MS};
use chrono::{DateTime, NaiveDate, Utc};

verus! {

/// Calls `chrono::Utc::now` and gives its milliseconds since the epoch.
/// Nothing is said of the value but that it lies in the range every UTC
/// date-time has (chrono keeps its dates within about 262,000 years of
/// 1970, inside `TIME_LIMIT_MS`).
#[verifier::external_body]
pub(crate) fn now_ms() -> (r: i64)
    ensures
        time_ok(r),
{
    Utc::now().timestamp_millis()
}

/// What `DateTime::<Utc>::to_rfc3339` writes for the instant `ms`
/// milliseconds after the epoch (empty where chrono holds no such instant).
pub uninterp spec fn rfc3339_text(ms: i64) -> Seq<char>;

/// Calls `DateTime::<Utc>::from_timestamp_millis` and then `to_rfc3339`:
/// the RFC 3339 text of the instant, e.g. `2024-01-15T10:00:00+00:00`.
/// Where chrono holds no such instant, the text is empty. The contract only
/// names the result.
#[verifier::external_body]
pub(crate) fn rfc3339_of(ms: i64) -> (r: String)
    ensures
        r@ == rfc3339_text(ms),
{
    match DateTime::<Utc>::from_timestamp_millis(ms) {
        Some(d) => d.to_rfc3339(),
        None => String::new(),
    }
}

/// The instant that `DateTime::parse_from_rfc3339` reads from a text, in
/// milliseconds since the epoch.
pub uninterp spec fn rfc3339_instant(s: Seq<char>) -> Option<i64>;

/// Calls `DateTime::parse_from_rfc3339` and gives the instant in UTC
/// milliseconds; `None` where chrono rejects the text. Every instant it
/// reads lies in chrono's range, hence within `TIME_LIMIT_MS`.
#[verifier::external_body]
pub(crate) fn parse_rfc3339(s: &str) -> (r: Option<i64>)
    ensures
        r == rfc3339_instant(s@),
        r matches Some(t) ==> time_ok(t),
{
    match DateTime::parse_from_rfc3339(s) {
        Ok(d) => Some(d.with_timezone(&Utc).timestamp_millis()),
        Err(_) => None,
    }
}

/// The instant of midnight UTC that `NaiveDate::parse_from_str` with the
/// format `%Y-%m-%d` reads from a text, in milliseconds since the epoch.
pub uninterp spec fn ymd_instant(s: Seq<char>) -> Option<i64>;

/// Calls `NaiveDate::parse_from_str(s, "%Y-%m-%d")` and gives midnight UTC
/// of that date in milliseconds; `None` where chrono rejects the text.
#[verifier::external_body]
pub(crate) fn parse_ymd(s: &str) -> (r: Option<i64>)
    ensures
        r == ymd_instant(s@),
        r matches Some(t) ==> time_ok(t),
{
    match NaiveDate::parse_from_str(s, "%Y-%m-%d") {
        Ok(date) => date.and_hms_opt(0, 0, 0).map(|ndt| ndt.and_utc().timestamp_millis()),
        Err(_) => None,
    }
}

/// The patterns that tables write times with.
pub open spec fn table_pattern(p: Seq<char>) -> bool {
    p == "%Y-%m-%d %H:%M:%S"@ || p == "%Y-%m-%d %H:%M:%S UTC"@ || p == "%Y-%m-%d %H:%M"@ || p == "%H:%M:%S%.3f"@
}

/// What `DateTime::<Utc>::format` writes for the instant `ms` milliseconds
/// after the epoch with the given pattern (empty where chrono holds no such
/// instant).
pub uninterp spec fn utc_text(ms: i64, pattern: Seq<char>) -> Seq<char>;

/// Calls `DateTime::<Utc>::from_timestamp_millis` and `format` with one of
/// the table patterns (all of whose specifiers chrono knows, so writing
/// cannot fail); the text is empty where chrono holds no such instant. The
/// contract only names the result.
#[verifier::external_body]
pub(crate) fn format_utc(ms: i64, pattern: &str) -> (r: String)
    requires
        table_pattern(pattern@),
    ensures
        r@ == utc_text(ms, pattern@),
{
    match DateTime::<Utc>::from_timestamp_millis(ms) {
        Some(d) => d.format(pattern).to_string(),
        None => String::new(),
    }
}

} // verus!

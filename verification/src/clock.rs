//! Time as whole seconds since the Unix epoch, and the text form in which timestamps
//! are stored.

use chrono::{DateTime, Utc};
use vstd::prelude::*;

verus! {

/// No clock reading lies beyond this many seconds after the epoch: the calendar behind
/// the clock ends before the year 262144.
pub const MAX_CLOCK_SECONDS: i64 = 10_000_000_000_000;

/// Trusted: `chrono::Utc::now().timestamp()`. The call fails hard on a clock set before
/// 1970, so every reading it returns is non-negative, and the calendar it is made from
/// ends before the year 262144. Which reading comes is up to the machine's clock.
#[verifier::external_body]
pub(crate) fn unix_now() -> (now: i64)
    ensures
        0 <= now <= MAX_CLOCK_SECONDS,
{
    Utc::now().timestamp()
}

/// Trusted: `chrono::Utc::now().timestamp_subsec_millis()`, the milliseconds since the
/// last full second. Nothing is stated of the reading.
#[verifier::external_body]
pub(crate) fn subsec_millis_now() -> u32 {
    Utc::now().timestamp_subsec_millis()
}

/// The Unix seconds of an RFC 3339 date-and-time text, where it is one.
pub uninterp spec fn rfc3339_seconds(text: Seq<char>) -> Option<i64>;

/// Trusted: `chrono::DateTime::parse_from_rfc3339` followed by `timestamp`. The result
/// depends on the text alone.
#[verifier::external_body]
pub(crate) fn parse_rfc3339(text: &str) -> (r: Option<i64>)
    ensures
        r == rfc3339_seconds(text@),
{
    DateTime::parse_from_rfc3339(text).ok().map(|at| at.timestamp())
}

/// The RFC 3339 text, in UTC, of a count of Unix seconds that the calendar can hold.
pub uninterp spec fn rfc3339_text(seconds: i64) -> Option<Seq<char>>;

/// Trusted: `chrono::DateTime::from_timestamp` followed by `to_rfc3339`. The result
/// depends on the count of seconds alone.
#[verifier::external_body]
pub(crate) fn format_rfc3339(seconds: i64) -> (r: Option<String>)
    ensures
        match r {
            Some(text) => rfc3339_text(seconds) == Some(text@),
            None => rfc3339_text(seconds) is None,
        },
{
    DateTime::<Utc>::from_timestamp(seconds, 0).map(|at| at.to_rfc3339())
}

/// The current time in whole seconds since the Unix epoch.
pub fn current_unix_time() -> (now: i64)
    ensures
        0 <= now <= MAX_CLOCK_SECONDS,
{
    unix_now()
}

/// Reads a stored timestamp. A missing or unreadable value gives `None`.
pub fn parse_rfc3339_opt(value: &Option<String>) -> (r: Option<i64>)
    ensures
        r == match *value {
            Some(text) => rfc3339_seconds(text@),
            None => None,
        },
{
    match value {
        Some(text) => parse_rfc3339(text.as_str()),
        None => None,
    }
}

/// The stored form of the instant `delay` seconds after `now`; `None` where that instant
/// cannot be counted or lies outside the calendar.
pub fn rfc3339_after(now: i64, delay: i64) -> (r: Option<String>)
    ensures
        match r {
            Some(text) => i64::MIN <= now + delay <= i64::MAX && rfc3339_text((now + delay) as i64)
                == Some(text@),
            None => !(i64::MIN <= now + delay <= i64::MAX) || rfc3339_text((now + delay) as i64) is None,
        },
{
    match now.checked_add(delay) {
        Some(at) => format_rfc3339(at),
        None => None,
    }
}

} // verus!

//! The clock, and times of day as text.

use std::time::{Duration, SystemTime, SystemTimeError};
use vstd::prelude::*;

verus! {

/// `std::time::SystemTime`, a reading of the clock. Nothing is known of what
/// it holds.
#[verifier::external_type_specification]
#[verifier::external_body]
pub struct ExSystemTime(SystemTime);

/// `std::time::SystemTimeError`, the error of a clock that stands before the
/// time it is compared with. Nothing is known of what it holds.
#[verifier::external_type_specification]
#[verifier::external_body]
pub struct ExSystemTimeError(SystemTimeError);

/// Reads the clock with `SystemTime::now`. Nothing is claimed of the
/// result: it is whatever the machine says.
#[verifier::external_body]
fn system_now() -> SystemTime {
    SystemTime::now()
}

/// The time that has passed between the start of 1970 and `at`, by
/// `SystemTime::duration_since`; an error for a time before that. Nothing is
/// claimed of the result.
#[verifier::external_body]
fn since_epoch(at: &SystemTime) -> Result<Duration, SystemTimeError> {
    at.duration_since(SystemTime::UNIX_EPOCH)
}

/// The whole seconds of `d`, by `Duration::as_secs`. Nothing is claimed of
/// the result.
#[verifier::external_body]
fn whole_seconds(d: &Duration) -> u64 {
    d.as_secs()
}

/// The seconds since the start of 1970, as the machine's clock has them.
///
/// Nothing can be said of the number but that it is the clock's: two calls
/// may answer differently, and a clock that was set back may answer less.
pub fn now_time() -> Result<u64, SystemTimeError> {
    let at = system_now();
    match since_epoch(&at) {
        Ok(d) => Ok(whole_seconds(&d)),
        Err(e) => Err(e),
    }
}

/// What reading `text` as a date and time of the form `format` comes to: the
/// seconds between the start of 1970 and that time, taken as a time of the
/// zone UTC, or the text of the error.
pub uninterp spec fn naive_timestamp(text: Seq<char>, format: Seq<char>) -> Result<i64, Seq<char>>;

/// Reads `text` with `chrono::NaiveDateTime::parse_from_str` and hands out
/// the time as seconds, by `and_utc` and `timestamp`. Believed, not proved:
/// the outcome depends on the two strings alone, the error being the one
/// that `Display` shows.
#[verifier::external_body]
fn parse_naive(text: &str, format: &str) -> (out: Result<i64, String>)
    ensures
        match out {
            Ok(t) => naive_timestamp(text@, format@) == Ok::<i64, Seq<char>>(t),
            Err(e) => naive_timestamp(text@, format@) == Err::<i64, Seq<char>>(e@),
        },
{
    match chrono::NaiveDateTime::parse_from_str(text, format) {
        Ok(dt) => Ok(dt.and_utc().timestamp()),
        Err(e) => Err(e.to_string()),
    }
}

/// The form in which requests name a time: year, month and day with
/// hyphens, then hour, minute and second with colons.
pub open spec fn time_format() -> Seq<char> {
    "%Y-%m-%d %H:%M:%S"@
}

/// Reads a time as requests name it, without regard to any time zone: the
/// answer counts the seconds as if the time were one of the zone UTC.
pub fn naive_time(str_time: &str) -> (out: Result<i64, String>)
    ensures
        match out {
            Ok(t) => naive_timestamp(str_time@, time_format()) == Ok::<i64, Seq<char>>(t),
            Err(e) => naive_timestamp(str_time@, time_format()) == Err::<i64, Seq<char>>(e@),
        },
{
    parse_naive(str_time, "%Y-%m-%d %H:%M:%S")
}

/// The time that a request names, if it names one: an empty text names
/// none.
pub fn named_time(send_time: &Option<String>) -> (out: Option<&str>)
    ensures
        match out {
            Some(t) => send_time is Some && send_time->0@.len() > 0 && t@ == send_time->0@,
            None => send_time is None || send_time->0@.len() == 0,
        },
{
    match send_time {
        Some(t) => if t.as_str().unicode_len() == 0 {
            None
        } else {
            Some(t.as_str())
        },
        None => None,
    }
}

} // verus!

//! Requests of an application to send or withdraw SMS.

use crate::common::time::{naive_time, naive_timestamp, named_time, time_format};
use vstd::prelude::*;

verus! {

/// A request to send SMS.
#[derive(Debug)]
pub struct SmsSendParam {
    pub mobile: Vec<String>,
    pub tpl: String,
    pub data: String,
    pub cancel: Option<String>,
    pub send_time: Option<String>,
}

/// A request to withdraw SMS, by the key that was given when they were sent.
#[derive(Debug)]
pub struct SmsCancelParam {
    pub cancel: String,
}

/// The seconds that the times of requests are ahead of UTC.
pub const ZONE_SECONDS: u64 = 28800;

/// The moment that a time of day, read without regard to any zone as
/// `seconds` after the start of 1970, names in the zone of the requests:
/// `ZONE_SECONDS` earlier, in arithmetic modulo 2^64.
pub open spec fn zone_time(seconds: i64) -> u64 {
    if seconds >= ZONE_SECONDS {
        (seconds - ZONE_SECONDS) as u64
    } else {
        (0x1_0000_0000_0000_0000 + seconds - ZONE_SECONDS) as u64
    }
}

/// Moves a time of day that was read without regard to any zone into the
/// zone of the requests.
pub fn to_zone_time(seconds: i64) -> (out: u64)
    ensures
        out == zone_time(seconds),
{
    if seconds >= 28800 {
        (seconds - 28800) as u64
    } else if seconds >= 0 {
        u64::MAX - (28799 - seconds) as u64
    } else {
        // `seconds` is negative: its distance from -1 fits in 63 bits.
        let below: u64 = (-1 - seconds) as u64;
        u64::MAX - 28800 - below
    }
}

/// The time at which an SMS is to be sent, once the time that the request
/// names, if any, was read and came to `parsed`.
pub open spec fn send_time_of(named: bool, parsed: Result<i64, Seq<char>>) -> Result<
    Option<u64>,
    Seq<char>,
> {
    if !named {
        Ok(None)
    } else {
        match parsed {
            Ok(t) => Ok(Some(zone_time(t))),
            Err(e) => Err(e),
        }
    }
}

/// The view of what reading a time comes to.
pub open spec fn time_view(r: Result<Option<u64>, String>) -> Result<Option<u64>, Seq<char>> {
    match r {
        Ok(t) => Ok(t),
        Err(e) => Err(e@),
    }
}

/// The view of what reading a time of day comes to.
pub open spec fn parsed_view(r: Result<i64, String>) -> Result<i64, Seq<char>> {
    match r {
        Ok(t) => Ok(t),
        Err(e) => Err(e@),
    }
}

/// Settles the time at which an SMS is to be sent from what reading the
/// named time came to.
pub fn send_time_result(named: bool, parsed: Result<i64, String>) -> (out: Result<
    Option<u64>,
    String,
>)
    ensures
        time_view(out) == send_time_of(named, parsed_view(parsed)),
{
    if !named {
        Ok(None)
    } else {
        match parsed {
            Ok(t) => Ok(Some(to_zone_time(t))),
            Err(e) => Err(e),
        }
    }
}

/// The time at which the SMS of a request is to be sent: none where the
/// request names none, or names it with an empty text.
pub fn sms_send_time(param: &SmsSendParam) -> (out: Result<Option<u64>, String>)
    ensures
        time_view(out) == match param.send_time {
            Some(t) => send_time_of(t@.len() > 0, naive_timestamp(t@, time_format())),
            None => Ok(None),
        },
{
    match named_time(&param.send_time) {
        Some(t) => send_time_result(true, naive_time(t)),
        None => Ok(None),
    }
}

} // verus!

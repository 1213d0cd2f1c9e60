//! The machine's clock and time zone, read through `chrono` and
//! `iana-time-zone`.
//!
//! What the clock and the time zone give depends on the moment of the call
//! and on the machine's configuration, so nothing is stated of those values:
//! the functions that use them are verified for every value they could
//! return.
use chrono::{Local, NaiveTime};
use vstd::prelude::*;

verus! {

#[verifier::external_type_specification]
#[verifier::external_body]
pub struct ExNaiveTime(NaiveTime);

#[verifier::external_type_specification]
#[verifier::external_body]
pub struct ExGetTimezoneError(iana_time_zone::GetTimezoneError);

/// `chrono::Local::now().timestamp()`: the current instant as a UNIX
/// timestamp (seconds).
///
/// `chrono`'s `DateTime<Local>` cannot be held by verified code (its type
/// parameter is bound by an outside trait), so the instant is converted to
/// its timestamp here.
#[verifier::external_body]
pub(crate) fn local_now_timestamp() -> i64 {
    Local::now().timestamp()
}

/// `NaiveTime::from_hms_nano_opt`: a time of day, present exactly when
/// the hour, minute, second and nanosecond are in range (a nanosecond count
/// of a second or more only in the 59th second, for a leap second).
#[verifier::external_body]
fn time_of_day(hour: u32, min: u32, sec: u32, nano: u32) -> (t: Option<NaiveTime>)
    ensures
        t is Some <==> !(hour >= 24 || min >= 60 || sec >= 60 || (nano >= 1_000_000_000 && sec
            != 59) || nano >= 2_000_000_000),
{
    NaiveTime::from_hms_nano_opt(hour, min, sec, nano)
}

/// `Local::now().with_time(time).earliest()`, as a UNIX timestamp: the
/// earliest instant of the current local day at the time of day `time`, or
/// `None` where that local time does not exist (a gap in the local time
/// zone).
///
/// As for [`local_now_timestamp`], the `DateTime<Local>` values stay inside:
/// only the timestamp of the result comes out.
#[verifier::external_body]
fn local_today_at(time: NaiveTime) -> Option<i64> {
    Local::now().with_time(time).earliest().map(|start| start.timestamp())
}

/// `iana_time_zone::get_timezone()`: the IANA name of the machine's time
/// zone, read from the system's configuration.
#[verifier::external_body]
pub(crate) fn system_timezone() -> Result<String, iana_time_zone::GetTimezoneError> {
    iana_time_zone::get_timezone()
}

/// Whether `t` is a value that reading the local clock
/// ([`local_now_timestamp`]) can give.
pub closed spec fn is_clock_reading(t: i64) -> bool {
    call_ensures(local_now_timestamp, (), t)
}

/// Whether `zone` is an outcome that looking up the machine's time zone
/// ([`system_timezone`]) can give.
pub closed spec fn is_timezone_lookup(zone: Result<String, iana_time_zone::GetTimezoneError>) -> bool {
    call_ensures(system_timezone, (), zone)
}

/// Whether `start` is what asking the local clock for today at 00:00:00.0
/// can give: the time of day is built from hour, minute, second and
/// nanosecond 0, and `start` is the clock's answer for it.
pub closed spec fn is_local_midnight(start: Option<i64>) -> bool {
    exists|midnight: NaiveTime|
        call_ensures(time_of_day, (0u32, 0u32, 0u32, 0u32), Some(midnight)) && call_ensures(
            local_today_at,
            (midnight,),
            start,
        )
}

/// A value just read from the local clock is a clock reading.
pub(crate) proof fn lemma_clock_reading(t: i64)
    requires
        call_ensures(local_now_timestamp, (), t),
    ensures
        is_clock_reading(t),
{
}

/// An outcome just returned by the time-zone lookup is a lookup outcome.
pub(crate) proof fn lemma_timezone_lookup(zone: Result<String, iana_time_zone::GetTimezoneError>)
    requires
        call_ensures(system_timezone, (), zone),
    ensures
        is_timezone_lookup(zone),
{
}

/// The first instant of the current local day (local midnight) as a UNIX
/// timestamp, or `None` where local midnight does not exist.
pub(crate) fn local_day_start_timestamp() -> (start: Option<i64>)
    ensures
        is_local_midnight(start),
{
    match time_of_day(0, 0, 0, 0) {
        Some(midnight) => local_today_at(midnight),
        None => None,
    }
}


} // verus!

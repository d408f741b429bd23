//! YAMCS timestamps.

use vstd::prelude::*;

use crate::float::Float64;
use crate::hermes::{Time, Timestamp};
use crate::outside::{parse_rfc3339, rfc3339_instant};
use crate::status::{invalid_timestamp, Status, StatusView};

verus! {

/// The timestamp of an instant, given in seconds since the Unix epoch and nanoseconds.
pub open spec fn timestamp_at(instant: (i64, u32)) -> Timestamp {
    Timestamp { seconds: instant.0, nanos: instant.1 as i32 }
}

/// The Hermes time of an instant. The spacecraft clock is not known.
pub open spec fn time_at(instant: (i64, u32)) -> Time {
    Time { unix: Some(timestamp_at(instant)), sclk: Float64 { bits: 0 } }
}

/// The timestamp in a YAMCS time, if there is one.
pub open spec fn yamcs_timestamp(text: Seq<char>) -> Option<Timestamp> {
    match rfc3339_instant(text) {
        Ok(instant) => Some(timestamp_at(instant)),
        Err(_) => None,
    }
}

/// The Hermes time in a YAMCS time, or why there is none.
pub open spec fn yamcs_time(text: Seq<char>) -> Result<Time, StatusView> {
    match rfc3339_instant(text) {
        Ok(instant) => Ok(time_at(instant)),
        Err(reason) => Err(invalid_timestamp(reason)),
    }
}

/// The timestamp of an instant, given in seconds since the Unix epoch and nanoseconds.
pub fn timestamp_of_instant(instant: (i64, u32)) -> (timestamp: Timestamp)
    ensures
        timestamp == timestamp_at(instant),
        instant.1 < 2_000_000_000 ==> timestamp.nanos == instant.1,
{
    Timestamp { seconds: instant.0, nanos: instant.1 as i32 }
}

/// The Hermes time of the instant that was read, or the status that reports why none was.
pub fn time_of_instant(instant: Result<(i64, u32), String>) -> (result: Result<Time, Status>)
    ensures
        match instant {
            Ok(parts) => result == Ok::<Time, Status>(time_at(parts)),
            Err(reason) => result matches Err(status) && status@ == invalid_timestamp(reason@),
        },
{
    match instant {
        Ok(parts) => Ok(
            Time { unix: Some(timestamp_of_instant(parts)), sclk: Float64 { bits: 0 } },
        ),
        Err(reason) => Err(Status::invalid_timestamp(reason.as_str())),
    }
}

/// Parse a YAMCS ISO8601 timestamp string into a protobuf `Timestamp`.
///
/// Returns `None` (rather than erroring) on a missing/unparseable time, since bucket objects
/// don't always carry every field YAMCS could in principle report.
pub fn parse_yamcs_timestamp(time_str: &str) -> (timestamp: Option<Timestamp>)
    ensures
        timestamp == yamcs_timestamp(time_str@),
        timestamp matches Some(t) ==> 0 <= t.nanos < 2_000_000_000 && rfc3339_instant(time_str@)
            == Ok::<(i64, u32), Seq<char>>((t.seconds, t.nanos as u32)),
{
    match parse_rfc3339(time_str) {
        Ok(instant) => Some(timestamp_of_instant(instant)),
        Err(_) => None,
    }
}

/// Parse YAMCS timestamp string to Hermes Time
pub fn parse_yamcs_time(time_str: &str) -> (result: Result<Time, Status>)
    ensures
        match result {
            Ok(time) => yamcs_time(time_str@) == Ok::<Time, StatusView>(time),
            Err(status) => yamcs_time(time_str@) == Err::<Time, StatusView>(status@),
        },
        result matches Ok(time) ==> (time.unix matches Some(t) && 0 <= t.nanos < 2_000_000_000
            && rfc3339_instant(time_str@) == Ok::<(i64, u32), Seq<char>>(
            (t.seconds, t.nanos as u32),
        )),
{
    time_of_instant(parse_rfc3339(time_str))
}

/// The two readings of a YAMCS time agree: one finds a timestamp exactly where the other finds a
/// time, and it is the same.
pub proof fn lemma_timestamp_and_time_agree(text: Seq<char>)
    ensures
        yamcs_timestamp(text) is Some <==> yamcs_time(text) is Ok,
        yamcs_time(text) matches Ok(time) ==> time.unix == yamcs_timestamp(text),
{
}

} // verus!

//! Times.

use vstd::prelude::*;

use crate::hermes::{Time, Timestamp};
use crate::outside::rfc3339_instant;
use crate::status::{Code, Status};
use crate::time::{parse_yamcs_time, parse_yamcs_timestamp, time_of_instant, timestamp_of_instant};

verus! {

/// A timestamp holds the seconds and the nanoseconds of the instant that the text stands for;
/// there is none exactly where the text stands for no instant.
pub proof fn law_timestamp_is_the_instant(text: &str, timestamp: Option<Timestamp>)
    requires
        call_ensures(parse_yamcs_timestamp, (text,), timestamp),
    ensures
        match rfc3339_instant(text@) {
            Ok((seconds, nanos)) => timestamp matches Some(t) && t.seconds == seconds && t.nanos
                == nanos,
            Err(_) => timestamp is None,
        },
{
    if let Some(t) = timestamp {
        assert(t.nanos as u32 == t.nanos);
    }
}

/// A time holds the seconds and the nanoseconds of the instant that the text stands for, and a
/// spacecraft clock of zero. A text that stands for no instant is an invalid argument.
pub proof fn law_time_is_the_instant(text: &str, result: Result<Time, Status>)
    requires
        call_ensures(parse_yamcs_time, (text,), result),
    ensures
        match rfc3339_instant(text@) {
            Ok((seconds, nanos)) => {
                &&& result matches Ok(time)
                &&& time.sclk.bits == 0
                &&& time.unix matches Some(t)
                &&& t.seconds == seconds
                &&& t.nanos == nanos
            },
            Err(reason) => {
                &&& result matches Err(status)
                &&& status.code == Code::InvalidArgument
                &&& status.message@ == "Invalid timestamp: "@ + reason
            },
        },
{
}

/// An instant keeps its seconds and its nanoseconds, where those fit.
pub proof fn law_instant_is_kept(
    seconds: i64,
    nanos: u32,
    timestamp: Timestamp,
    result: Result<Time, Status>,
)
    requires
        nanos < 2_000_000_000,
        call_ensures(timestamp_of_instant, ((seconds, nanos),), timestamp),
        call_ensures(time_of_instant, (Ok::<(i64, u32), String>((seconds, nanos)),), result),
    ensures
        timestamp.seconds == seconds && timestamp.nanos == nanos,
        result matches Ok(time) && time.unix == Some(timestamp) && time.sclk.bits == 0,
{
}

/// What is wrong with a time is reported as an invalid argument.
pub proof fn law_no_instant_is_reported(reason: String, result: Result<Time, Status>)
    requires
        call_ensures(time_of_instant, (Err::<(i64, u32), String>(reason),), result),
    ensures
        result matches Err(status) && status.code == Code::InvalidArgument && status.message@
            == "Invalid timestamp: "@ + reason@,
{
}

} // verus!

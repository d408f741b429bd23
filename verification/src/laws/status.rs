//! Statuses.

use vstd::prelude::*;

use crate::status::{Code, Status};
use crate::text::decimal_text;

verus! {

/// Each status has the code of its kind, and its message holds what it is about.
pub proof fn law_statuses(
    message: String,
    reason: &str,
    invalid_argument: Status,
    invalid_float: Status,
    bytes_unimplemented: Status,
    invalid_base64: Status,
    invalid_timestamp: Status,
)
    requires
        call_ensures(Status::invalid_argument, (message,), invalid_argument),
        call_ensures(Status::invalid_float, (), invalid_float),
        call_ensures(Status::bytes_unimplemented, (), bytes_unimplemented),
        call_ensures(Status::invalid_base64, (reason,), invalid_base64),
        call_ensures(Status::invalid_timestamp, (reason,), invalid_timestamp),
    ensures
        invalid_argument.code == Code::InvalidArgument,
        invalid_argument.message@ == message@,
        invalid_float.code == Code::InvalidArgument,
        invalid_float.message@ == "Invalid float value"@,
        bytes_unimplemented.code == Code::Unimplemented,
        bytes_unimplemented.message@ == "Bytes conversion not yet implemented"@,
        invalid_base64.code == Code::InvalidArgument,
        invalid_base64.message@ == "Invalid base64: "@ + reason@,
        invalid_timestamp.code == Code::InvalidArgument,
        invalid_timestamp.message@ == "Invalid timestamp: "@ + reason@,
{
}

/// The status of too many arguments gives both numbers in decimal.
pub proof fn law_status_of_too_many_arguments(
    expected: usize,
    got: usize,
    expected_text: String,
    got_text: String,
    status: Status,
)
    requires
        call_ensures(decimal_text, (expected as u64,), expected_text),
        call_ensures(decimal_text, (got as u64,), got_text),
        call_ensures(Status::too_many_arguments, (expected, got), status),
    ensures
        status.code == Code::InvalidArgument,
        status.message@ == "Too many arguments: expected "@ + expected_text@ + ", got "@
            + got_text@,
{
}

} // verus!

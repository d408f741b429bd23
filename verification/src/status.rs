//! The error that a conversion reports.

use vstd::prelude::*;
use vstd::string::StringExecFns;

use crate::text::{decimal, decimal_text};

verus! {

/// Kind of a failure, as the gRPC interface reports it.
#[derive(Debug, Clone, Copy, PartialEq, Eq, Structural)]
pub enum Code {
    /// The request holds a value that cannot be converted.
    InvalidArgument,
    /// The request holds a kind of value that is not supported.
    Unimplemented,
}

/// Why a conversion failed.
#[derive(Debug, Clone, PartialEq, Eq)]
pub struct Status {
    pub code: Code,
    pub message: String,
}

/// What a status says.
#[verifier::ext_equal]
pub struct StatusView {
    pub code: Code,
    pub message: Seq<char>,
}

impl View for Status {
    type V = StatusView;

    open spec fn view(&self) -> StatusView {
        StatusView { code: self.code, message: self.message@ }
    }
}

/// An invalid argument, with a message.
pub open spec fn invalid_argument(message: Seq<char>) -> StatusView {
    StatusView { code: Code::InvalidArgument, message }
}

/// More arguments than the command has.
pub open spec fn too_many_arguments(expected: int, got: int) -> StatusView {
    invalid_argument(
        "Too many arguments: expected "@ + decimal(expected) + ", got "@ + decimal(got),
    )
}

/// A float that JSON cannot hold.
pub open spec fn invalid_float() -> StatusView {
    invalid_argument("Invalid float value"@)
}

/// Raw bytes, which have no JSON form here.
pub open spec fn bytes_unimplemented() -> StatusView {
    StatusView {
        code: Code::Unimplemented,
        message: "Bytes conversion not yet implemented"@,
    }
}

/// Text that is not base64, with what the decoder says of it.
pub open spec fn invalid_base64(reason: Seq<char>) -> StatusView {
    invalid_argument("Invalid base64: "@ + reason)
}

/// Text that is not a timestamp, with what the parser says of it.
pub open spec fn invalid_timestamp(reason: Seq<char>) -> StatusView {
    invalid_argument("Invalid timestamp: "@ + reason)
}

impl Status {
    /// An invalid argument, with a message.
    pub fn invalid_argument(message: String) -> (status: Status)
        ensures
            status@ == invalid_argument(message@),
    {
        Status { code: Code::InvalidArgument, message }
    }

    /// More arguments than the command has.
    pub fn too_many_arguments(expected: usize, got: usize) -> (status: Status)
        ensures
            status@ == too_many_arguments(expected as int, got as int),
    {
        let mut message = "Too many arguments: expected ".to_owned();
        message.append(decimal_text(expected as u64).as_str());
        message.append(", got ");
        message.append(decimal_text(got as u64).as_str());
        Status::invalid_argument(message)
    }

    /// A float that JSON cannot hold.
    pub fn invalid_float() -> (status: Status)
        ensures
            status@ == invalid_float(),
    {
        Status::invalid_argument("Invalid float value".to_owned())
    }

    /// Raw bytes, which have no JSON form here.
    pub fn bytes_unimplemented() -> (status: Status)
        ensures
            status@ == bytes_unimplemented(),
    {
        Status {
            code: Code::Unimplemented,
            message: "Bytes conversion not yet implemented".to_owned(),
        }
    }

    /// Text that is not base64, with what the decoder says of it.
    pub fn invalid_base64(reason: &str) -> (status: Status)
        ensures
            status@ == invalid_base64(reason@),
    {
        let mut message = "Invalid base64: ".to_owned();
        message.append(reason);
        Status::invalid_argument(message)
    }

    /// Text that is not a timestamp, with what the parser says of it.
    pub fn invalid_timestamp(reason: &str) -> (status: Status)
        ensures
            status@ == invalid_timestamp(reason@),
    {
        let mut message = "Invalid timestamp: ".to_owned();
        message.append(reason);
        Status::invalid_argument(message)
    }
}

} // verus!

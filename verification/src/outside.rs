//! Functions of other crates and of the standard library, with what is taken for granted of
//! their results.

use vstd::prelude::*;
use vstd::utf8::{decode_utf8, valid_utf8};

use crate::encoding::{base64_text, is_base64};

verus! {

/// The text that `String::from_utf8_lossy` makes of `bytes`.
pub uninterp spec fn utf8_lossy(bytes: Seq<u8>) -> Seq<char>;

/// `bytes` as text: decoded where they are valid UTF-8, and otherwise with replacement
/// characters where `String::from_utf8_lossy` puts them.
pub open spec fn lossy_text(bytes: Seq<u8>) -> Seq<char> {
    if valid_utf8(bytes) {
        decode_utf8(bytes)
    } else {
        utf8_lossy(bytes)
    }
}

/// Calls `String::from_utf8_lossy`. Its result is taken to depend on the bytes alone, and to be
/// the decoded text where the bytes are valid UTF-8. Where the replacement characters go in
/// other bytes is left unsaid.
#[verifier::external_body]
pub(crate) fn from_utf8_lossy(bytes: &[u8]) -> (text: String)
    ensures
        text@ == utf8_lossy(bytes@),
        valid_utf8(bytes@) ==> text@ == decode_utf8(bytes@),
{
    String::from_utf8_lossy(bytes).into_owned()
}

/// The instant that `chrono::DateTime::parse_from_rfc3339` reads in `text`, as the seconds since
/// the Unix epoch and the nanoseconds within the second, or the text of the error that it reports.
pub uninterp spec fn rfc3339_instant(text: Seq<char>) -> Result<(i64, u32), Seq<char>>;

/// Calls `chrono::DateTime::parse_from_rfc3339`, and reads the instant that it finds off in UTC,
/// by `timestamp` and `timestamp_subsec_nanos`; an error is taken by its `Display` text.
/// The outcome is taken to depend on the text alone. The nanoseconds are taken to be less than
/// two seconds: in a leap second they go on from 1,000,000,000. Which texts are accepted, and
/// which instant each stands for, is left unsaid.
#[verifier::external_body]
pub(crate) fn parse_rfc3339(text: &str) -> (instant: Result<(i64, u32), String>)
    ensures
        match instant {
            Ok(parts) => rfc3339_instant(text@) == Ok::<(i64, u32), Seq<char>>(parts),
            Err(reason) => rfc3339_instant(text@) == Err::<(i64, u32), Seq<char>>(reason@),
        },
        instant matches Ok(parts) ==> parts.1 < 2_000_000_000,
{
    match chrono::DateTime::parse_from_rfc3339(text) {
        Ok(local) => {
            let utc: chrono::DateTime<chrono::Utc> = local.into();
            Ok((utc.timestamp(), utc.timestamp_subsec_nanos()))
        },
        Err(error) => Err(error.to_string()),
    }
}

/// What the standard engine of `base64` says of a text that it cannot decode.
pub uninterp spec fn base64_error(text: Seq<char>) -> Seq<char>;

/// Calls `decode` of `base64::engine::general_purpose::STANDARD`. It is taken to accept exactly
/// the base64 forms of byte sequences, with the padding in place and the unused bits zero, and to
/// give the bytes whose form the text is. An error is taken by its `Display` text, which depends
/// on the text alone; what it says is left unsaid.
#[verifier::external_body]
pub(crate) fn decode_base64(text: &str) -> (decoded: Result<Vec<u8>, String>)
    ensures
        match decoded {
            Ok(bytes) => text@ == base64_text(bytes@),
            Err(reason) => !is_base64(text@) && reason@ == base64_error(text@),
        },
{
    base64::Engine::decode(&base64::engine::general_purpose::STANDARD, text).map_err(
        |error| error.to_string(),
    )
}

} // verus!

//! Records of downlinked files.

use vstd::prelude::*;

use crate::buckets::BucketObject;
use crate::file_transfer::downlink::{bucket_object_to_file_downlink, completed_downlink};
use crate::hermes::{FileDownlink, FileDownlinkCompletionStatus, Timestamp};
use crate::time::parse_yamcs_timestamp;

verus! {

/// An object is the record of a completed downlink: its name is the identifier and both paths that
/// are known, its size is the size of the file, and nothing is missing or duplicate.
pub proof fn law_object_is_a_completed_downlink(
    object: &BucketObject,
    source: &str,
    downlink: FileDownlink,
)
    requires
        call_ensures(bucket_object_to_file_downlink, (object, source), downlink),
    ensures
        downlink.uid@ == object.name@,
        downlink.destination_path@ == object.name@,
        downlink.file_path@ == object.name@,
        downlink.source_path@.len() == 0,
        downlink.source@ == source@,
        downlink.status == FileDownlinkCompletionStatus::DownlinkCompleted,
        downlink.time_start is None,
        downlink.missing_chunks@.len() == 0,
        downlink.duplicate_chunks@.len() == 0,
        downlink.metadata@.len() == 0,
        object.size matches Some(size) ==> downlink.size == size,
        object.size is None ==> downlink.size == 0,
{
}

/// A downlink ended when its object was created, if the object says so in a form that can be read.
pub proof fn law_downlink_ends_when_the_object_is_created(
    object: &BucketObject,
    source: &str,
    created: &str,
    timestamp: Option<Timestamp>,
    downlink: FileDownlink,
)
    requires
        call_ensures(bucket_object_to_file_downlink, (object, source), downlink),
        object.created matches Some(text) ==> text@ == created@,
        call_ensures(parse_yamcs_timestamp, (created,), timestamp),
    ensures
        downlink.time_end == if object.created is Some {
            timestamp
        } else {
            None
        },
{
}

/// A record with a given end differs from that of the object in its end alone.
pub proof fn law_end_of_a_downlink_is_taken_over(
    object: &BucketObject,
    source: &str,
    time_end: Option<Timestamp>,
    downlink: FileDownlink,
    other: FileDownlink,
)
    requires
        call_ensures(completed_downlink, (object, source, time_end), downlink),
        call_ensures(bucket_object_to_file_downlink, (object, source), other),
    ensures
        downlink.time_end == time_end,
        downlink.uid@ == other.uid@,
        downlink.destination_path@ == other.destination_path@,
        downlink.file_path@ == other.file_path@,
        downlink.source_path@ == other.source_path@,
        downlink.source@ == other.source@,
        downlink.status == other.status,
        downlink.time_start == other.time_start,
        downlink.missing_chunks@ == other.missing_chunks@,
        downlink.duplicate_chunks@ == other.duplicate_chunks@,
        downlink.size == other.size,
        downlink.metadata@ == other.metadata@,
{
}

} // verus!

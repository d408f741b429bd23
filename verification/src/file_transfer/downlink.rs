//! Records of downlinked files, from the objects in a bucket.

use vstd::prelude::*;

use crate::buckets::BucketObject;
use crate::hermes::{FileDownlink, FileDownlinkCompletionStatus, Timestamp};
use crate::string_map::StringMap;
use crate::time::{parse_yamcs_timestamp, yamcs_timestamp};

verus! {

/// Default bucket name used by `FprimeFilePacketService` for downlinked files.
pub const DEFAULT_DOWNLINK_BUCKET: &'static str = "fprimeFilesIn";

/// `downlink` is the record of a file that was completely received into `object`, at `time_end`
/// where that is known.
pub open spec fn is_completed_downlink(
    downlink: FileDownlink,
    object: BucketObject,
    source: Seq<char>,
    time_end: Option<Timestamp>,
) -> bool {
    &&& downlink.uid@ == object.name@
    &&& downlink.time_start is None
    &&& downlink.time_end == time_end
    &&& downlink.status == FileDownlinkCompletionStatus::DownlinkCompleted
    &&& downlink.source@ == source
    &&& downlink.source_path@.len() == 0
    &&& downlink.destination_path@ == object.name@
    &&& downlink.file_path@ == object.name@
    &&& downlink.missing_chunks@.len() == 0
    &&& downlink.duplicate_chunks@.len() == 0
    &&& downlink.size == match object.size {
        Some(size) => size,
        None => 0,
    }
    &&& downlink.metadata@.len() == 0
}

/// The time at which an object was created, if it says so in a form that can be read.
pub open spec fn created_at(object: BucketObject) -> Option<Timestamp> {
    match object.created {
        Some(created) => yamcs_timestamp(created@),
        None => None,
    }
}

/// The record of a file that was completely received, at `time_end` where that is known.
pub fn completed_downlink(
    object: &BucketObject,
    source: &str,
    time_end: Option<Timestamp>,
) -> (downlink: FileDownlink)
    ensures
        is_completed_downlink(downlink, *object, source@, time_end),
{
    FileDownlink {
        uid: object.name.clone(),
        time_start: None,
        time_end,
        status: FileDownlinkCompletionStatus::DownlinkCompleted,
        source: source.to_owned(),
        source_path: String::new(),
        destination_path: object.name.clone(),
        file_path: object.name.clone(),
        missing_chunks: Vec::new(),
        duplicate_chunks: Vec::new(),
        size: match object.size {
            Some(size) => size,
            None => 0,
        },
        metadata: StringMap::new(),
    }
}

/// Map a bucket object to a `FileDownlink`.
///
/// A bucket object only carries name, size and created-time — so most `FileDownlink` fields
/// are left at their default (empty/zero). YAMCS only ever writes the object once the CFDP
/// checksum has passed, so an object's mere presence means the transfer completed successfully;
/// there is no way to observe a bucket object for a failed transfer.
pub fn bucket_object_to_file_downlink(object: &BucketObject, source: &str) -> (downlink:
    FileDownlink)
    ensures
        is_completed_downlink(downlink, *object, source@, created_at(*object)),
{
    let time_end = match &object.created {
        Some(created) => parse_yamcs_timestamp(created.as_str()),
        None => None,
    };
    completed_downlink(object, source, time_end)
}

} // verus!

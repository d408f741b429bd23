//! YAMCS buckets and the objects in them.

use vstd::prelude::*;

use crate::string_map::StringMap;

verus! {

/// A YAMCS bucket, used for storing arbitrary objects (e.g. downlinked files).
#[derive(Debug, Clone)]
pub struct Bucket {
    pub name: String,
    pub size: Option<u64>,
    pub max_size: Option<u64>,
    pub num_objects: Option<u32>,
    pub max_num_objects: Option<u32>,
}

/// Response wrapper for listing buckets.
#[derive(Debug, Clone)]
pub struct ListBucketsResponse {
    pub buckets: Vec<Bucket>,
}

/// A single object stored in a bucket.
#[derive(Debug, Clone)]
pub struct BucketObject {
    pub name: String,
    pub size: Option<u64>,
    /// Creation time, ISO 8601
    pub created: Option<String>,
    pub content_type: Option<String>,
    pub metadata: StringMap<String>,
}

/// Response wrapper for listing objects within a bucket.
#[derive(Debug, Clone)]
pub struct ListObjectsResponse {
    pub objects: Vec<BucketObject>,
}

} // verus!

//! The first format of the object table.
use vstd::prelude::*;

use crate::bytes::Uuid;

verus! {

/// An object
#[derive(Clone, Debug, PartialEq, Eq)]
pub struct Object {
    /// The bucket in which the object is stored, used as partition key
    pub bucket_id: Uuid,
    /// The key at which the object is stored in its bucket, used as sorting key
    pub key: String,
    /// The list of currently stored versions of the object
    pub versions: Vec<ObjectVersion>,
}

/// Information about a version of an object
#[derive(Clone, Debug, PartialEq, Eq)]
pub struct ObjectVersion {
    /// Id of the version
    pub uuid: Uuid,
    /// Timestamp of when the object was created
    pub timestamp: u64,
    /// State of the version
    pub state: ObjectVersionState,
}

/// State of an object version
#[derive(Clone, Debug, PartialEq, Eq)]
pub enum ObjectVersionState {
    /// The version is being received
    Uploading(ObjectVersionHeaders),
    /// The version is fully received
    Complete(ObjectVersionData),
    /// The version uploaded contained errors or the upload was explicitly
    /// aborted
    Aborted,
}

/// Data stored in object version
#[derive(Clone, Debug, PartialEq, Eq)]
pub enum ObjectVersionData {
    /// The object was deleted, this version is a tombstone to mark it as such
    DeleteMarker,
    /// The object is short, it's stored inlined
    Inline(ObjectVersionMeta, Vec<u8>),
    /// The object is not short, Hash of first block is stored here, next
    /// segments hashes are stored in the version table
    FirstBlock(ObjectVersionMeta, crate::bytes::Hash),
}

/// Metadata about the object version
#[derive(Clone, Debug, PartialEq, Eq)]
pub struct ObjectVersionMeta {
    /// Headers to send to the client
    pub headers: ObjectVersionHeaders,
    /// Size of the object
    pub size: u64,
    /// etag of the object
    pub etag: String,
}

/// Additional headers for an object
#[derive(Clone, Debug, PartialEq, Eq)]
pub struct ObjectVersionHeaders {
    /// Content type of the object
    pub content_type: String,
    /// Any other http headers to send, as (name, value) pairs sorted by name,
    /// each name once, as the map they were stored in lists them
    pub other: Vec<(String, String)>,
}

} // verus!

//! The format of the bucket table before versioning and Object Lock: what
//! the versioning, Object Lock and lifecycle logic reads of it.
use vstd::prelude::*;

use crate::bucket_table::{LifecycleExpiration, LifecycleFilter};
use crate::bytes::Uuid;

verus! {

/// A bucket: its id, and its parameters unless it is deleted
#[derive(Clone, Debug, PartialEq, Eq)]
pub struct Bucket {
    /// ID of the bucket
    pub id: Uuid,
    /// Configuration of the bucket, None if it is deleted
    pub state: Option<BucketParams>,
}

/// Configuration for a bucket
#[derive(Clone, Debug, PartialEq, Eq)]
pub struct BucketParams {
    /// Bucket's creation date
    pub creation_date: u64,
    /// Lifecycle configuration
    pub lifecycle_config: Option<Vec<LifecycleRule>>,
}

/// Lifecycle configuration rule
#[derive(Clone, Debug, PartialEq, Eq)]
pub struct LifecycleRule {
    /// The ID of the rule
    pub id: Option<String>,
    /// Whether the rule is active
    pub enabled: bool,
    /// The filter to check whether rule applies to a given object
    pub filter: LifecycleFilter,
    /// Number of days after which incomplete multipart uploads are aborted
    pub abort_incomplete_mpu_days: Option<usize>,
    /// Expiration policy for stored objects
    pub expiration: Option<LifecycleExpiration>,
}

} // verus!

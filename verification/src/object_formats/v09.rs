//! The format of the object table that tells multipart uploads apart.
use vstd::prelude::*;

use super::v08;
use crate::bytes::Uuid;

verus! {

broadcast use vstd::std_specs::vec::group_vec_axioms;

/// An object
#[derive(Clone, Debug, PartialEq, Eq)]
pub struct Object {
    /// The bucket in which the object is stored, used as partition key
    pub bucket_id: Uuid,
    /// The key at which the object is stored in its bucket, used as sorting key
    pub key: String,
    /// The list of currently stored versions of the object
    pub versions: Vec<ObjectVersion>,
}

/// Information about a version of an object
#[derive(Clone, Debug, PartialEq, Eq)]
pub struct ObjectVersion {
    /// Id of the version
    pub uuid: Uuid,
    /// Timestamp of when the object was created
    pub timestamp: u64,
    /// State of the version
    pub state: ObjectVersionState,
}

/// State of an object version
#[derive(Clone, Debug, PartialEq, Eq)]
pub enum ObjectVersionState {
    /// The version is being received
    Uploading {
        /// Indicates whether this is a multipart upload
        multipart: bool,
        /// Headers to be included in the final object
        headers: v08::ObjectVersionHeaders,
    },
    /// The version is fully received
    Complete(v08::ObjectVersionData),
    /// The version uploaded contained errors or the upload was explicitly
    /// aborted
    Aborted,
}

/// A version in this format: uploads of the earlier format were never
/// multipart ones.
pub open spec fn migrated_version(old: v08::ObjectVersion) -> ObjectVersion {
    ObjectVersion {
        uuid: old.uuid,
        timestamp: old.timestamp,
        state: match old.state {
            v08::ObjectVersionState::Uploading(h) => ObjectVersionState::Uploading {
                multipart: false,
                headers: h,
            },
            v08::ObjectVersionState::Complete(d) => ObjectVersionState::Complete(d),
            v08::ObjectVersionState::Aborted => ObjectVersionState::Aborted,
        },
    }
}

fn migrate_version(old: v08::ObjectVersion) -> (r: ObjectVersion)
    ensures
        r == migrated_version(old),
{
    ObjectVersion {
        uuid: old.uuid,
        timestamp: old.timestamp,
        state: match old.state {
            v08::ObjectVersionState::Uploading(h) => ObjectVersionState::Uploading {
                multipart: false,
                headers: h,
            },
            v08::ObjectVersionState::Complete(d) => ObjectVersionState::Complete(d),
            v08::ObjectVersionState::Aborted => ObjectVersionState::Aborted,
        },
    }
}

impl Object {
    /// An object of the earlier format, in this format.
    pub fn migrate(old: v08::Object) -> (r: Object)
        ensures
            r.bucket_id == old.bucket_id,
            r.key == old.key,
            r.versions@ == old.versions@.map_values(|v: v08::ObjectVersion| migrated_version(v)),
    {
        let ghost orig = old.versions@;
        let mut rest = super::reversed(old.versions);
        let mut versions: Vec<ObjectVersion> = Vec::new();
        while rest.len() > 0
            invariant
                versions@.len() + rest@.len() == orig.len(),
                rest@ == orig.skip(versions@.len() as int).reverse(),
                versions@ == orig.take(versions@.len() as int).map_values(
                    |v: v08::ObjectVersion| migrated_version(v),
                ),
            decreases rest@.len(),
        {
            proof {
                super::lemma_pop_reversed(orig, versions@.len() as int);
            }
            let ghost k = versions@.len() as int;
            let v = rest.pop().unwrap();
            versions.push(migrate_version(v));
            assert(versions@ =~= orig.take(k + 1).map_values(
                |v: v08::ObjectVersion| migrated_version(v),
            ));
        }
        assert(orig.take(orig.len() as int) =~= orig);
        Object { bucket_id: old.bucket_id, key: old.key, versions }
    }
}

} // verus!

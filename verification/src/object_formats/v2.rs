//! The format of the object table that tells full-object checksums from
//! composite ones; its versions have no S3 version id nor Object Lock
//! settings yet.
use vstd::prelude::*;

use super::v010;
use crate::bytes::Uuid;
use crate::object_table::ObjectVersionState;
use crate::version_data::{
    ChecksumType, ObjectVersionData, ObjectVersionEncryption, ObjectVersionMeta,
    ObjectVersionMetaInner,
};

verus! {

broadcast use vstd::std_specs::vec::group_vec_axioms;

/// An object
#[derive(Clone, Debug, PartialEq, Eq)]
pub struct Object {
    /// The bucket in which the object is stored, used as partition key
    pub bucket_id: Uuid,
    /// The key at which the object is stored in its bucket, used as sorting key
    pub key: String,
    /// The list of currently stored versions of the object
    pub versions: Vec<ObjectVersion>,
}

/// Information about a version of an object
#[derive(Clone, Debug, PartialEq, Eq)]
pub struct ObjectVersion {
    /// Id of the version
    pub uuid: Uuid,
    /// Timestamp of when the object was created
    pub timestamp: u64,
    /// State of the version
    pub state: ObjectVersionState,
}

/// Headers and checksum of the earlier format: whether the checksum is of
/// the full object or composite is not known.
pub open spec fn migrated_inner(old: v010::ObjectVersionMetaInner) -> ObjectVersionMetaInner {
    ObjectVersionMetaInner { headers: old.headers, checksum: old.checksum, checksum_type: None }
}

impl ObjectVersionMetaInner {
    /// Headers and checksum of the earlier format, in this format.
    pub fn migrate(old: v010::ObjectVersionMetaInner) -> (r: ObjectVersionMetaInner)
        ensures
            r == migrated_inner(old),
    {
        ObjectVersionMetaInner { headers: old.headers, checksum: old.checksum, checksum_type: None }
    }
}

pub open spec fn migrated_encryption(old: v010::ObjectVersionEncryption) -> ObjectVersionEncryption {
    match old {
        v010::ObjectVersionEncryption::SseC { inner, compressed, use_oek } => {
            ObjectVersionEncryption::SseC { inner, compressed, use_oek }
        },
        v010::ObjectVersionEncryption::Plaintext { inner } => ObjectVersionEncryption::Plaintext {
            inner: migrated_inner(inner),
        },
    }
}

fn migrate_encryption(old: v010::ObjectVersionEncryption) -> (r: ObjectVersionEncryption)
    ensures
        r == migrated_encryption(old),
{
    match old {
        v010::ObjectVersionEncryption::SseC { inner, compressed, use_oek } => {
            ObjectVersionEncryption::SseC { inner, compressed, use_oek }
        },
        v010::ObjectVersionEncryption::Plaintext { inner } => ObjectVersionEncryption::Plaintext {
            inner: ObjectVersionMetaInner::migrate(inner),
        },
    }
}

pub open spec fn migrated_meta(old: v010::ObjectVersionMeta) -> ObjectVersionMeta {
    ObjectVersionMeta {
        size: old.size,
        etag: old.etag,
        encryption: migrated_encryption(old.encryption),
    }
}

fn migrate_meta(old: v010::ObjectVersionMeta) -> (r: ObjectVersionMeta)
    ensures
        r == migrated_meta(old),
{
    ObjectVersionMeta {
        size: old.size,
        etag: old.etag,
        encryption: migrate_encryption(old.encryption),
    }
}

pub open spec fn migrated_data(old: v010::ObjectVersionData) -> ObjectVersionData {
    match old {
        v010::ObjectVersionData::DeleteMarker => ObjectVersionData::DeleteMarker,
        v010::ObjectVersionData::Inline(meta, data) => ObjectVersionData::Inline(
            migrated_meta(meta),
            data,
        ),
        v010::ObjectVersionData::FirstBlock(meta, fb) => ObjectVersionData::FirstBlock(
            migrated_meta(meta),
            fb,
        ),
    }
}

fn migrate_data(old: v010::ObjectVersionData) -> (r: ObjectVersionData)
    ensures
        r == migrated_data(old),
{
    match old {
        v010::ObjectVersionData::DeleteMarker => ObjectVersionData::DeleteMarker,
        v010::ObjectVersionData::Inline(meta, data) => ObjectVersionData::Inline(
            migrate_meta(meta),
            data,
        ),
        v010::ObjectVersionData::FirstBlock(meta, fb) => ObjectVersionData::FirstBlock(
            migrate_meta(meta),
            fb,
        ),
    }
}

/// A version of the earlier format in this format: the checksum of an
/// ongoing upload is composite for a multipart upload, and of the full
/// object otherwise.
pub open spec fn migrated_version(old: v010::ObjectVersion) -> ObjectVersion {
    ObjectVersion {
        uuid: old.uuid,
        timestamp: old.timestamp,
        state: match old.state {
            v010::ObjectVersionState::Uploading { multipart, checksum_algorithm, encryption } => {
                ObjectVersionState::Uploading {
                    multipart,
                    checksum_algorithm: match checksum_algorithm {
                        Some(algo) => Some(
                            (
                                algo,
                                if multipart {
                                    ChecksumType::Composite
                                } else {
                                    ChecksumType::FullObject
                                },
                            ),
                        ),
                        None => None,
                    },
                    encryption: migrated_encryption(encryption),
                }
            },
            v010::ObjectVersionState::Complete(d) => ObjectVersionState::Complete(migrated_data(d)),
            v010::ObjectVersionState::Aborted => ObjectVersionState::Aborted,
        },
    }
}

fn migrate_version(old: v010::ObjectVersion) -> (r: ObjectVersion)
    ensures
        r == migrated_version(old),
{
    ObjectVersion {
        uuid: old.uuid,
        timestamp: old.timestamp,
        state: match old.state {
            v010::ObjectVersionState::Uploading { multipart, checksum_algorithm, encryption } => {
                ObjectVersionState::Uploading {
                    multipart,
                    checksum_algorithm: match checksum_algorithm {
                        Some(algo) => Some(
                            (
                                algo,
                                if multipart {
                                    ChecksumType::Composite
                                } else {
                                    ChecksumType::FullObject
                                },
                            ),
                        ),
                        None => None,
                    },
                    encryption: migrate_encryption(encryption),
                }
            },
            v010::ObjectVersionState::Complete(d) => ObjectVersionState::Complete(migrate_data(d)),
            v010::ObjectVersionState::Aborted => ObjectVersionState::Aborted,
        },
    }
}

impl Object {
    /// An object of the earlier format, in this format.
    pub fn migrate(old: v010::Object) -> (r: Object)
        ensures
            r.bucket_id == old.bucket_id,
            r.key == old.key,
            r.versions@ == old.versions@.map_values(|v: v010::ObjectVersion| migrated_version(v)),
    {
        let ghost orig = old.versions@;
        let mut rest = super::reversed(old.versions);
        let mut versions: Vec<ObjectVersion> = Vec::new();
        while rest.len() > 0
            invariant
                versions@.len() + rest@.len() == orig.len(),
                rest@ == orig.skip(versions@.len() as int).reverse(),
                versions@ == orig.take(versions@.len() as int).map_values(
                    |v: v010::ObjectVersion| migrated_version(v),
                ),
            decreases rest@.len(),
        {
            proof {
                super::lemma_pop_reversed(orig, versions@.len() as int);
            }
            let ghost k = versions@.len() as int;
            let v = rest.pop().unwrap();
            versions.push(migrate_version(v));
            assert(versions@ =~= orig.take(k + 1).map_values(
                |v: v010::ObjectVersion| migrated_version(v),
            ));
        }
        assert(orig.take(orig.len() as int) =~= orig);
        Object { bucket_id: old.bucket_id, key: old.key, versions }
    }
}

} // verus!

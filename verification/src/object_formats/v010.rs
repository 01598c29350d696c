//! The format of the object table that brings encryption and checksums.
use vstd::prelude::*;

use super::{v08, v09};
use crate::bytes::{str_eq, Uuid};
use crate::version_data::{header_view, ChecksumAlgorithm, ChecksumValue, HeaderList};

verus! {

broadcast use vstd::std_specs::vec::group_vec_axioms;

/// An object
#[derive(Clone, Debug, PartialEq, Eq)]
pub struct Object {
    /// The bucket in which the object is stored, used as partition key
    pub bucket_id: Uuid,
    /// The key at which the object is stored in its bucket, used as sorting key
    pub key: String,
    /// The list of currently stored versions of the object
    pub versions: Vec<ObjectVersion>,
}

/// Information about a version of an object
#[derive(Clone, Debug, PartialEq, Eq)]
pub struct ObjectVersion {
    /// Id of the version
    pub uuid: Uuid,
    /// Timestamp of when the object was created
    pub timestamp: u64,
    /// State of the version
    pub state: ObjectVersionState,
}

/// State of an object version
#[derive(Clone, Debug, PartialEq, Eq)]
pub enum ObjectVersionState {
    /// The version is being received
    Uploading {
        /// Indicates whether this is a multipart upload
        multipart: bool,
        /// Checksum algorithm to use
        checksum_algorithm: Option<ChecksumAlgorithm>,
        /// Encryption params + headers to be included in the final object
        encryption: ObjectVersionEncryption,
    },
    /// The version is fully received
    Complete(ObjectVersionData),
    /// The version uploaded contained errors or the upload was explicitly
    /// aborted
    Aborted,
}

/// Data stored in object version
#[derive(Clone, Debug, PartialEq, Eq)]
pub enum ObjectVersionData {
    /// The object was deleted, this version is a tombstone to mark it as such
    DeleteMarker,
    /// The object is short, it's stored inlined.
    Inline(ObjectVersionMeta, Vec<u8>),
    /// The object is not short, Hash of first block is stored here, next
    /// segments hashes are stored in the version table
    FirstBlock(ObjectVersionMeta, crate::bytes::Hash),
}

/// Metadata about the object version
#[derive(Clone, Debug, PartialEq, Eq)]
pub struct ObjectVersionMeta {
    /// Size of the object, before encryption or compression
    pub size: u64,
    /// etag of the object
    pub etag: String,
    /// Encryption params + headers (encrypted or plaintext)
    pub encryption: ObjectVersionEncryption,
}

/// Encryption information + metadata
#[derive(Clone, Debug, PartialEq, Eq)]
pub enum ObjectVersionEncryption {
    SseC {
        /// Encrypted serialized `ObjectVersionMetaInner` struct.
        inner: Vec<u8>,
        /// Whether data blocks are compressed in addition to being encrypted
        compressed: bool,
        /// Whether the encryption uses an Object Encryption Key derived from
        /// the master SSE-C key
        use_oek: bool,
    },
    Plaintext {
        /// Plain-text headers
        inner: ObjectVersionMetaInner,
    },
}

/// Headers and checksum of an object version
#[derive(Clone, Debug, PartialEq, Eq)]
pub struct ObjectVersionMetaInner {
    pub headers: HeaderList,
    pub checksum: Option<ChecksumValue>,
}

/// The characters of `content-type`.
pub open spec fn content_type_chars() -> Seq<char> {
    seq!['c', 'o', 'n', 't', 'e', 'n', 't', '-', 't', 'y', 'p', 'e']
}

/// The characters of `blob`.
pub open spec fn blob_chars() -> Seq<char> {
    seq!['b', 'l', 'o', 'b']
}

/// `http::header::CONTENT_TYPE`, as a string: the `http` crate names the
/// standard headers in lower case, and this one `content-type`.
#[verifier::external_body]
fn content_type_header() -> (r: &'static str)
    ensures
        r@ == content_type_chars(),
{
    http::header::CONTENT_TYPE.as_str()
}

/// The headers of the earlier format, as a list: the content type first,
/// unless it is `blob`, which goes without saying, then the others.
pub open spec fn migrated_headers(old: v08::ObjectVersionHeaders) -> Seq<(Seq<char>, Seq<char>)> {
    (if old.content_type@ != blob_chars() {
        seq![(content_type_chars(), old.content_type@)]
    } else {
        seq![]
    }) + old.other@.map_values(|h: (String, String)| header_view(h))
}

/// Whether `enc` stores the headers of the earlier format in plain text,
/// with no checksum.
pub open spec fn stores_headers(enc: ObjectVersionEncryption, old: v08::ObjectVersionHeaders) -> bool {
    enc matches ObjectVersionEncryption::Plaintext { inner } && inner.checksum is None
        && inner.headers@.map_values(|h: (String, String)| header_view(h)) == migrated_headers(old)
}

fn migrate_headers(old: v08::ObjectVersionHeaders) -> (r: ObjectVersionEncryption)
    ensures
        stores_headers(r, old),
{
    let ghost old_view = old;
    let mut new_headers: Vec<(String, String)> = Vec::new();
    proof {
        reveal_strlit("blob");
        assert("blob"@ =~= blob_chars());
    }
    if !str_eq(old.content_type.as_str(), "blob") {
        new_headers.push((String::from_str(content_type_header()), old.content_type));
    }
    let mut other = old.other;
    let ghost before = new_headers@;
    new_headers.append(&mut other);
    assert(new_headers@.map_values(|h: (String, String)| header_view(h)) =~= migrated_headers(
        old_view,
    ));
    ObjectVersionEncryption::Plaintext {
        inner: ObjectVersionMetaInner { headers: new_headers, checksum: None },
    }
}

/// Whether `m` is the metadata of the earlier format `old` in this format.
pub open spec fn migrated_meta(m: ObjectVersionMeta, old: v08::ObjectVersionMeta) -> bool {
    m.size == old.size && m.etag == old.etag && stores_headers(m.encryption, old.headers)
}

fn migrate_meta(old: v08::ObjectVersionMeta) -> (r: ObjectVersionMeta)
    ensures
        migrated_meta(r, old),
{
    ObjectVersionMeta { size: old.size, etag: old.etag, encryption: migrate_headers(old.headers) }
}

/// Whether `d` is the data of the earlier format `old` in this format.
pub open spec fn migrated_data(d: ObjectVersionData, old: v08::ObjectVersionData) -> bool {
    match old {
        v08::ObjectVersionData::DeleteMarker => d is DeleteMarker,
        v08::ObjectVersionData::Inline(meta, data) => d matches ObjectVersionData::Inline(m, x)
            && migrated_meta(m, meta) && x == data,
        v08::ObjectVersionData::FirstBlock(meta, hash) => d matches ObjectVersionData::FirstBlock(
            m,
            h,
        ) && migrated_meta(m, meta) && h == hash,
    }
}

fn migrate_data(old: v08::ObjectVersionData) -> (r: ObjectVersionData)
    ensures
        migrated_data(r, old),
{
    match old {
        v08::ObjectVersionData::DeleteMarker => ObjectVersionData::DeleteMarker,
        v08::ObjectVersionData::Inline(meta, data) => ObjectVersionData::Inline(
            migrate_meta(meta),
            data,
        ),
        v08::ObjectVersionData::FirstBlock(meta, fb) => ObjectVersionData::FirstBlock(
            migrate_meta(meta),
            fb,
        ),
    }
}

/// Whether `v` is the version of the earlier format `old` in this format:
/// uploads get no checksum algorithm, and their headers are stored in plain
/// text.
pub open spec fn migrated_version(v: ObjectVersion, old: v09::ObjectVersion) -> bool {
    &&& v.uuid == old.uuid
    &&& v.timestamp == old.timestamp
    &&& match old.state {
        v09::ObjectVersionState::Uploading { multipart, headers } => v.state matches ObjectVersionState::Uploading {
            multipart: m,
            checksum_algorithm,
            encryption,
        } && m == multipart && checksum_algorithm is None && stores_headers(encryption, headers),
        v09::ObjectVersionState::Complete(d) => v.state matches ObjectVersionState::Complete(x)
            && migrated_data(x, d),
        v09::ObjectVersionState::Aborted => v.state is Aborted,
    }
}

fn migrate_version(old: v09::ObjectVersion) -> (r: ObjectVersion)
    ensures
        migrated_version(r, old),
{
    ObjectVersion {
        uuid: old.uuid,
        timestamp: old.timestamp,
        state: match old.state {
            v09::ObjectVersionState::Uploading { multipart, headers } => {
                ObjectVersionState::Uploading {
                    multipart,
                    checksum_algorithm: None,
                    encryption: migrate_headers(headers),
                }
            },
            v09::ObjectVersionState::Complete(d) => ObjectVersionState::Complete(migrate_data(d)),
            v09::ObjectVersionState::Aborted => ObjectVersionState::Aborted,
        },
    }
}

impl Object {
    /// An object of the earlier format, in this format.
    pub fn migrate(old: v09::Object) -> (r: Object)
        ensures
            r.bucket_id == old.bucket_id,
            r.key == old.key,
            r.versions@.len() == old.versions@.len(),
            forall|i: int|
                0 <= i < old.versions@.len() ==> migrated_version(
                    #[trigger] r.versions@[i],
                    old.versions@[i],
                ),
    {
        let ghost orig = old.versions@;
        let mut rest = super::reversed(old.versions);
        let mut versions: Vec<ObjectVersion> = Vec::new();
        while rest.len() > 0
            invariant
                versions@.len() + rest@.len() == orig.len(),
                rest@ == orig.skip(versions@.len() as int).reverse(),
                forall|i: int|
                    0 <= i < versions@.len() ==> migrated_version(#[trigger] versions@[i], orig[i]),
            decreases rest@.len(),
        {
            proof {
                super::lemma_pop_reversed(orig, versions@.len() as int);
            }
            let v = rest.pop().unwrap();
            versions.push(migrate_version(v));
        }
        Object { bucket_id: old.bucket_id, key: old.key, versions }
    }
}

} // verus!

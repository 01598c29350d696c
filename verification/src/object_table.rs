//! Objects and their versions: the versions an object keeps, how replicas of
//! an object are merged, and which versions a write makes obsolete.
use vstd::prelude::*;

use crate::bucket_table::VersioningState;
use crate::object_formats::v2;
use crate::bytes::{bytes_order, hex_encode, hex_lower, lemma_bytes_order_antisym, lemma_bytes_order_trans, compare_bytes, str_eq, Uuid};
use crate::object_lock_state::{
    protection, retention_merge, DeleteProtection, ObjectLockMode, ObjectLockRetention,
};
use crate::time::{lww_bool_merge, Lww};
use crate::version_data::{
    compare_data, data_order, data_size, ChecksumAlgorithm, ChecksumType, DataView,
    EncryptionView, ObjectVersionData, ObjectVersionEncryption,
};

verus! {

broadcast use vstd::std_specs::vec::group_vec_axioms, vstd::array::group_array_axioms;

/// The S3 version id of object versions that were created while bucket
/// versioning was disabled or suspended
pub const NULL_VERSION_ID: &'static str = "null";

pub const OBJECTS: &'static str = "objects";

pub const UNFINISHED_UPLOADS: &'static str = "unfinished_uploads";

pub const BYTES: &'static str = "bytes";

/// The characters of `NULL_VERSION_ID`.
pub open spec fn null_version_id() -> Seq<char> {
    seq!['n', 'u', 'l', 'l']
}

/// State of an object version
#[derive(Clone, Debug, PartialEq, Eq)]
pub enum ObjectVersionState {
    /// The version is being received
    Uploading {
        /// Indicates whether this is a multipart upload
        multipart: bool,
        /// Checksum algorithm and algorithm type to use
        checksum_algorithm: Option<(ChecksumAlgorithm, ChecksumType)>,
        /// Encryption params + headers to be included in the final object
        encryption: ObjectVersionEncryption,
    },
    /// The version is fully received
    Complete(ObjectVersionData),
    /// The version upload contained errors or the upload was explicitly
    /// aborted, or the version was permanently deleted
    Aborted,
}

/// Whether an object version has its own S3 version id
///
/// If two nodes ever disagree, the version is kept rather than dropped.
#[derive(Clone, Copy, Debug, PartialEq, Eq, Structural)]
pub enum ObjectVersionKind {
    /// The version was created while bucket versioning was disabled or
    /// suspended: its S3 version id is the special value `null`, and it is
    /// replaced by the next write to the same key
    Null,
    /// The version was created while bucket versioning was enabled: it has
    /// its own S3 version id and is kept until it is explicitly deleted
    Versioned,
}

/// Information about a version of an object
#[derive(Clone, Debug, PartialEq, Eq)]
pub struct ObjectVersion {
    /// Id of the version
    pub uuid: Uuid,
    /// Timestamp of when the object was created
    pub timestamp: u64,
    /// State of the version
    pub state: ObjectVersionState,
    /// Whether this version has its own S3 version id, or is the object's
    /// replaceable `null` version
    pub kind: ObjectVersionKind,
    /// Object Lock retention setting of this version
    pub retention: ObjectLockRetention,
    /// Object Lock legal hold status of this version
    pub legal_hold: Lww<bool>,
}

// ---- Mathematical values ----

pub enum StateView {
    Uploading {
        multipart: bool,
        checksum_algorithm: Option<(ChecksumAlgorithm, ChecksumType)>,
        encryption: EncryptionView,
    },
    Complete(DataView),
    Aborted,
}

pub struct VersionView {
    pub uuid: Uuid,
    pub timestamp: u64,
    pub state: StateView,
    pub kind: ObjectVersionKind,
    pub retention: ObjectLockRetention,
    pub legal_hold: Lww<bool>,
}

impl View for ObjectVersionState {
    type V = StateView;

    open spec fn view(&self) -> StateView {
        match self {
            ObjectVersionState::Uploading { multipart, checksum_algorithm, encryption } => {
                StateView::Uploading {
                    multipart: *multipart,
                    checksum_algorithm: *checksum_algorithm,
                    encryption: encryption@,
                }
            },
            ObjectVersionState::Complete(d) => StateView::Complete(d@),
            ObjectVersionState::Aborted => StateView::Aborted,
        }
    }
}

impl View for ObjectVersion {
    type V = VersionView;

    open spec fn view(&self) -> VersionView {
        VersionView {
            uuid: self.uuid,
            timestamp: self.timestamp,
            state: self.state@,
            kind: self.kind,
            retention: self.retention,
            legal_hold: self.legal_hold,
        }
    }
}

/// The views of a list of versions.
pub open spec fn views(s: Seq<ObjectVersion>) -> Seq<VersionView> {
    s.map_values(|v: ObjectVersion| v@)
}

// ---- Properties of a version ----

pub open spec fn is_complete(v: VersionView) -> bool {
    v.state is Complete
}

pub open spec fn is_uploading(v: VersionView, check_multipart: Option<bool>) -> bool {
    match v.state {
        StateView::Uploading { multipart, .. } => match check_multipart {
            Some(m) => m == multipart,
            None => true,
        },
        _ => false,
    }
}

pub open spec fn is_data(v: VersionView) -> bool {
    match v.state {
        StateView::Complete(DataView::DeleteMarker) => false,
        StateView::Complete(_) => true,
        _ => false,
    }
}

pub open spec fn is_delete_marker(v: VersionView) -> bool {
    v.state == StateView::Complete(DataView::DeleteMarker)
}

/// Versions created while bucket versioning was enabled are kept until they
/// are explicitly deleted, at which point they are put in the `Aborted` state.
pub open spec fn is_retained(v: VersionView) -> bool {
    v.kind == ObjectVersionKind::Versioned && !(v.state is Aborted)
}

/// The S3 version id of a version.
pub open spec fn version_id_of(v: VersionView) -> Seq<char> {
    match v.kind {
        ObjectVersionKind::Null => null_version_id(),
        ObjectVersionKind::Versioned => hex_lower(v.uuid.bytes@),
    }
}

/// What protects a version from being deleted at `timestamp`: its legal
/// hold, whatever its retention says, and otherwise its retention while it
/// is in effect.
pub open spec fn delete_protection_at(v: VersionView, timestamp: u64) -> DeleteProtection {
    protection(v.legal_hold.v, v.retention.retention, timestamp)
}

// ---- Merging replicas of a version ----

/// The state that results of merging two replicas of the state of a version:
/// an abort wins over everything, a complete upload wins over an ongoing
/// one, and of two different complete uploads the greatest wins.
pub open spec fn state_merge(a: StateView, b: StateView) -> StateView {
    match b {
        StateView::Aborted => StateView::Aborted,
        StateView::Complete(db) => match a {
            StateView::Aborted => StateView::Aborted,
            StateView::Complete(da) => StateView::Complete(
                if data_order(db, da) > 0 {
                    db
                } else {
                    da
                },
            ),
            StateView::Uploading { .. } => StateView::Complete(db),
        },
        StateView::Uploading { .. } => a,
    }
}

/// A version is `Versioned` as soon as one replica says it is.
pub open spec fn kind_merge(a: ObjectVersionKind, b: ObjectVersionKind) -> ObjectVersionKind {
    if a == ObjectVersionKind::Versioned || b == ObjectVersionKind::Versioned {
        ObjectVersionKind::Versioned
    } else {
        ObjectVersionKind::Null
    }
}

/// The version that results of merging replica `b` into replica `a`.
pub open spec fn version_merge(a: VersionView, b: VersionView) -> VersionView {
    VersionView {
        uuid: a.uuid,
        timestamp: a.timestamp,
        state: state_merge(a.state, b.state),
        kind: kind_merge(a.kind, b.kind),
        retention: retention_merge(a.retention, b.retention),
        legal_hold: lww_bool_merge(a.legal_hold, b.legal_hold),
    }
}

impl ObjectVersionState {
    /// A copy of this state.
    pub fn copy(&self) -> (r: Self)
        ensures
            r@ == self@,
    {
        match self {
            ObjectVersionState::Uploading { multipart, checksum_algorithm, encryption } => {
                ObjectVersionState::Uploading {
                    multipart: *multipart,
                    checksum_algorithm: *checksum_algorithm,
                    encryption: encryption.copy(),
                }
            },
            ObjectVersionState::Complete(d) => ObjectVersionState::Complete(d.copy()),
            ObjectVersionState::Aborted => ObjectVersionState::Aborted,
        }
    }

    /// Merge another replica of this state into this one.
    pub fn merge(&mut self, other: &Self)
        ensures
            final(self)@ == state_merge(old(self)@, other@),
    {
        match other {
            ObjectVersionState::Aborted => {
                *self = ObjectVersionState::Aborted;
            },
            ObjectVersionState::Complete(b) => {
                let replace = match &*self {
                    ObjectVersionState::Aborted => false,
                    ObjectVersionState::Complete(a) => compare_data(b, a) > 0,
                    ObjectVersionState::Uploading { .. } => true,
                };
                if replace {
                    *self = ObjectVersionState::Complete(b.copy());
                }
            },
            ObjectVersionState::Uploading { .. } => {},
        }
    }

    fn is_aborted(&self) -> (r: bool)
        ensures
            r == (self@ is Aborted),
    {
        matches!(self, ObjectVersionState::Aborted)
    }
}

impl ObjectVersionKind {
    /// The kind of the versions that are created by writes to a bucket that is
    /// in the given versioning state
    pub fn for_versioning_state(state: VersioningState) -> (r: Self)
        ensures
            r == (if state == VersioningState::Enabled {
                ObjectVersionKind::Versioned
            } else {
                ObjectVersionKind::Null
            }),
    {
        match state {
            VersioningState::Enabled => ObjectVersionKind::Versioned,
            VersioningState::Disabled | VersioningState::Suspended => ObjectVersionKind::Null,
        }
    }

    /// Merge another replica of this kind into this one.
    pub fn merge(&mut self, other: &Self)
        ensures
            *final(self) == kind_merge(*old(self), *other),
    {
        if *other == ObjectVersionKind::Versioned {
            *self = ObjectVersionKind::Versioned;
        }
    }
}

impl ObjectVersion {
    /// Create a new object version, with no Object Lock settings
    pub fn new(uuid: Uuid, timestamp: u64, kind: ObjectVersionKind, state: ObjectVersionState) -> (r: Self)
        ensures
            r@ == (VersionView {
                uuid,
                timestamp,
                state: state@,
                kind,
                retention: ObjectLockRetention { ts: 0, retention: None },
                legal_hold: Lww { ts: 0, v: false },
            }),
    {
        ObjectVersion {
            uuid,
            timestamp,
            state,
            kind,
            retention: ObjectLockRetention::none(),
            legal_hold: Lww::raw(0, false),
        }
    }

    /// The view of a new object version, with no Object Lock settings.
    pub open spec fn new_view(uuid: Uuid, timestamp: u64, kind: ObjectVersionKind, state: StateView) -> VersionView {
        VersionView {
            uuid,
            timestamp,
            state,
            kind,
            retention: ObjectLockRetention { ts: 0, retention: None },
            legal_hold: Lww { ts: 0, v: false },
        }
    }

    /// A copy of this version.
    pub fn copy(&self) -> (r: Self)
        ensures
            r@ == self@,
    {
        ObjectVersion {
            uuid: self.uuid,
            timestamp: self.timestamp,
            state: self.state.copy(),
            kind: self.kind,
            retention: self.retention,
            legal_hold: self.legal_hold,
        }
    }

    /// Is the object version currently being uploaded
    ///
    /// matches only multipart uploads if `check_multipart` is Some(true)
    /// matches only non-multipart uploads if `check_multipart` is Some(false)
    /// matches both if `check_multipart` is None
    pub fn is_uploading(&self, check_multipart: Option<bool>) -> (r: bool)
        ensures
            r == is_uploading(self@, check_multipart),
    {
        match &self.state {
            ObjectVersionState::Uploading { multipart, .. } => match check_multipart {
                Some(m) => m == *multipart,
                None => true,
            },
            _ => false,
        }
    }

    /// Is the object version completely received
    pub fn is_complete(&self) -> (r: bool)
        ensures
            r == is_complete(self@),
    {
        matches!(self.state, ObjectVersionState::Complete(_))
    }

    /// Is the object version available (received and not a tombstone)
    pub fn is_data(&self) -> (r: bool)
        ensures
            r == is_data(self@),
    {
        match &self.state {
            ObjectVersionState::Complete(ObjectVersionData::DeleteMarker) => false,
            ObjectVersionState::Complete(_) => true,
            _ => false,
        }
    }

    /// Is the object version a delete marker
    pub fn is_delete_marker(&self) -> (r: bool)
        ensures
            r == is_delete_marker(self@),
    {
        matches!(self.state, ObjectVersionState::Complete(ObjectVersionData::DeleteMarker))
    }

    /// Is this version kept even when a more recent version of the object exists
    ///
    /// Versions created while bucket versioning was enabled are kept until they
    /// are explicitly deleted, at which point they are put in the `Aborted`
    /// state so that the data they reference is garbage-collected.
    pub fn is_retained(&self) -> (r: bool)
        ensures
            r == is_retained(self@),
    {
        self.kind == ObjectVersionKind::Versioned && !self.state.is_aborted()
    }

    /// What prevents this version from being permanently deleted at the given
    /// date, if anything
    pub fn delete_protection(&self, timestamp: u64) -> (r: DeleteProtection)
        ensures
            r == delete_protection_at(self@, timestamp),
    {
        // A legal hold protects a version independently of its retention
        // setting, and can never be bypassed.
        if *self.legal_hold.get() {
            return DeleteProtection::LegalHold;
        }
        match self.retention.get() {
            Some(r) => {
                if r.is_active_at(timestamp) {
                    match r.mode {
                        ObjectLockMode::Governance => DeleteProtection::Governance {
                            retain_until: r.retain_until,
                        },
                        ObjectLockMode::Compliance => DeleteProtection::Compliance {
                            retain_until: r.retain_until,
                        },
                    }
                } else {
                    DeleteProtection::Unprotected
                }
            },
            None => DeleteProtection::Unprotected,
        }
    }

    /// The S3 version id of this version
    pub fn version_id(&self) -> (r: String)
        ensures
            r@ == version_id_of(self@),
    {
        match self.kind {
            ObjectVersionKind::Null => {
                let s = String::from_str(NULL_VERSION_ID);
                proof {
                    reveal_strlit("null");
                }
                s
            },
            ObjectVersionKind::Versioned => hex_encode(self.uuid.as_slice()),
        }
    }

    /// Merge another replica of this version into this one
    pub fn merge(&mut self, other: &Self)
        ensures
            final(self)@ == version_merge(old(self)@, other@),
    {
        self.state.merge(&other.state);
        self.kind.merge(&other.kind);
        self.retention.merge(&other.retention);
        self.legal_hold.merge(&other.legal_hold);
    }
}

// ---- Ordering of the versions of an object ----

/// Versions are sorted by timestamp, then by uuid.
pub open spec fn key_lt(a: VersionView, b: VersionView) -> bool {
    a.timestamp < b.timestamp || (a.timestamp == b.timestamp && bytes_order(
        a.uuid.bytes@,
        b.uuid.bytes@,
    ) < 0)
}

/// Two versions have the same timestamp and uuid: they are replicas of the
/// same version.
pub open spec fn same_key(a: VersionView, b: VersionView) -> bool {
    a.timestamp == b.timestamp && a.uuid == b.uuid
}

/// The versions are sorted, and each appears once.
pub open spec fn sorted(s: Seq<VersionView>) -> bool {
    forall|i: int, j: int| 0 <= i < j < s.len() ==> key_lt(#[trigger] s[i], #[trigger] s[j])
}

pub proof fn lemma_key_order(a: VersionView, b: VersionView, c: VersionView)
    ensures
        key_lt(a, b) ==> !key_lt(b, a) && !same_key(a, b),
        key_lt(a, b) || key_lt(b, a) || same_key(a, b),
        key_lt(a, b) && key_lt(b, c) ==> key_lt(a, c),
        same_key(a, b) && key_lt(b, c) ==> key_lt(a, c),
        key_lt(a, b) && same_key(b, c) ==> key_lt(a, c),
{
    lemma_bytes_order_antisym(a.uuid.bytes@, b.uuid.bytes@);
    if a.uuid.bytes@ == b.uuid.bytes@ {
        assert(a.uuid.bytes =~= b.uuid.bytes);
    }
    if key_lt(a, b) && key_lt(b, c) && a.timestamp == b.timestamp && b.timestamp == c.timestamp {
        lemma_bytes_order_trans(a.uuid.bytes@, b.uuid.bytes@, c.uuid.bytes@);
    }
}

/// Compare the keys of two versions: negative, zero or positive as `a` comes
/// before `b`, is a replica of it, or comes after it.
fn compare_key(a: &ObjectVersion, b: &ObjectVersion) -> (r: i8)
    ensures
        r < 0 <==> key_lt(a@, b@),
        r == 0 <==> same_key(a@, b@),
        r > 0 <==> key_lt(b@, a@),
{
    proof {
        lemma_key_order(a@, b@, b@);
    }
    if a.timestamp < b.timestamp {
        -1
    } else if a.timestamp > b.timestamp {
        1
    } else {
        let c = compare_bytes(a.uuid.as_slice(), b.uuid.as_slice());
        proof {
            lemma_bytes_order_antisym(a.uuid.bytes@, b.uuid.bytes@);
            lemma_bytes_order_antisym(b.uuid.bytes@, a.uuid.bytes@);
            if c == 0 {
                assert(a.uuid.bytes =~= b.uuid.bytes);
            }
        }
        c
    }
}

/// Where a version with the key of `v` stands in sorted `versions`: `Ok(i)`
/// if `versions[i]` has that key, `Err(i)` if it belongs at index `i`.
fn search(versions: &Vec<ObjectVersion>, v: &ObjectVersion) -> (r: Result<usize, usize>)
    requires
        sorted(views(versions@)),
    ensures
        match r {
            Ok(i) => i < versions@.len() && same_key(versions@[i as int]@, v@),
            Err(i) => i <= versions@.len() && (forall|j: int|
                0 <= j < i ==> key_lt(#[trigger] versions@[j]@, v@)) && (forall|j: int|
                i <= j < versions@.len() ==> key_lt(v@, #[trigger] versions@[j]@)),
        },
{
    let ghost s = views(versions@);
    let mut lo: usize = 0;
    let mut hi: usize = versions.len();
    while lo < hi
        invariant
            s == views(versions@),
            sorted(s),
            lo <= hi <= versions@.len(),
            forall|j: int| 0 <= j < lo ==> key_lt(#[trigger] versions@[j]@, v@),
            forall|j: int| hi <= j < versions@.len() ==> key_lt(v@, #[trigger] versions@[j]@),
        decreases hi - lo,
    {
        let mid = lo + (hi - lo) / 2;
        let c = compare_key(&versions[mid], v);
        if c == 0 {
            return Ok(mid);
        } else if c < 0 {
            proof {
                assert forall|j: int| 0 <= j <= mid implies key_lt(#[trigger] versions@[j]@, v@) by {
                    if j < mid {
                        assert(s[j] == versions@[j]@);
                        assert(s[mid as int] == versions@[mid as int]@);
                        lemma_key_order(versions@[j]@, versions@[mid as int]@, v@);
                    }
                }
            }
            lo = mid + 1;
        } else {
            proof {
                assert forall|j: int| mid <= j < versions@.len() implies key_lt(v@, #[trigger] versions@[j]@) by {
                    if j > mid {
                        assert(s[j] == versions@[j]@);
                        assert(s[mid as int] == versions@[mid as int]@);
                        lemma_key_order(v@, versions@[mid as int]@, versions@[j]@);
                    }
                }
            }
            hi = mid;
        }
    }
    Err(lo)
}


// ---- Objects ----

/// An object
#[derive(Clone, Debug, PartialEq, Eq)]
pub struct Object {
    /// The bucket in which the object is stored, used as partition key
    pub bucket_id: Uuid,
    /// The key at which the object is stored in its bucket, used as sorting key
    pub key: String,
    /// The list of currently stored versions of the object
    versions: Vec<ObjectVersion>,
}

pub struct ObjectView {
    pub bucket_id: Uuid,
    pub key: Seq<char>,
    pub versions: Seq<VersionView>,
}

impl View for Object {
    type V = ObjectView;

    closed spec fn view(&self) -> ObjectView {
        ObjectView { bucket_id: self.bucket_id, key: self.key@, versions: views(self.versions@) }
    }
}

/// Whether `s` holds a replica of version `v`.
pub open spec fn has_key(s: Seq<VersionView>, v: VersionView) -> bool {
    exists|i: int| 0 <= i < s.len() && same_key(#[trigger] s[i], v)
}

/// Whether a version answers a lookup: for completely uploaded versions
/// only if `complete_only`, and for the given S3 version id if there is one.
pub open spec fn answers(v: VersionView, complete_only: bool, id: Option<Seq<char>>) -> bool {
    &&& (!complete_only || is_complete(v))
    &&& match id {
        Some(s) => version_id_of(v) == s,
        None => true,
    }
}

/// The index of the last version of `s` that answers a lookup, -1 if there is
/// none.
pub open spec fn last_answer(s: Seq<VersionView>, complete_only: bool, id: Option<Seq<char>>) -> int
    decreases s.len(),
{
    if s.len() == 0 {
        -1
    } else if answers(s.last(), complete_only, id) {
        s.len() - 1
    } else {
        last_answer(s.drop_last(), complete_only, id)
    }
}

pub proof fn lemma_last_answer(s: Seq<VersionView>, complete_only: bool, id: Option<Seq<char>>)
    ensures
        -1 <= last_answer(s, complete_only, id) < s.len(),
        last_answer(s, complete_only, id) >= 0 ==> answers(
            s[last_answer(s, complete_only, id)],
            complete_only,
            id,
        ),
        forall|j: int|
            last_answer(s, complete_only, id) < j < s.len() ==> !answers(
                #[trigger] s[j],
                complete_only,
                id,
            ),
    decreases s.len(),
{
    if s.len() > 0 && !answers(s.last(), complete_only, id) {
        lemma_last_answer(s.drop_last(), complete_only, id);
        assert forall|j: int| last_answer(s, complete_only, id) < j < s.len() implies !answers(
            #[trigger] s[j],
            complete_only,
            id,
        ) by {
            if j < s.len() - 1 {
                assert(s[j] == s.drop_last()[j]);
            }
        }
    }
}

/// The index of the last version of `s` that is completely uploaded: the
/// current version of the object, -1 if there is none.
pub open spec fn last_complete(s: Seq<VersionView>) -> int {
    last_answer(s, true, None)
}

/// The version of `s` with the given S3 version id that a request refers to:
/// the last completely uploaded one, -1 if there is none.
pub open spec fn last_with_id(s: Seq<VersionView>, id: Seq<char>) -> int {
    last_answer(s, true, Some(id))
}

impl Object {
    /// The versions of the object are sorted by timestamp and uuid, and each
    /// appears once.
    pub open spec fn wf(&self) -> bool {
        sorted(self@.versions)
    }

    /// An object with no version.
    pub fn empty(bucket_id: Uuid, key: String) -> (r: Self)
        ensures
            r.wf(),
            r@.bucket_id == bucket_id,
            r@.key == key@,
            r@.versions.len() == 0,
    {
        let r = Object { bucket_id, key, versions: Vec::new() };
        assert(r@.versions =~= Seq::<VersionView>::empty());
        r
    }

    /// Initialize an Object struct from parts. No two of the versions may be
    /// replicas of the same version.
    pub fn new(bucket_id: Uuid, key: String, versions: Vec<ObjectVersion>) -> (r: Self)
        requires
            forall|i: int, j: int|
                0 <= i < j < versions@.len() ==> !same_key(#[trigger] versions@[i]@, #[trigger] versions@[j]@),
        ensures
            r.wf(),
            r@.bucket_id == bucket_id,
            r@.key == key@,
            r@.versions.len() == versions@.len(),
            forall|x: VersionView| r@.versions.contains(x) <==> views(versions@).contains(x),
    {
        let ghost orig = versions@;
        let mut ret = Object::empty(bucket_id, key);
        let mut versions = versions;
        while versions.len() > 0
            invariant
                ret.wf(),
                ret@.bucket_id == bucket_id,
                ret@.key == key@,
                versions@ == orig.take(versions@.len() as int),
                versions@.len() <= orig.len(),
                ret@.versions.len() == orig.len() - versions@.len(),
                forall|i: int, j: int|
                    0 <= i < j < orig.len() ==> !same_key(#[trigger] orig[i]@, #[trigger] orig[j]@),
                forall|x: VersionView|
                    ret@.versions.contains(x) <==> exists|k: int|
                        versions@.len() <= k < orig.len() && x == #[trigger] orig[k]@,
            decreases versions@.len(),
        {
            let ghost n = versions@.len() as int;
            let v = versions.pop().unwrap();
            assert(v == orig[n - 1]);
            proof {
                assert forall|i: int| 0 <= i < ret@.versions.len() implies !same_key(#[trigger] ret@.versions[i], v@) by {
                    assert(ret@.versions.contains(ret@.versions[i]));
                    let k = choose|k: int| n <= k < orig.len() && ret@.versions[i] == #[trigger] orig[k]@;
                    assert(!same_key(orig[n - 1]@, orig[k]@));
                }
            }
            let res = ret.add_version(v);
            assert(res is Ok);
            proof {
                assert forall|x: VersionView|
                    ret@.versions.contains(x) <==> exists|k: int|
                        n - 1 <= k < orig.len() && x == #[trigger] orig[k]@ by {
                    if x == v@ {
                        assert(orig[n - 1]@ == x);
                    }
                    if exists|k: int| n - 1 <= k < orig.len() && x == #[trigger] orig[k]@ {
                        let k = choose|k: int| n - 1 <= k < orig.len() && x == #[trigger] orig[k]@;
                        if k > n - 1 {
                            assert(exists|k2: int| n <= k2 < orig.len() && x == #[trigger] orig[k2]@);
                        }
                    }
                }
                assert(versions@ =~= orig.take(versions@.len() as int));
            }
        }
        proof {
            assert forall|x: VersionView| ret@.versions.contains(x) <==> views(orig).contains(x) by {
                if views(orig).contains(x) {
                    let k = choose|k: int| 0 <= k < views(orig).len() && views(orig)[k] == x;
                    assert(x == orig[k]@);
                }
                if ret@.versions.contains(x) {
                    let k = choose|k: int| 0 <= k < orig.len() && x == #[trigger] orig[k]@;
                    assert(views(orig)[k] == x);
                }
            }
        }
        ret
    }

    /// Adds a version if it wasn't already present
    pub fn add_version(&mut self, new: ObjectVersion) -> (r: Result<(), ()>)
        requires
            old(self).wf(),
        ensures
            final(self).wf(),
            final(self)@.bucket_id == old(self)@.bucket_id,
            final(self)@.key == old(self)@.key,
            has_key(old(self)@.versions, new@) ==> r is Err && final(self)@ == old(self)@,
            !has_key(old(self)@.versions, new@) ==> r is Ok && final(self)@.versions.len()
                == old(self)@.versions.len() + 1 && forall|x: VersionView|
                final(self)@.versions.contains(x) <==> (old(self)@.versions.contains(x) || x
                    == new@),
    {
        match search(&self.versions, &new) {
            Err(i) => {
                let ghost old_versions = self.versions@;
                let ghost nv = new@;
                self.versions.insert(i, new);
                proof {
                    let s = views(self.versions@);
                    let o = views(old_versions);
                    assert(s =~= o.insert(i as int, nv));
                    assert forall|a: int, b: int| 0 <= a < b < s.len() implies key_lt(#[trigger] s[a], #[trigger] s[b]) by {
                        if b < i {
                            assert(s[a] == o[a] && s[b] == o[b]);
                        } else if b == i {
                            assert(s[a] == old_versions[a]@);
                        } else if a < i {
                            assert(s[a] == old_versions[a]@);
                            assert(s[b] == old_versions[b - 1]@);
                            lemma_key_order(s[a], nv, s[b]);
                        } else if a == i {
                            assert(s[b] == old_versions[b - 1]@);
                        } else {
                            assert(s[a] == o[a - 1] && s[b] == o[b - 1]);
                        }
                    }
                    assert forall|j: int| 0 <= j < o.len() implies !same_key(#[trigger] o[j], nv) by {
                        assert(o[j] == old_versions[j]@);
                        lemma_key_order(o[j], nv, nv);
                    }
                    assert forall|x: VersionView| s.contains(x) <==> (o.contains(x) || x == nv) by {
                        if s.contains(x) {
                            let k = choose|k: int| 0 <= k < s.len() && s[k] == x;
                            if k < i {
                                assert(o[k] == x);
                            } else if k > i {
                                assert(o[k - 1] == x);
                            }
                        }
                        if o.contains(x) {
                            let k = choose|k: int| 0 <= k < o.len() && o[k] == x;
                            if k < i {
                                assert(s[k] == x);
                            } else {
                                assert(s[k + 1] == x);
                            }
                        }
                        if x == nv {
                            assert(s[i as int] == x);
                        }
                    }
                }
                Ok(())
            },
            Ok(i) => {
                assert(views(self.versions@)[i as int] == self.versions@[i as int]@);
                Err(())
            },
        }
    }

    /// An object whose versions are already sorted.
    pub fn from_sorted(bucket_id: Uuid, key: String, versions: Vec<ObjectVersion>) -> (r: Self)
        requires
            sorted(views(versions@)),
        ensures
            r.wf(),
            r@.bucket_id == bucket_id,
            r@.key == key@,
            r@.versions == views(versions@),
    {
        Object { bucket_id, key, versions }
    }

    /// A copy of the key of the object
    pub fn key_string(&self) -> (r: String)
        ensures
            r@ == self@.key,
    {
        self.key.clone()
    }

    /// The key of the object
    pub fn key_str(&self) -> (r: &str)
        ensures
            r@ == self@.key,
    {
        self.key.as_str()
    }

    /// The bucket of the object
    pub fn bucket(&self) -> (r: Uuid)
        ensures
            r == self@.bucket_id,
    {
        self.bucket_id
    }

    /// Get a list of currently stored versions of `Object`
    pub fn versions(&self) -> (r: &[ObjectVersion])
        ensures
            views(r@) == self@.versions,
    {
        self.versions.as_slice()
    }

    /// The index of the last version that answers a lookup.
    fn find_last(&self, complete_only: bool, id: Option<&str>) -> (r: Option<usize>)
        ensures
            ({
                let q = match id {
                    Some(x) => Some(x@),
                    None => None,
                };
                &&& r is Some <==> last_answer(self@.versions, complete_only, q) >= 0
                &&& r matches Some(i) ==> i == last_answer(self@.versions, complete_only, q)
                    && i < self@.versions.len()
            }),
    {
        let ghost q = match id {
            Some(x) => Some(x@),
            None => None,
        };
        let ghost s = self@.versions;
        proof {
            lemma_last_answer(s, complete_only, q);
        }
        let mut i = self.versions.len();
        assert(s.take(i as int) =~= s);
        while i > 0
            invariant
                s == views(self.versions@),
                q == match id {
                    Some(x) => Some(x@),
                    None => None,
                },
                i <= s.len(),
                last_answer(s, complete_only, q) == last_answer(s.take(i as int), complete_only, q),
            decreases i,
        {
            let v = &self.versions[i - 1];
            let c = !complete_only || v.is_complete();
            let m = match id {
                Some(want) => {
                    let vid = v.version_id();
                    let e = str_eq(vid.as_str(), want);
                    assert(e == (version_id_of(v@) == want@));
                    e
                },
                None => true,
            };
            assert(m == match q {
                Some(x) => version_id_of(v@) == x,
                None => true,
            });
            let ok = c && m;
            assert(s.take(i as int).last() == v@);
            assert(ok == answers(v@, complete_only, q));
            if ok {
                return Some(i - 1);
            }
            assert(s.take(i as int).drop_last() =~= s.take(i - 1));
            i = i - 1;
        }
        assert(s.take(0) =~= Seq::<VersionView>::empty());
        None
    }

    /// The current version of the object: the most recent version that has been
    /// completely uploaded, if any. Note that this may be a delete marker.
    pub fn current_version(&self) -> (r: Option<&ObjectVersion>)
        ensures
            r is Some <==> last_complete(self@.versions) >= 0,
            r matches Some(v) ==> v@ == self@.versions[last_complete(self@.versions)],
    {
        match self.find_last(true, None) {
            Some(i) => Some(&self.versions[i]),
            None => None,
        }
    }

    /// Get a completely uploaded version of this object by its S3 version id
    pub fn version_by_id(&self, version_id: &str) -> (r: Option<&ObjectVersion>)
        ensures
            r is Some <==> last_with_id(self@.versions, version_id@) >= 0,
            r matches Some(v) ==> v@ == self@.versions[last_with_id(self@.versions, version_id@)],
    {
        match self.find_last(true, Some(version_id)) {
            Some(i) => Some(&self.versions[i]),
            None => None,
        }
    }

    /// Does the object currently exist, i.e. is its current version data
    /// rather than a delete marker
    pub fn is_data(&self) -> (r: bool)
        ensures
            r == (last_complete(self@.versions) >= 0 && is_data(
                self@.versions[last_complete(self@.versions)],
            )),
    {
        match self.current_version() {
            Some(v) => v.is_data(),
            None => false,
        }
    }

    /// Whether the object can be forgotten: its only version is a `null`
    /// delete marker. A delete marker that is a retained S3 version is not a
    /// tombstone, as it is listed and can be deleted to restore the previous
    /// version of the object.
    pub fn is_tombstone(&self) -> (r: bool)
        ensures
            r == (self@.versions.len() == 1 && self@.versions[0].kind == ObjectVersionKind::Null
                && is_delete_marker(self@.versions[0])),
    {
        self.versions.len() == 1 && self.versions[0].kind == ObjectVersionKind::Null
            && self.versions[0].is_delete_marker()
    }
}


// ---- Merging replicas of an object ----

/// The versions that two replicas of an object hold together, in order: a
/// version held by both is the merge of its two replicas.
pub open spec fn union_merge(a: Seq<VersionView>, b: Seq<VersionView>) -> Seq<VersionView>
    decreases a.len() + b.len(),
{
    if a.len() == 0 {
        b
    } else if b.len() == 0 {
        a
    } else if key_lt(a[0], b[0]) {
        seq![a[0]] + union_merge(a.drop_first(), b)
    } else if key_lt(b[0], a[0]) {
        seq![b[0]] + union_merge(a, b.drop_first())
    } else {
        seq![version_merge(a[0], b[0])] + union_merge(a.drop_first(), b.drop_first())
    }
}

/// The versions of `s` that are retained as distinct S3 versions.
pub open spec fn keep_retained(s: Seq<VersionView>) -> Seq<VersionView>
    decreases s.len(),
{
    if s.len() == 0 {
        s
    } else if is_retained(s.last()) {
        keep_retained(s.drop_last()).push(s.last())
    } else {
        keep_retained(s.drop_last())
    }
}

/// Versions which are obsolete are dropped: those that come before the last
/// completely uploaded version, except the ones that are retained as
/// distinct S3 versions.
pub open spec fn prune(s: Seq<VersionView>) -> Seq<VersionView> {
    let l = last_complete(s);
    if l < 0 {
        s
    } else {
        keep_retained(s.take(l)) + s.skip(l)
    }
}

/// The versions of the object that results of merging replica `b` into
/// replica `a`.
pub open spec fn object_merge(a: Seq<VersionView>, b: Seq<VersionView>) -> Seq<VersionView> {
    prune(union_merge(a, b))
}

/// Every version of a merge is a replica of a version of one of the two sides.
proof fn lemma_union_keys(a: Seq<VersionView>, b: Seq<VersionView>)
    ensures
        forall|k: int|
            0 <= k < union_merge(a, b).len() ==> has_key(a, #[trigger] union_merge(a, b)[k])
                || has_key(b, union_merge(a, b)[k]),
    decreases a.len() + b.len(),
{
    let u = union_merge(a, b);
    if a.len() == 0 || b.len() == 0 {
        assert forall|k: int| 0 <= k < u.len() implies has_key(a, #[trigger] u[k]) || has_key(b, u[k]) by {
            if a.len() == 0 {
                assert(same_key(b[k], u[k]));
            } else {
                assert(same_key(a[k], u[k]));
            }
        }
    } else if key_lt(a[0], b[0]) {
        lemma_union_keys(a.drop_first(), b);
        assert forall|k: int| 0 <= k < u.len() implies has_key(a, #[trigger] u[k]) || has_key(b, u[k]) by {
            if k == 0 {
                assert(same_key(a[0], u[k]));
            } else {
                let r = union_merge(a.drop_first(), b);
                assert(u[k] == r[k - 1]);
                if has_key(a.drop_first(), r[k - 1]) {
                    let i = choose|i: int| 0 <= i < a.drop_first().len() && same_key(#[trigger] a.drop_first()[i], r[k - 1]);
                    assert(same_key(a[i + 1], u[k]));
                }
            }
        }
    } else if key_lt(b[0], a[0]) {
        lemma_union_keys(a, b.drop_first());
        assert forall|k: int| 0 <= k < u.len() implies has_key(a, #[trigger] u[k]) || has_key(b, u[k]) by {
            if k == 0 {
                assert(same_key(b[0], u[k]));
            } else {
                let r = union_merge(a, b.drop_first());
                assert(u[k] == r[k - 1]);
                if has_key(b.drop_first(), r[k - 1]) {
                    let i = choose|i: int| 0 <= i < b.drop_first().len() && same_key(#[trigger] b.drop_first()[i], r[k - 1]);
                    assert(same_key(b[i + 1], u[k]));
                }
            }
        }
    } else {
        lemma_union_keys(a.drop_first(), b.drop_first());
        assert forall|k: int| 0 <= k < u.len() implies has_key(a, #[trigger] u[k]) || has_key(b, u[k]) by {
            if k == 0 {
                assert(same_key(a[0], u[k]));
            } else {
                let r = union_merge(a.drop_first(), b.drop_first());
                assert(u[k] == r[k - 1]);
                if has_key(a.drop_first(), r[k - 1]) {
                    let i = choose|i: int| 0 <= i < a.drop_first().len() && same_key(#[trigger] a.drop_first()[i], r[k - 1]);
                    assert(same_key(a[i + 1], u[k]));
                } else {
                    let i = choose|i: int| 0 <= i < b.drop_first().len() && same_key(#[trigger] b.drop_first()[i], r[k - 1]);
                    assert(same_key(b[i + 1], u[k]));
                }
            }
        }
    }
}

/// In a sorted list, every version after the first comes after it.
proof fn lemma_sorted_after_first(s: Seq<VersionView>, v: VersionView)
    requires
        sorted(s),
        s.len() > 0,
        has_key(s.drop_first(), v),
    ensures
        key_lt(s[0], v),
{
    let i = choose|i: int| 0 <= i < s.drop_first().len() && same_key(#[trigger] s.drop_first()[i], v);
    assert(s.drop_first()[i] == s[i + 1]);
    lemma_key_order(s[0], s[i + 1], v);
}

/// Merging two sorted lists of versions gives a sorted list.
proof fn lemma_union_sorted(a: Seq<VersionView>, b: Seq<VersionView>)
    requires
        sorted(a),
        sorted(b),
    ensures
        sorted(union_merge(a, b)),
    decreases a.len() + b.len(),
{
    if a.len() == 0 || b.len() == 0 {
        return;
    }
    assert(sorted(a.drop_first()));
    assert(sorted(b.drop_first()));
    let u = union_merge(a, b);
    let (head, rest) = if key_lt(a[0], b[0]) {
        (a[0], union_merge(a.drop_first(), b))
    } else if key_lt(b[0], a[0]) {
        (b[0], union_merge(a, b.drop_first()))
    } else {
        (version_merge(a[0], b[0]), union_merge(a.drop_first(), b.drop_first()))
    };
    if key_lt(a[0], b[0]) {
        lemma_union_sorted(a.drop_first(), b);
        lemma_union_keys(a.drop_first(), b);
    } else if key_lt(b[0], a[0]) {
        lemma_union_sorted(a, b.drop_first());
        lemma_union_keys(a, b.drop_first());
    } else {
        lemma_union_sorted(a.drop_first(), b.drop_first());
        lemma_union_keys(a.drop_first(), b.drop_first());
    }
    assert(u =~= seq![head] + rest);
    assert forall|k: int| 0 <= k < rest.len() implies key_lt(head, #[trigger] rest[k]) by {
        let x = rest[k];
        if key_lt(a[0], b[0]) {
            if has_key(a.drop_first(), x) {
                lemma_sorted_after_first(a, x);
            } else {
                let j = choose|j: int| 0 <= j < b.len() && same_key(#[trigger] b[j], x);
                lemma_key_order(a[0], b[0], b[j]);
                if j > 0 {
                    lemma_key_order(a[0], b[j], x);
                    lemma_key_order(b[0], b[j], x);
                }
                lemma_key_order(a[0], b[j], x);
            }
        } else if key_lt(b[0], a[0]) {
            if has_key(b.drop_first(), x) {
                lemma_sorted_after_first(b, x);
            } else {
                let j = choose|j: int| 0 <= j < a.len() && same_key(#[trigger] a[j], x);
                lemma_key_order(b[0], a[0], a[j]);
                lemma_key_order(b[0], a[j], x);
            }
        } else {
            lemma_key_order(a[0], b[0], b[0]);
            if has_key(a.drop_first(), x) {
                lemma_sorted_after_first(a, x);
            } else {
                lemma_sorted_after_first(b, x);
                lemma_key_order(a[0], b[0], x);
            }
            lemma_key_order(head, a[0], x);
        }
    }
    assert forall|i: int, j: int| 0 <= i < j < u.len() implies key_lt(#[trigger] u[i], #[trigger] u[j]) by {
        if i == 0 {
            assert(u[j] == rest[j - 1]);
        } else {
            assert(u[i] == rest[i - 1] && u[j] == rest[j - 1]);
        }
    }
}

/// The retained versions of a list are some of its versions, in order.
proof fn lemma_keep_retained(s: Seq<VersionView>)
    ensures
        forall|k: int|
            0 <= k < keep_retained(s).len() ==> s.contains(#[trigger] keep_retained(s)[k]),
        sorted(s) ==> sorted(keep_retained(s)),
        forall|k: int| 0 <= k < keep_retained(s).len() ==> is_retained(#[trigger] keep_retained(s)[k]),
    decreases s.len(),
{
    if s.len() > 0 {
        let t = s.drop_last();
        lemma_keep_retained(t);
        let r = keep_retained(t);
        assert forall|k: int| 0 <= k < r.len() implies s.contains(#[trigger] r[k]) by {
            let i = choose|i: int| 0 <= i < t.len() && t[i] == r[k];
            assert(s[i] == r[k]);
        }
        assert(s[s.len() - 1] == s.last());
        if sorted(s) {
            assert(sorted(t));
            assert forall|k: int| 0 <= k < r.len() implies key_lt(#[trigger] r[k], s.last()) by {
                let i = choose|i: int| 0 <= i < t.len() && t[i] == r[k];
                assert(s[i] == r[k]);
            }
        }
    }
}

/// Dropping obsolete versions keeps the list sorted.
proof fn lemma_prune_sorted(s: Seq<VersionView>)
    requires
        sorted(s),
    ensures
        sorted(prune(s)),
{
    lemma_last_answer(s, true, None);
    let l = last_complete(s);
    if l >= 0 {
        let left = keep_retained(s.take(l));
        let right = s.skip(l);
        lemma_keep_retained(s.take(l));
        let p = left + right;
        assert(sorted(s.take(l)));
        assert forall|i: int, j: int| 0 <= i < j < p.len() implies key_lt(#[trigger] p[i], #[trigger] p[j]) by {
            if j < left.len() {
            } else if i >= left.len() {
                assert(p[i] == s[l + i - left.len()]);
                assert(p[j] == s[l + j - left.len()]);
            } else {
                let a = choose|a: int| 0 <= a < s.take(l).len() && s.take(l)[a] == p[i];
                assert(p[j] == s[l + j - left.len()]);
                assert(s[a] == p[i]);
            }
        }
    }
}

impl Object {
    /// Merge another replica of this object into this one
    pub fn merge(&mut self, other: &Self)
        requires
            old(self).wf(),
            other.wf(),
        ensures
            final(self).wf(),
            final(self)@.bucket_id == old(self)@.bucket_id,
            final(self)@.key == old(self)@.key,
            final(self)@.versions == object_merge(old(self)@.versions, other@.versions),
    {
        let ghost a = self@.versions;
        let ghost b = other@.versions;
        let mut mine: Vec<ObjectVersion> = Vec::new();
        std::mem::swap(&mut mine, &mut self.versions);
        assert(views(mine@) == a);

        // Merge versions from other into here
        let mut merged: Vec<ObjectVersion> = Vec::new();
        let mut i: usize = 0;
        let mut j: usize = 0;
        assert(a.skip(0) =~= a);
        assert(b.skip(0) =~= b);
        assert(views(merged@) =~= Seq::<VersionView>::empty());
        while i < mine.len() || j < other.versions.len()
            invariant
                a == views(mine@),
                b == views(other.versions@),
                i <= a.len(),
                j <= b.len(),
                views(merged@) + union_merge(a.skip(i as int), b.skip(j as int)) == union_merge(a, b),
            decreases a.len() + b.len() - i - j,
        {
            let ghost sa = a.skip(i as int);
            let ghost sb = b.skip(j as int);
            let ghost before = views(merged@);
            if i == mine.len() {
                let v = other.versions[j].copy();
                merged.push(v);
                assert(sb.drop_first() =~= b.skip(j + 1));
                assert(sa.len() == 0);
                assert(union_merge(sa, sb) == sb);
                assert(sb =~= seq![sb[0]] + sb.drop_first());
                assert(views(merged@) =~= before.push(sb[0]));
                assert(union_merge(a.skip(i as int), b.skip(j + 1)) == sb.drop_first());
                j = j + 1;
            } else if j == other.versions.len() {
                let v = mine[i].copy();
                merged.push(v);
                assert(sa.drop_first() =~= a.skip(i + 1));
                assert(sb.len() == 0);
                assert(union_merge(sa, sb) == sa);
                assert(sa =~= seq![sa[0]] + sa.drop_first());
                assert(views(merged@) =~= before.push(sa[0]));
                assert(union_merge(a.skip(i + 1), b.skip(j as int)) == sa.drop_first());
                i = i + 1;
            } else {
                let c = compare_key(&mine[i], &other.versions[j]);
                assert(sa[0] == mine@[i as int]@);
                assert(sb[0] == other.versions@[j as int]@);
                assert(sa.drop_first() =~= a.skip(i + 1));
                assert(sb.drop_first() =~= b.skip(j + 1));
                if c < 0 {
                    let v = mine[i].copy();
                    merged.push(v);
                    assert(views(merged@) =~= before.push(sa[0]));
                    i = i + 1;
                } else if c > 0 {
                    let v = other.versions[j].copy();
                    merged.push(v);
                    assert(views(merged@) =~= before.push(sb[0]));
                    j = j + 1;
                } else {
                    let mut v = mine[i].copy();
                    v.merge(&other.versions[j]);
                    merged.push(v);
                    assert(views(merged@) =~= before.push(version_merge(sa[0], sb[0])));
                    i = i + 1;
                    j = j + 1;
                }
            }
        }
        assert(a.skip(i as int) =~= Seq::<VersionView>::empty());
        assert(b.skip(j as int) =~= Seq::<VersionView>::empty());
        assert(views(merged@) =~= union_merge(a, b));
        proof {
            lemma_union_sorted(a, b);
        }

        // Remove versions which are obsolete, i.e. those that come before the
        // last version which is complete, with the exception of the versions
        // that are retained as distinct S3 versions.
        let ghost u = views(merged@);
        self.versions = merged;
        let last = self.find_last(true, None);
        let mut merged: Vec<ObjectVersion> = Vec::new();
        std::mem::swap(&mut merged, &mut self.versions);
        assert(views(merged@) == u);
        match last {
            None => {
                self.versions = merged;
            },
            Some(l) => {
                let mut kept: Vec<ObjectVersion> = Vec::new();
                let mut k: usize = 0;
                assert(u.take(0) =~= Seq::<VersionView>::empty());
                assert(views(kept@) =~= Seq::<VersionView>::empty());
                while k < l
                    invariant
                        u == views(merged@),
                        l < u.len(),
                        k <= l,
                        views(kept@) == keep_retained(u.take(k as int)),
                    decreases l - k,
                {
                    let ghost before = views(kept@);
                    assert(u.take(k + 1).drop_last() =~= u.take(k as int));
                    assert(u.take(k + 1).last() == merged@[k as int]@);
                    if merged[k].is_retained() {
                        let v = merged[k].copy();
                        kept.push(v);
                        assert(views(kept@) =~= before.push(merged@[k as int]@));
                    }
                    k = k + 1;
                }
                let ghost left = views(kept@);
                while k < merged.len()
                    invariant
                        u == views(merged@),
                        l <= k <= u.len(),
                        views(kept@) == left + u.subrange(l as int, k as int),
                    decreases u.len() - k,
                {
                    let ghost before = views(kept@);
                    let v = merged[k].copy();
                    assert(v@ == u[k as int]);
                    kept.push(v);
                    assert(views(kept@) =~= before.push(u[k as int]));
                    assert(views(kept@) =~= left + u.subrange(l as int, k + 1));
                    k = k + 1;
                }
                assert(u.subrange(l as int, u.len() as int) =~= u.skip(l as int));
                self.versions = kept;
            },
        }
        proof {
            lemma_prune_sorted(u);
        }
    }
}


// ---- Laws of the merge ----

/// Two replicas of a version hold two different ongoing uploads: merging
/// keeps the one it merges into, so the order of the merge matters.
pub open spec fn conflicting_uploads(a: VersionView, b: VersionView) -> bool {
    a.state is Uploading && b.state is Uploading && a.state != b.state
}

proof fn lemma_version_merge_commutative(a: VersionView, b: VersionView)
    requires
        same_key(a, b),
        !conflicting_uploads(a, b),
    ensures
        version_merge(a, b) == version_merge(b, a),
{
    crate::object_lock_state::lemma_retention_merge_laws(a.retention, b.retention, b.retention);
    crate::time::lemma_lww_bool_merge_laws(a.legal_hold, b.legal_hold, b.legal_hold);
    match (a.state, b.state) {
        (StateView::Complete(da), StateView::Complete(db)) => {
            crate::version_data::lemma_data_order(da, db);
        },
        _ => {},
    }
}

proof fn lemma_union_commutative(a: Seq<VersionView>, b: Seq<VersionView>)
    requires
        forall|i: int, j: int|
            0 <= i < a.len() && 0 <= j < b.len() && same_key(#[trigger] a[i], #[trigger] b[j])
                ==> !conflicting_uploads(a[i], b[j]),
    ensures
        union_merge(a, b) == union_merge(b, a),
    decreases a.len() + b.len(),
{
    if a.len() == 0 || b.len() == 0 {
        return;
    }
    lemma_key_order(a[0], b[0], b[0]);
    assert forall|i: int, j: int|
        0 <= i < a.drop_first().len() && 0 <= j < b.len() && same_key(#[trigger] a.drop_first()[i], #[trigger] b[j])
            implies !conflicting_uploads(a.drop_first()[i], b[j]) by {
        assert(a.drop_first()[i] == a[i + 1]);
    }
    assert forall|i: int, j: int|
        0 <= i < a.len() && 0 <= j < b.drop_first().len() && same_key(#[trigger] a[i], #[trigger] b.drop_first()[j])
            implies !conflicting_uploads(a[i], b.drop_first()[j]) by {
        assert(b.drop_first()[j] == b[j + 1]);
    }
    assert forall|i: int, j: int|
        0 <= i < a.drop_first().len() && 0 <= j < b.drop_first().len() && same_key(#[trigger] a.drop_first()[i], #[trigger] b.drop_first()[j])
            implies !conflicting_uploads(a.drop_first()[i], b.drop_first()[j]) by {
        assert(a.drop_first()[i] == a[i + 1]);
        assert(b.drop_first()[j] == b[j + 1]);
    }
    if key_lt(a[0], b[0]) {
        lemma_union_commutative(a.drop_first(), b);
    } else if key_lt(b[0], a[0]) {
        lemma_union_commutative(a, b.drop_first());
    } else {
        lemma_union_commutative(a.drop_first(), b.drop_first());
        lemma_version_merge_commutative(a[0], b[0]);
    }
}

/// Merging two replicas of an object gives the same versions whichever is
/// merged into the other, unless they hold two different ongoing uploads of
/// the same version.
pub proof fn lemma_object_merge_commutative(a: Object, b: Object)
    requires
        a.wf(),
        b.wf(),
        forall|i: int, j: int|
            0 <= i < a@.versions.len() && 0 <= j < b@.versions.len() && same_key(
                #[trigger] a@.versions[i],
                #[trigger] b@.versions[j],
            ) ==> !conflicting_uploads(a@.versions[i], b@.versions[j]),
    ensures
        object_merge(a@.versions, b@.versions) == object_merge(b@.versions, a@.versions),
{
    lemma_union_commutative(a@.versions, b@.versions);
}

/// A merge never drops a version that is retained as a distinct S3 version,
/// nor the current version, nor any version that comes after it.
pub proof fn lemma_object_merge_keeps(a: Object, b: Object)
    requires
        a.wf(),
        b.wf(),
    ensures
        ({
            let u = union_merge(a@.versions, b@.versions);
            let m = object_merge(a@.versions, b@.versions);
            &&& forall|k: int| 0 <= k < u.len() && is_retained(#[trigger] u[k]) ==> m.contains(u[k])
            &&& forall|k: int| 0 <= k < u.len() && last_complete(u) <= k ==> m.contains(#[trigger] u[k])
            &&& forall|k: int| 0 <= k < m.len() ==> u.contains(#[trigger] m[k])
        }),
{
    lemma_prune_keeps(union_merge(a@.versions, b@.versions));
}

/// Pruning keeps the retained versions, the current version and those after
/// it, and adds nothing.
pub(crate) proof fn lemma_prune_keeps(u: Seq<VersionView>)
    ensures
        ({
            let m = prune(u);
            &&& forall|k: int| 0 <= k < u.len() && is_retained(#[trigger] u[k]) ==> m.contains(u[k])
            &&& forall|k: int| 0 <= k < u.len() && last_complete(u) <= k ==> m.contains(#[trigger] u[k])
            &&& forall|k: int| 0 <= k < m.len() ==> u.contains(#[trigger] m[k])
        }),
{
    let m = prune(u);
    lemma_last_answer(u, true, None);
    let l = last_complete(u);
    if l >= 0 {
        let left = keep_retained(u.take(l));
        lemma_keep_retained_all(u.take(l));
        lemma_keep_retained(u.take(l));
        assert forall|k: int| 0 <= k < u.len() && is_retained(#[trigger] u[k]) implies m.contains(u[k]) by {
            if k < l {
                assert(u.take(l)[k] == u[k]);
                let i = choose|i: int| 0 <= i < left.len() && left[i] == u[k];
                assert(m[i] == u[k]);
            } else {
                assert(m[left.len() + k - l] == u[k]);
            }
        }
        assert forall|k: int| 0 <= k < u.len() && last_complete(u) <= k implies m.contains(#[trigger] u[k]) by {
            assert(m[left.len() + k - l] == u[k]);
        }
        assert forall|k: int| 0 <= k < m.len() implies u.contains(#[trigger] m[k]) by {
            if k < left.len() {
                let i = choose|i: int| 0 <= i < u.take(l).len() && u.take(l)[i] == m[k];
                assert(u[i] == m[k]);
            } else {
                assert(m[k] == u[l + k - left.len()]);
            }
        }
    } else {
        assert forall|k: int| 0 <= k < u.len() && is_retained(#[trigger] u[k]) implies m.contains(u[k]) by {
            assert(m[k] == u[k]);
        }
        assert forall|k: int| 0 <= k < u.len() && last_complete(u) <= k implies m.contains(#[trigger] u[k]) by {
            assert(m[k] == u[k]);
        }
        assert forall|k: int| 0 <= k < m.len() implies u.contains(#[trigger] m[k]) by {
            assert(m[k] == u[k]);
        }
    }
}

// ---- Merging the same replica twice ----

proof fn lemma_version_merge_idempotent(p: VersionView, q: VersionView)
    ensures
        version_merge(q, q) == q,
        version_merge(version_merge(p, q), q) == version_merge(p, q),
{
    crate::object_lock_state::lemma_retention_merge_laws(p.retention, q.retention, q.retention);
    crate::object_lock_state::lemma_retention_merge_laws(q.retention, q.retention, q.retention);
    crate::time::lemma_lww_bool_merge_laws(p.legal_hold, q.legal_hold, q.legal_hold);
    crate::time::lemma_lww_bool_merge_laws(q.legal_hold, q.legal_hold, q.legal_hold);
    match q.state {
        StateView::Complete(dq) => {
            crate::version_data::lemma_data_order(dq, dq);
            if let StateView::Complete(dp) = p.state {
                crate::version_data::lemma_data_order(dq, dp);
            }
        },
        _ => {},
    }
}

/// In a sorted list, a version appears once.
proof fn lemma_sorted_unique(s: Seq<VersionView>, i: int, j: int)
    requires
        sorted(s),
        0 <= i < s.len(),
        0 <= j < s.len(),
        same_key(s[i], s[j]),
    ensures
        i == j,
{
    if i < j {
        lemma_key_order(s[i], s[j], s[j]);
    } else if j < i {
        lemma_key_order(s[j], s[i], s[i]);
    }
}

/// Two sorted lists that hold the same versions are the same list.
proof fn lemma_sorted_ext(x: Seq<VersionView>, y: Seq<VersionView>)
    requires
        sorted(x),
        sorted(y),
        forall|v: VersionView| x.contains(v) <==> y.contains(v),
    ensures
        x == y,
    decreases x.len(),
{
    if x.len() == 0 {
        if y.len() > 0 {
            assert(y.contains(y[0]));
        }
        assert(x =~= y);
        return;
    }
    assert(x.contains(x[0]));
    let j = choose|j: int| 0 <= j < y.len() && y[j] == x[0];
    assert(y.contains(y[0]));
    let i = choose|i: int| 0 <= i < x.len() && x[i] == y[0];
    if i > 0 && j > 0 {
        assert(key_lt(x[0], x[i]));
        assert(key_lt(y[0], y[j]));
        lemma_key_order(x[0], y[0], x[0]);
    }
    assert(x[0] == y[0]);
    let x1 = x.drop_first();
    let y1 = y.drop_first();
    assert forall|v: VersionView| x1.contains(v) implies y1.contains(v) by {
        let k = choose|k: int| 0 <= k < x1.len() && x1[k] == v;
        assert(x[k + 1] == v);
        assert(key_lt(x[0], v));
        lemma_key_order(x[0], v, v);
        assert(x.contains(v));
        let m = choose|m: int| 0 <= m < y.len() && y[m] == v;
        assert(m != 0);
        assert(y1[m - 1] == v);
    }
    assert forall|v: VersionView| y1.contains(v) implies x1.contains(v) by {
        let k = choose|k: int| 0 <= k < y1.len() && y1[k] == v;
        assert(y[k + 1] == v);
        assert(key_lt(y[0], v));
        lemma_key_order(y[0], v, v);
        assert(y.contains(v));
        let m = choose|m: int| 0 <= m < x.len() && x[m] == v;
        assert(m != 0);
        assert(x1[m - 1] == v);
    }
    assert(sorted(x1));
    assert(sorted(y1));
    lemma_sorted_ext(x1, y1);
    assert(x =~= seq![x[0]] + x1);
    assert(y =~= seq![y[0]] + y1);
}

/// Where a version of a merge of two sorted lists comes from: a version of
/// one side only, or the merge of the two replicas of a version.
pub open spec fn union_elem(a: Seq<VersionView>, b: Seq<VersionView>, v: VersionView) -> bool {
    ||| exists|i: int| 0 <= i < a.len() && v == #[trigger] a[i] && !has_key(b, a[i])
    ||| exists|j: int| 0 <= j < b.len() && v == #[trigger] b[j] && !has_key(a, b[j])
    ||| exists|i: int, j: int|
        0 <= i < a.len() && 0 <= j < b.len() && same_key(#[trigger] a[i], #[trigger] b[j]) && v
            == version_merge(a[i], b[j])
}

/// No version of a sorted list comes before its first one.
proof fn lemma_not_before_first(s: Seq<VersionView>, v: VersionView)
    requires
        sorted(s),
        s.len() > 0,
        key_lt(v, s[0]),
    ensures
        !has_key(s, v),
{
    if has_key(s, v) {
        let k = choose|k: int| 0 <= k < s.len() && same_key(#[trigger] s[k], v);
        if k > 0 {
            lemma_key_order(v, s[0], s[k]);
        }
        lemma_key_order(v, s[k], s[k]);
        lemma_key_order(s[k], v, v);
    }
}

proof fn lemma_has_key_drop_first(s: Seq<VersionView>, v: VersionView)
    requires
        s.len() > 0,
    ensures
        has_key(s.drop_first(), v) ==> has_key(s, v),
        has_key(s, v) && !same_key(s[0], v) ==> has_key(s.drop_first(), v),
{
    if has_key(s.drop_first(), v) {
        let k = choose|k: int| 0 <= k < s.drop_first().len() && same_key(#[trigger] s.drop_first()[k], v);
        assert(s[k + 1] == s.drop_first()[k]);
    }
    if has_key(s, v) && !same_key(s[0], v) {
        let k = choose|k: int| 0 <= k < s.len() && same_key(#[trigger] s[k], v);
        assert(s.drop_first()[k - 1] == s[k]);
    }
}

/// The versions of a merge of two sorted lists are exactly those that come
/// from one side only, and the merges of the replicas that both hold.
proof fn lemma_union_contains(a: Seq<VersionView>, b: Seq<VersionView>)
    requires
        sorted(a),
        sorted(b),
    ensures
        forall|v: VersionView| union_merge(a, b).contains(v) <==> union_elem(a, b, v),
    decreases a.len() + b.len(),
{
    let u = union_merge(a, b);
    if a.len() == 0 {
        assert forall|v: VersionView| u.contains(v) <==> union_elem(a, b, v) by {
            if u.contains(v) {
                let j = choose|j: int| 0 <= j < b.len() && b[j] == v;
                assert(!has_key(a, b[j]));
            }
        }
        return;
    }
    if b.len() == 0 {
        assert forall|v: VersionView| u.contains(v) <==> union_elem(a, b, v) by {
            if u.contains(v) {
                let i = choose|i: int| 0 <= i < a.len() && a[i] == v;
                assert(!has_key(b, a[i]));
            }
        }
        return;
    }
    let a1 = a.drop_first();
    let b1 = b.drop_first();
    assert(sorted(a1));
    assert(sorted(b1));
    lemma_key_order(a[0], b[0], b[0]);
    lemma_key_order(b[0], a[0], a[0]);
    if key_lt(a[0], b[0]) {
        let r = union_merge(a1, b);
        lemma_union_contains(a1, b);
        assert(u =~= seq![a[0]] + r);
        lemma_not_before_first(b, a[0]);
        assert forall|v: VersionView| u.contains(v) <==> union_elem(a, b, v) by {
            if u.contains(v) {
                let k = choose|k: int| 0 <= k < u.len() && u[k] == v;
                if k == 0 {
                    assert(v == a[0]);
                } else {
                    assert(r[k - 1] == v);
                    assert(union_elem(a1, b, v));
                    if exists|i: int| 0 <= i < a1.len() && v == #[trigger] a1[i] && !has_key(b, a1[i]) {
                        let i = choose|i: int| 0 <= i < a1.len() && v == #[trigger] a1[i] && !has_key(b, a1[i]);
                        assert(a[i + 1] == a1[i]);
                    } else if exists|j: int| 0 <= j < b.len() && v == #[trigger] b[j] && !has_key(a1, b[j]) {
                        let j = choose|j: int| 0 <= j < b.len() && v == #[trigger] b[j] && !has_key(a1, b[j]);
                        lemma_has_key_drop_first(a, b[j]);
                        if j > 0 {
                            lemma_key_order(a[0], b[0], b[j]);
                        }
                        lemma_key_order(a[0], b[j], b[j]);
                        lemma_key_order(b[j], a[0], a[0]);
                    } else {
                        let (i, j) = choose|i: int, j: int|
                            0 <= i < a1.len() && 0 <= j < b.len() && same_key(#[trigger] a1[i], #[trigger] b[j]) && v
                                == version_merge(a1[i], b[j]);
                        assert(a[i + 1] == a1[i]);
                    }
                }
            } else {
                if union_elem(a, b, v) {
                    if exists|i: int| 0 <= i < a.len() && v == #[trigger] a[i] && !has_key(b, a[i]) {
                        let i = choose|i: int| 0 <= i < a.len() && v == #[trigger] a[i] && !has_key(b, a[i]);
                        if i == 0 {
                            assert(u[0] == v);
                        } else {
                            assert(a1[i - 1] == v);
                            assert(union_elem(a1, b, v));
                            let k = choose|k: int| 0 <= k < r.len() && r[k] == v;
                            assert(u[k + 1] == v);
                        }
                    } else if exists|j: int| 0 <= j < b.len() && v == #[trigger] b[j] && !has_key(a, b[j]) {
                        let j = choose|j: int| 0 <= j < b.len() && v == #[trigger] b[j] && !has_key(a, b[j]);
                        lemma_has_key_drop_first(a, b[j]);
                        assert(union_elem(a1, b, v));
                        let k = choose|k: int| 0 <= k < r.len() && r[k] == v;
                        assert(u[k + 1] == v);
                    } else {
                        let (i, j) = choose|i: int, j: int|
                            0 <= i < a.len() && 0 <= j < b.len() && same_key(#[trigger] a[i], #[trigger] b[j]) && v
                                == version_merge(a[i], b[j]);
                        if i == 0 {
                            if j > 0 {
                                lemma_key_order(a[0], b[0], b[j]);
                            }
                            lemma_key_order(a[0], b[j], b[j]);
                        }
                        assert(a1[i - 1] == a[i]);
                        assert(union_elem(a1, b, v));
                        let k = choose|k: int| 0 <= k < r.len() && r[k] == v;
                        assert(u[k + 1] == v);
                    }
                }
            }
        }
    } else if key_lt(b[0], a[0]) {
        let r = union_merge(a, b1);
        lemma_union_contains(a, b1);
        assert(u =~= seq![b[0]] + r);
        lemma_not_before_first(a, b[0]);
        assert forall|v: VersionView| u.contains(v) <==> union_elem(a, b, v) by {
            if u.contains(v) {
                let k = choose|k: int| 0 <= k < u.len() && u[k] == v;
                if k == 0 {
                    assert(v == b[0]);
                } else {
                    assert(r[k - 1] == v);
                    assert(union_elem(a, b1, v));
                    if exists|j: int| 0 <= j < b1.len() && v == #[trigger] b1[j] && !has_key(a, b1[j]) {
                        let j = choose|j: int| 0 <= j < b1.len() && v == #[trigger] b1[j] && !has_key(a, b1[j]);
                        assert(b[j + 1] == b1[j]);
                    } else if exists|i: int| 0 <= i < a.len() && v == #[trigger] a[i] && !has_key(b1, a[i]) {
                        let i = choose|i: int| 0 <= i < a.len() && v == #[trigger] a[i] && !has_key(b1, a[i]);
                        lemma_has_key_drop_first(b, a[i]);
                        if i > 0 {
                            lemma_key_order(b[0], a[0], a[i]);
                        }
                        lemma_key_order(b[0], a[i], a[i]);
                        lemma_key_order(a[i], b[0], b[0]);
                    } else {
                        let (i, j) = choose|i: int, j: int|
                            0 <= i < a.len() && 0 <= j < b1.len() && same_key(#[trigger] a[i], #[trigger] b1[j]) && v
                                == version_merge(a[i], b1[j]);
                        assert(b[j + 1] == b1[j]);
                    }
                }
            } else {
                if union_elem(a, b, v) {
                    if exists|j: int| 0 <= j < b.len() && v == #[trigger] b[j] && !has_key(a, b[j]) {
                        let j = choose|j: int| 0 <= j < b.len() && v == #[trigger] b[j] && !has_key(a, b[j]);
                        if j == 0 {
                            assert(u[0] == v);
                        } else {
                            assert(b1[j - 1] == v);
                            assert(union_elem(a, b1, v));
                            let k = choose|k: int| 0 <= k < r.len() && r[k] == v;
                            assert(u[k + 1] == v);
                        }
                    } else if exists|i: int| 0 <= i < a.len() && v == #[trigger] a[i] && !has_key(b, a[i]) {
                        let i = choose|i: int| 0 <= i < a.len() && v == #[trigger] a[i] && !has_key(b, a[i]);
                        lemma_has_key_drop_first(b, a[i]);
                        assert(union_elem(a, b1, v));
                        let k = choose|k: int| 0 <= k < r.len() && r[k] == v;
                        assert(u[k + 1] == v);
                    } else {
                        let (i, j) = choose|i: int, j: int|
                            0 <= i < a.len() && 0 <= j < b.len() && same_key(#[trigger] a[i], #[trigger] b[j]) && v
                                == version_merge(a[i], b[j]);
                        if j == 0 {
                            if i > 0 {
                                lemma_key_order(b[0], a[0], a[i]);
                            }
                            lemma_key_order(b[0], a[i], a[i]);
                        }
                        assert(b1[j - 1] == b[j]);
                        assert(union_elem(a, b1, v));
                        let k = choose|k: int| 0 <= k < r.len() && r[k] == v;
                        assert(u[k + 1] == v);
                    }
                }
            }
        }
    } else {
        let r = union_merge(a1, b1);
        lemma_union_contains(a1, b1);
        let h = version_merge(a[0], b[0]);
        assert(u =~= seq![h] + r);
        assert forall|v: VersionView| u.contains(v) <==> union_elem(a, b, v) by {
            if u.contains(v) {
                let k = choose|k: int| 0 <= k < u.len() && u[k] == v;
                if k == 0 {
                    assert(v == version_merge(a[0], b[0]));
                    assert(same_key(a[0], b[0]));
                } else {
                    assert(r[k - 1] == v);
                    assert(union_elem(a1, b1, v));
                    if exists|i: int| 0 <= i < a1.len() && v == #[trigger] a1[i] && !has_key(b1, a1[i]) {
                        let i = choose|i: int| 0 <= i < a1.len() && v == #[trigger] a1[i] && !has_key(b1, a1[i]);
                        assert(a[i + 1] == a1[i]);
                        assert(key_lt(a[0], a[i + 1]));
                        lemma_key_order(b[0], a[0], a[i + 1]);
                        lemma_key_order(b[0], a[i + 1], a[i + 1]);
                        lemma_has_key_drop_first(b, a[i + 1]);
                    } else if exists|j: int| 0 <= j < b1.len() && v == #[trigger] b1[j] && !has_key(a1, b1[j]) {
                        let j = choose|j: int| 0 <= j < b1.len() && v == #[trigger] b1[j] && !has_key(a1, b1[j]);
                        assert(b[j + 1] == b1[j]);
                        assert(key_lt(b[0], b[j + 1]));
                        lemma_key_order(a[0], b[0], b[j + 1]);
                        lemma_key_order(a[0], b[j + 1], b[j + 1]);
                        lemma_has_key_drop_first(a, b[j + 1]);
                    } else {
                        let (i, j) = choose|i: int, j: int|
                            0 <= i < a1.len() && 0 <= j < b1.len() && same_key(#[trigger] a1[i], #[trigger] b1[j]) && v
                                == version_merge(a1[i], b1[j]);
                        assert(a[i + 1] == a1[i]);
                        assert(b[j + 1] == b1[j]);
                    }
                }
            } else {
                if union_elem(a, b, v) {
                    if exists|i: int| 0 <= i < a.len() && v == #[trigger] a[i] && !has_key(b, a[i]) {
                        let i = choose|i: int| 0 <= i < a.len() && v == #[trigger] a[i] && !has_key(b, a[i]);
                        if i == 0 {
                            assert(same_key(b[0], a[0]));
                        }
                        assert(a1[i - 1] == v);
                        lemma_has_key_drop_first(b, a[i]);
                        assert(union_elem(a1, b1, v));
                        let k = choose|k: int| 0 <= k < r.len() && r[k] == v;
                        assert(u[k + 1] == v);
                    } else if exists|j: int| 0 <= j < b.len() && v == #[trigger] b[j] && !has_key(a, b[j]) {
                        let j = choose|j: int| 0 <= j < b.len() && v == #[trigger] b[j] && !has_key(a, b[j]);
                        if j == 0 {
                            assert(same_key(a[0], b[0]));
                        }
                        assert(b1[j - 1] == v);
                        lemma_has_key_drop_first(a, b[j]);
                        assert(union_elem(a1, b1, v));
                        let k = choose|k: int| 0 <= k < r.len() && r[k] == v;
                        assert(u[k + 1] == v);
                    } else {
                        let (i, j) = choose|i: int, j: int|
                            0 <= i < a.len() && 0 <= j < b.len() && same_key(#[trigger] a[i], #[trigger] b[j]) && v
                                == version_merge(a[i], b[j]);
                        if i == 0 || j == 0 {
                            if i > 0 {
                                assert(key_lt(a[0], a[i]));
                                lemma_key_order(b[0], a[0], a[i]);
                                lemma_key_order(b[0], a[i], b[j]);
                                lemma_key_order(b[j], a[i], a[i]);
                            }
                            if j > 0 {
                                assert(key_lt(b[0], b[j]));
                                lemma_key_order(a[0], b[0], b[j]);
                                lemma_key_order(a[0], b[j], a[i]);
                                lemma_key_order(a[i], b[j], b[j]);
                            }
                            assert(i == 0 && j == 0);
                            assert(u[0] == v);
                        } else {
                            assert(a1[i - 1] == a[i]);
                            assert(b1[j - 1] == b[j]);
                            assert(union_elem(a1, b1, v));
                            let k = choose|k: int| 0 <= k < r.len() && r[k] == v;
                            assert(u[k + 1] == v);
                        }
                    }
                }
            }
        }
    }
}

/// `lemma_union_contains`, for use both ways.
proof fn lemma_union_members(a: Seq<VersionView>, b: Seq<VersionView>)
    requires
        sorted(a),
        sorted(b),
    ensures
        forall|v: VersionView|
            #![trigger union_merge(a, b).contains(v)]
            #![trigger union_elem(a, b, v)]
            union_merge(a, b).contains(v) <==> union_elem(a, b, v),
{
    lemma_union_contains(a, b);
}

/// The versions that pruning keeps: the retained ones, the current one and
/// those after it.
proof fn lemma_prune_contains(u: Seq<VersionView>)
    requires
        sorted(u),
    ensures
        forall|v: VersionView|
            #![trigger prune(u).contains(v)]
            #![trigger u.contains(v)]
            prune(u).contains(v) <==> (u.contains(v) && (last_complete(u) < 0 || is_retained(v)
                || !key_lt(v, u[last_complete(u)]))),
{
    lemma_prune_keeps(u);
    lemma_last_answer(u, true, None);
    let l = last_complete(u);
    let m = prune(u);
    if l >= 0 {
        let left = keep_retained(u.take(l));
        lemma_keep_retained(u.take(l));
        assert(m == left + u.skip(l));
        assert forall|v: VersionView|
            m.contains(v) <==> (u.contains(v) && (is_retained(v) || !key_lt(v, u[l]))) by {
            if m.contains(v) {
                let k = choose|k: int| 0 <= k < m.len() && m[k] == v;
                if k < left.len() {
                    assert(left[k] == v);
                } else {
                    let i = l + k - left.len();
                    assert(m[k] == u[i]);
                    lemma_key_order(u[l], u[i], u[i]);
                    lemma_key_order(u[i], u[l], u[l]);
                }
            }
            if u.contains(v) && (is_retained(v) || !key_lt(v, u[l])) {
                let k = choose|k: int| 0 <= k < u.len() && u[k] == v;
                if !is_retained(v) && k < l {
                    assert(key_lt(u[k], u[l]));
                }
            }
        }
    }
}

/// Merging the same replica of an object twice gives what merging it once
/// gives, as long as the first merge kept a replica of every version of that
/// replica that is retained as a distinct S3 version. (A retained version
/// that the first merge dropped, as the object held an aborted replica of it
/// before its current version, comes back with the second merge.)
pub proof fn lemma_object_merge_idempotent(a: Object, b: Object)
    requires
        a.wf(),
        b.wf(),
        forall|j: int|
            0 <= j < b@.versions.len() && is_retained(#[trigger] b@.versions[j]) ==> has_key(
                object_merge(a@.versions, b@.versions),
                b@.versions[j],
            ),
    ensures
        object_merge(object_merge(a@.versions, b@.versions), b@.versions) == object_merge(
            a@.versions,
            b@.versions,
        ),
{
    let x = a@.versions;
    let y = b@.versions;
    let u1 = union_merge(x, y);
    let m1 = prune(u1);
    let u2 = union_merge(m1, y);
    let m2 = prune(u2);
    lemma_union_sorted(x, y);
    lemma_prune_sorted(u1);
    lemma_union_sorted(m1, y);
    lemma_prune_sorted(u2);
    lemma_union_members(x, y);
    lemma_union_members(m1, y);
    lemma_prune_contains(u1);
    lemma_prune_contains(u2);
    lemma_last_answer(u1, true, None);
    lemma_last_answer(u2, true, None);
    let l1 = last_complete(u1);
    let l2 = last_complete(u2);
    // A version of the first merge is left as it is by the second one.
    assert forall|v: VersionView, j: int|
        #![trigger m1.contains(v), y[j]]
        m1.contains(v) && 0 <= j < y.len() && same_key(v, y[j]) implies version_merge(v, y[j]) == v by {
        assert(u1.contains(v));
        assert(union_elem(x, y, v));
        if exists|i: int| 0 <= i < x.len() && v == #[trigger] x[i] && !has_key(y, x[i]) {
            let i = choose|i: int| 0 <= i < x.len() && v == #[trigger] x[i] && !has_key(y, x[i]);
            assert(same_key(y[j], x[i]));
        } else if exists|j2: int| 0 <= j2 < y.len() && v == #[trigger] y[j2] && !has_key(x, y[j2]) {
            let j2 = choose|j2: int| 0 <= j2 < y.len() && v == #[trigger] y[j2] && !has_key(x, y[j2]);
            lemma_sorted_unique(y, j, j2);
            lemma_version_merge_idempotent(v, y[j]);
        } else {
            let (i, j2) = choose|i: int, j2: int|
                0 <= i < x.len() && 0 <= j2 < y.len() && same_key(#[trigger] x[i], #[trigger] y[j2]) && v
                    == version_merge(x[i], y[j2]);
            lemma_sorted_unique(y, j, j2);
            lemma_version_merge_idempotent(x[i], y[j]);
        }
    }
    // Every version of the first merge is in the second.
    assert forall|v: VersionView| m1.contains(v) implies u2.contains(v) by {
        let i = choose|i: int| 0 <= i < m1.len() && m1[i] == v;
        if has_key(y, v) {
            let j = choose|j: int| 0 <= j < y.len() && same_key(#[trigger] y[j], v);
            assert(same_key(m1[i], y[j]));
            assert(version_merge(v, y[j]) == v);
            assert(union_elem(m1, y, v));
        } else {
            assert(union_elem(m1, y, v));
        }
    }
    // Every version of the replica has a replica in the first merge's union.
    assert forall|j: int| 0 <= j < y.len() implies has_key(u1, #[trigger] y[j]) by {
        if has_key(x, y[j]) {
            let i = choose|i: int| 0 <= i < x.len() && same_key(#[trigger] x[i], y[j]);
            assert(union_elem(x, y, version_merge(x[i], y[j])));
            let k = choose|k: int| 0 <= k < u1.len() && u1[k] == version_merge(x[i], y[j]);
            assert(same_key(u1[k], y[j]));
        } else {
            assert(union_elem(x, y, y[j]));
            let k = choose|k: int| 0 <= k < u1.len() && u1[k] == y[j];
            assert(same_key(u1[k], y[j]));
        }
    }
    // The second merge only adds versions of the replica that the first
    // merge dropped.
    assert forall|v: VersionView| u2.contains(v) && !m1.contains(v) implies exists|j: int|
        0 <= j < y.len() && v == #[trigger] y[j] && !has_key(m1, y[j]) by {
        assert(union_elem(m1, y, v));
        if exists|i: int| 0 <= i < m1.len() && v == #[trigger] m1[i] && !has_key(y, m1[i]) {
            let i = choose|i: int| 0 <= i < m1.len() && v == #[trigger] m1[i] && !has_key(y, m1[i]);
            assert(m1.contains(v));
        } else if exists|i: int, j: int|
            0 <= i < m1.len() && 0 <= j < y.len() && same_key(#[trigger] m1[i], #[trigger] y[j]) && v
                == version_merge(m1[i], y[j]) {
            let (i, j) = choose|i: int, j: int|
                0 <= i < m1.len() && 0 <= j < y.len() && same_key(#[trigger] m1[i], #[trigger] y[j]) && v
                    == version_merge(m1[i], y[j]);
            assert(m1.contains(m1[i]));
            assert(version_merge(m1[i], y[j]) == m1[i]);
        }
    }
    if l1 < 0 {
        assert(m1 == u1);
        assert forall|v: VersionView| u2.contains(v) <==> m1.contains(v) by {
            if u2.contains(v) && !m1.contains(v) {
                let j = choose|j: int| 0 <= j < y.len() && v == #[trigger] y[j] && !has_key(m1, y[j]);
                assert(has_key(u1, y[j]));
            }
        }
        lemma_sorted_ext(u2, m1);
    } else {
        let c = u1[l1];
        lemma_key_order(c, c, c);
        assert(u1.contains(c));
        assert(m1.contains(c));
        assert(u2.contains(c));
        // A version of the replica that the first merge dropped came before
        // its current version.
        assert forall|j: int| 0 <= j < y.len() && !has_key(m1, #[trigger] y[j]) implies key_lt(y[j], c) by {
            let k = choose|k: int| 0 <= k < u1.len() && same_key(#[trigger] u1[k], y[j]);
            lemma_key_order(u1[k], c, c);
            lemma_key_order(c, u1[k], u1[k]);
            if !key_lt(u1[k], c) {
                assert(u1.contains(u1[k]));
                assert(m1.contains(u1[k]));
                let i = choose|i: int| 0 <= i < m1.len() && m1[i] == u1[k];
                assert(same_key(m1[i], y[j]));
            }
            lemma_key_order(y[j], u1[k], c);
        }
        // Nothing after the current version of the first merge is complete
        // in the second.
        assert forall|w: VersionView| u2.contains(w) && key_lt(c, w) implies !is_complete(w) by {
            if m1.contains(w) {
                let k = choose|k: int| 0 <= k < u1.len() && u1[k] == w;
                if k <= l1 {
                    if k < l1 {
                        assert(key_lt(u1[k], c));
                    }
                    lemma_key_order(c, w, c);
                }
            } else {
                let j = choose|j: int| 0 <= j < y.len() && w == #[trigger] y[j] && !has_key(m1, y[j]);
                lemma_key_order(c, w, c);
            }
        }
        let k2 = choose|k: int| 0 <= k < u2.len() && u2[k] == c;
        assert(answers(u2[k2], true, None));
        if l2 > k2 {
            assert(key_lt(u2[k2], u2[l2]));
            assert(u2.contains(u2[l2]));
        }
        assert(l2 == k2);
        assert forall|v: VersionView| m2.contains(v) <==> m1.contains(v) by {
            if m2.contains(v) && !m1.contains(v) {
                let j = choose|j: int| 0 <= j < y.len() && v == #[trigger] y[j] && !has_key(m1, y[j]);
                assert(!is_retained(y[j]));
                assert(key_lt(y[j], c));
            }
        }
        lemma_sorted_ext(m2, m1);
    }
}

/// Every retained version of a list is kept by `keep_retained`.
proof fn lemma_keep_retained_all(s: Seq<VersionView>)
    ensures
        forall|k: int| 0 <= k < s.len() && is_retained(#[trigger] s[k]) ==> keep_retained(s).contains(s[k]),
    decreases s.len(),
{
    if s.len() > 0 {
        let t = s.drop_last();
        lemma_keep_retained_all(t);
        assert forall|k: int| 0 <= k < s.len() && is_retained(#[trigger] s[k]) implies keep_retained(s).contains(s[k]) by {
            if k < s.len() - 1 {
                assert(t[k] == s[k]);
                let r = keep_retained(t);
                let i = choose|i: int| 0 <= i < r.len() && r[i] == s[k];
                if is_retained(s.last()) {
                    assert(keep_retained(s)[i] == s[k]);
                }
            } else {
                assert(keep_retained(s).last() == s[k]);
                assert(keep_retained(s)[keep_retained(s).len() - 1] == s[k]);
            }
        }
    }
}


// ---- Entries of the earlier format ----

/// A version of the earlier format, in this format: objects that predate
/// versioning support are all `null` versions, and cannot be under Object
/// Lock.
pub open spec fn migrated_version(old: v2::ObjectVersion) -> VersionView {
    ObjectVersion::new_view(old.uuid, old.timestamp, ObjectVersionKind::Null, old.state@)
}

fn migrate_version(old: v2::ObjectVersion) -> (r: ObjectVersion)
    ensures
        r@ == migrated_version(old),
{
    ObjectVersion {
        uuid: old.uuid,
        timestamp: old.timestamp,
        state: old.state,
        kind: ObjectVersionKind::Null,
        retention: ObjectLockRetention::none(),
        legal_hold: Lww::raw(0, false),
    }
}

impl Object {
    /// An object of the earlier format, in this format.
    pub fn migrate(old: v2::Object) -> (r: Object)
        ensures
            r@.bucket_id == old.bucket_id,
            r@.key == old.key@,
            r@.versions == old.versions@.map_values(|v: v2::ObjectVersion| migrated_version(v)),
    {
        let ghost orig = old.versions@;
        let mut rest = crate::object_formats::reversed(old.versions);
        let mut versions: Vec<ObjectVersion> = Vec::new();
        while rest.len() > 0
            invariant
                versions@.len() + rest@.len() == orig.len(),
                rest@ == orig.skip(versions@.len() as int).reverse(),
                views(versions@) == orig.take(versions@.len() as int).map_values(
                    |v: v2::ObjectVersion| migrated_version(v),
                ),
            decreases rest@.len(),
        {
            proof {
                crate::object_formats::lemma_pop_reversed(orig, versions@.len() as int);
            }
            let ghost k = versions@.len() as int;
            let ghost before = versions@;
            let v = rest.pop().unwrap();
            versions.push(migrate_version(v));
            assert(views(versions@) =~= views(before).push(migrated_version(orig[k])));
            assert(views(versions@) =~= orig.take(k + 1).map_values(
                |v: v2::ObjectVersion| migrated_version(v),
            ));
        }
        assert(orig.take(orig.len() as int) =~= orig);
        Object { bucket_id: old.bucket_id, key: old.key, versions }
    }
}


// ---- Table filters and counters ----

#[derive(Clone, Copy, Debug)]
pub enum ObjectFilter {
    /// Is the object version available (received and not a tombstone)
    IsData,
    /// Is the object version currently being uploaded
    ///
    /// matches only multipart uploads if `check_multipart` is Some(true)
    /// matches only non-multipart uploads if `check_multipart` is Some(false)
    /// matches both if `check_multipart` is None
    IsUploading { check_multipart: Option<bool> },
    /// Does the object have at least one version that has been completely
    /// uploaded, which includes delete markers
    HasVersions,
    /// Does the object have at least one version that is retained as a
    /// distinct S3 version, which includes delete markers
    HasRetainedVersions,
}

/// Whether an object matches a filter of the object table.
pub open spec fn filter_matches(o: ObjectView, filter: ObjectFilter) -> bool {
    match filter {
        ObjectFilter::IsData => last_complete(o.versions) >= 0 && is_data(
            o.versions[last_complete(o.versions)],
        ),
        ObjectFilter::HasVersions => exists|i: int|
            0 <= i < o.versions.len() && is_complete(#[trigger] o.versions[i]),
        ObjectFilter::HasRetainedVersions => exists|i: int|
            0 <= i < o.versions.len() && is_retained(#[trigger] o.versions[i]),
        ObjectFilter::IsUploading { check_multipart } => exists|i: int|
            0 <= i < o.versions.len() && is_uploading(#[trigger] o.versions[i], check_multipart),
    }
}

/// The number of versions of `s` that are being uploaded.
pub open spec fn count_uploading(s: Seq<VersionView>) -> int
    decreases s.len(),
{
    if s.len() == 0 {
        0
    } else {
        count_uploading(s.drop_last()) + if is_uploading(s.last(), None) {
            1int
        } else {
            0int
        }
    }
}

/// The size of the data a version holds, 0 if it holds none.
pub open spec fn stored_size(v: VersionView) -> int {
    match v.state {
        StateView::Complete(d) => match data_size(d) {
            Some(n) => n as int,
            None => 0,
        },
        _ => 0,
    }
}

/// The total size of the data the versions of `s` hold.
pub open spec fn total_size(s: Seq<VersionView>) -> int
    decreases s.len(),
{
    if s.len() == 0 {
        0
    } else {
        total_size(s.drop_last()) + stored_size(s.last())
    }
}

impl Object {
    /// Whether the object matches a filter of the object table
    pub fn matches_filter(&self, filter: &ObjectFilter) -> (r: bool)
        ensures
            r == filter_matches(self@, *filter),
    {
        match filter {
            ObjectFilter::IsData => self.is_data(),
            _ => {
                let mut i: usize = 0;
                while i < self.versions.len()
                    invariant
                        i <= self.versions@.len(),
                        views(self.versions@) == self@.versions,
                        forall|k: int|
                            0 <= k < i ==> !(match *filter {
                                ObjectFilter::HasVersions => is_complete(#[trigger] self@.versions[k]),
                                ObjectFilter::HasRetainedVersions => is_retained(self@.versions[k]),
                                ObjectFilter::IsUploading { check_multipart } => is_uploading(
                                    self@.versions[k],
                                    check_multipart,
                                ),
                                ObjectFilter::IsData => false,
                            }),
                    decreases self.versions@.len() - i,
                {
                    let v = &self.versions[i];
                    let hit = match filter {
                        ObjectFilter::HasVersions => v.is_complete(),
                        ObjectFilter::HasRetainedVersions => v.is_retained(),
                        ObjectFilter::IsUploading { check_multipart } => v.is_uploading(
                            *check_multipart,
                        ),
                        ObjectFilter::IsData => false,
                    };
                    assert(self@.versions[i as int] == v@);
                    if hit {
                        return true;
                    }
                    i = i + 1;
                }
                false
            },
        }
    }

    /// The values that this object adds to the counters of its bucket: 1
    /// object if it currently exists, its ongoing uploads, and the size of
    /// the data of all its versions. The total size must fit in 64 bits.
    pub fn counts(&self) -> (r: Vec<(&'static str, i64)>)
        requires
            total_size(self@.versions) <= u64::MAX,
        ensures
            r@.len() == 3,
            r@[0] == (OBJECTS, if last_complete(self@.versions) >= 0 && is_data(
                self@.versions[last_complete(self@.versions)],
            ) {
                1i64
            } else {
                0i64
            }),
            r@[1] == (UNFINISHED_UPLOADS, count_uploading(self@.versions) as i64),
            r@[2] == (BYTES, total_size(self@.versions) as i64),
    {
        let ghost s = self@.versions;
        let n_objects: i64 = if self.is_data() {
            1
        } else {
            0
        };
        let mut n_unfinished_uploads: usize = 0;
        let mut n_bytes: u64 = 0;
        let mut i: usize = 0;
        assert(s.take(0) =~= Seq::<VersionView>::empty());
        while i < self.versions.len()
            invariant
                s == views(self.versions@),
                total_size(s) <= u64::MAX,
                i <= s.len(),
                n_unfinished_uploads == count_uploading(s.take(i as int)),
                n_bytes == total_size(s.take(i as int)),
            decreases s.len() - i,
        {
            assert(s.take(i + 1).drop_last() =~= s.take(i as int));
            assert(s.take(i + 1).last() == self.versions@[i as int]@);
            proof {
                lemma_total_size_prefix(s, i + 1);
                lemma_count_uploading_bound(s.take(i + 1));
            }
            let v = &self.versions[i];
            if v.is_uploading(None) {
                n_unfinished_uploads = n_unfinished_uploads + 1;
            }
            let size = match &v.state {
                ObjectVersionState::Complete(ObjectVersionData::Inline(meta, _)) => meta.size,
                ObjectVersionState::Complete(ObjectVersionData::FirstBlock(meta, _)) => meta.size,
                _ => 0,
            };
            n_bytes = n_bytes + size;
            i = i + 1;
        }
        assert(s.take(i as int) =~= s);
        let mut r: Vec<(&'static str, i64)> = Vec::new();
        r.push((OBJECTS, n_objects));
        r.push((UNFINISHED_UPLOADS, n_unfinished_uploads as i64));
        r.push((BYTES, n_bytes as i64));
        r
    }
}

proof fn lemma_count_uploading_bound(s: Seq<VersionView>)
    ensures
        0 <= count_uploading(s) <= s.len(),
    decreases s.len(),
{
    if s.len() > 0 {
        lemma_count_uploading_bound(s.drop_last());
    }
}

proof fn lemma_total_size_prefix(s: Seq<VersionView>, n: int)
    requires
        0 <= n <= s.len(),
    ensures
        0 <= total_size(s.take(n)) <= total_size(s),
    decreases s.len() - n,
{
    if n < s.len() {
        lemma_total_size_prefix(s, n + 1);
        assert(s.take(n + 1).drop_last() =~= s.take(n));
        lemma_total_size_nonneg(s.take(n));
        assert(stored_size(s.take(n + 1).last()) >= 0);
    } else {
        assert(s.take(n) =~= s);
        lemma_total_size_nonneg(s);
    }
}

proof fn lemma_total_size_nonneg(s: Seq<VersionView>)
    ensures
        total_size(s) >= 0,
    decreases s.len(),
{
    if s.len() > 0 {
        lemma_total_size_nonneg(s.drop_last());
    }
}

// ---- Propagation of deletions ----

/// Whether a write that turns replica `old` of an object into `new` must
/// delete the version `v` of `old` from the version table: `new` does not
/// hold it any more, or aborts it while it was not aborted.
pub open spec fn version_deleted(v: VersionView, new: Seq<VersionView>) -> bool {
    !has_key(new, v) || (exists|i: int|
        0 <= i < new.len() && same_key(#[trigger] new[i], v) && new[i].state is Aborted) && !(
    v.state is Aborted)
}

/// Whether such a write must delete the multipart upload of version `v`:
/// it was an ongoing multipart upload that `new` no longer holds as an
/// ongoing upload.
pub open spec fn upload_deleted(v: VersionView, new: Seq<VersionView>) -> bool {
    &&& v.state matches StateView::Uploading { multipart: true, .. }
    &&& (!has_key(new, v) || exists|i: int|
        0 <= i < new.len() && same_key(#[trigger] new[i], v) && !(new[i].state is Uploading))
}

/// The uuids of the versions of `old` whose deletion must be propagated.
pub open spec fn deleted_versions(old: Seq<VersionView>, new: Seq<VersionView>) -> Seq<Uuid>
    decreases old.len(),
{
    if old.len() == 0 {
        Seq::empty()
    } else if version_deleted(old.last(), new) {
        deleted_versions(old.drop_last(), new).push(old.last().uuid)
    } else {
        deleted_versions(old.drop_last(), new)
    }
}

/// The uuids and timestamps of the multipart uploads of `old` whose deletion
/// must be propagated.
pub open spec fn deleted_uploads(old: Seq<VersionView>, new: Seq<VersionView>) -> Seq<(Uuid, u64)>
    decreases old.len(),
{
    if old.len() == 0 {
        Seq::empty()
    } else if upload_deleted(old.last(), new) {
        deleted_uploads(old.drop_last(), new).push((old.last().uuid, old.last().timestamp))
    } else {
        deleted_uploads(old.drop_last(), new)
    }
}

/// The deletions that an update of the object table must propagate
pub struct PropagatedDeletions {
    /// The versions to delete from the version table
    pub versions: Vec<Uuid>,
    /// The multipart uploads to delete from the multipart upload table, by
    /// upload id and timestamp
    pub uploads: Vec<(Uuid, u64)>,
}

/// The deletions that the update of an object from `old` to `new` must
/// propagate to the version table and the multipart upload table: none
/// unless both exist.
pub fn deletions_to_propagate(old: Option<&Object>, new: Option<&Object>) -> (r: PropagatedDeletions)
    requires
        old matches Some(o) ==> o.wf(),
        new matches Some(n) ==> n.wf(),
    ensures
        match (old, new) {
            (Some(o), Some(n)) => r.versions@ == deleted_versions(o@.versions, n@.versions)
                && r.uploads@ == deleted_uploads(o@.versions, n@.versions),
            _ => r.versions@.len() == 0 && r.uploads@.len() == 0,
        },
{
    let mut versions: Vec<Uuid> = Vec::new();
    let mut uploads: Vec<(Uuid, u64)> = Vec::new();
    if let (Some(old_v), Some(new_v)) = (old, new) {
        let ghost o = old_v@.versions;
        let ghost n = new_v@.versions;
        let mut i: usize = 0;
        assert(o.take(0) =~= Seq::<VersionView>::empty());
        while i < old_v.versions.len()
            invariant
                o == views(old_v.versions@),
                n == views(new_v.versions@),
                sorted(n),
                i <= o.len(),
                versions@ == deleted_versions(o.take(i as int), n),
                uploads@ == deleted_uploads(o.take(i as int), n),
            decreases o.len() - i,
        {
            let v = &old_v.versions[i];
            assert(o.take(i + 1).drop_last() =~= o.take(i as int));
            assert(o.take(i + 1).last() == v@);
            let found = search(&new_v.versions, v);
            let (delete_version, delete_mpu) = match found {
                Err(_) => {
                    proof {
                        assert forall|k: int| 0 <= k < n.len() implies !same_key(#[trigger] n[k], v@) by {
                            assert(n[k] == new_v.versions@[k]@);
                            lemma_key_order(n[k], v@, v@);
                        }
                    }
                    (true, matches!(v.state, ObjectVersionState::Uploading { multipart: true, .. }))
                },
                Ok(j) => {
                    let w = &new_v.versions[j];
                    proof {
                        assert(n[j as int] == w@);
                        assert forall|k: int| 0 <= k < n.len() && same_key(#[trigger] n[k], v@) implies k == j by {
                            if k < j {
                                assert(key_lt(n[k], n[j as int]));
                            } else if k > j {
                                assert(key_lt(n[j as int], n[k]));
                            }
                            lemma_key_order(n[k], n[j as int], v@);
                            lemma_key_order(n[j as int], n[k], v@);
                        }
                    }
                    let dv = w.state.is_aborted() && !v.state.is_aborted();
                    let dm = matches!(v.state, ObjectVersionState::Uploading { multipart: true, .. })
                        && !matches!(w.state, ObjectVersionState::Uploading { .. });
                    (dv, dm)
                },
            };
            assert(delete_version == version_deleted(v@, n));
            assert(delete_mpu == upload_deleted(v@, n));
            if delete_version {
                versions.push(v.uuid);
            }
            if delete_mpu {
                uploads.push((v.uuid, v.timestamp));
            }
            i = i + 1;
        }
        assert(o.take(i as int) =~= o);
    }
    PropagatedDeletions { versions, uploads }
}

} // verus!

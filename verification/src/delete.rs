//! Deleting objects and object versions: what a delete request writes to
//! the object table, what it answers, and how a `DeleteObjects` request is
//! read.
use vstd::prelude::*;

use crate::bucket_table::{BucketParams, VersioningState};
use crate::bytes::Uuid;
use crate::lifecycle::kind_for;
use crate::object_lock::{check_delete_allowed, delete_allowed};
use crate::object_table::{
    is_complete, is_retained, key_lt, version_merge, keep_retained, last_complete, lemma_key_order,
    lemma_prune_keeps, object_merge, prune, same_key, sorted, union_merge, delete_protection_at, is_delete_marker, views, last_with_id, lemma_last_answer, version_id_of,
    Object, ObjectVersion, ObjectVersionKind, ObjectVersionState, ObjectView, StateView, VersionView,
};
use crate::bytes::str_eq;
use crate::s3_error::{BadRequest, S3Error, ErrorView};
use crate::version_data::{DataView, ObjectVersionData};
use crate::xml::{
    blank, find_child, first_child, is_blank, node_views, parse_xml,
    xml_document_nodes, XmlNode, XmlNodeView,
};
use crate::versioning::{requested_version_id, X_AMZ_DELETE_MARKER, X_AMZ_VERSION_ID};

verus! {

broadcast use vstd::std_specs::vec::group_vec_axioms;

// ---- Timestamps of new versions ----

/// The greatest timestamp of a list of versions, 0 if it is empty.
pub open spec fn latest_timestamp(s: Seq<VersionView>) -> u64
    decreases s.len(),
{
    if s.len() == 0 {
        0
    } else {
        let t = latest_timestamp(s.drop_last());
        if s.last().timestamp > t {
            s.last().timestamp
        } else {
            t
        }
    }
}

proof fn lemma_latest_timestamp(s: Seq<VersionView>)
    ensures
        forall|i: int| 0 <= i < s.len() ==> (#[trigger] s[i]).timestamp <= latest_timestamp(s),
        s.len() > 0 ==> exists|i: int| 0 <= i < s.len() && (#[trigger] s[i]).timestamp == latest_timestamp(s),
    decreases s.len(),
{
    if s.len() > 0 {
        let t = s.drop_last();
        lemma_latest_timestamp(t);
        assert forall|i: int| 0 <= i < s.len() implies (#[trigger] s[i]).timestamp <= latest_timestamp(s) by {
            if i < s.len() - 1 {
                assert(s[i] == t[i]);
            }
        }
        if t.len() > 0 && s.last().timestamp <= latest_timestamp(t) {
            let i = choose|i: int| 0 <= i < t.len() && (#[trigger] t[i]).timestamp == latest_timestamp(t);
            assert(s[i] == t[i]);
        } else {
            assert(s[s.len() - 1] == s.last());
        }
    }
}

/// The timestamp of a version written to an object at `now`: `now`, unless
/// the object already has a version at `now` or later, in which case the
/// new version comes just after the latest one.
pub open spec fn next_timestamp_of(object: Option<ObjectView>, now: u64) -> u64 {
    match object {
        Some(o) => if o.versions.len() > 0 && latest_timestamp(o.versions) + 1 > now {
            (latest_timestamp(o.versions) + 1) as u64
        } else {
            now
        },
        None => now,
    }
}

/// Whether every version of an object has a timestamp before the last one
/// that a `u64` can hold, so that a version can always come after them.
pub open spec fn timestamps_bounded(object: Option<ObjectView>) -> bool {
    object matches Some(o) ==> forall|i: int|
        0 <= i < o.versions.len() ==> (#[trigger] o.versions[i]).timestamp < u64::MAX
}

/// The timestamp of a version written at `now` to an object that may
/// already exist: it comes after every version the object has.
pub fn next_timestamp(existing_object: Option<&Object>, now: u64) -> (r: u64)
    requires
        timestamps_bounded(crate::object_lock::opt_object_view(existing_object)),
    ensures
        r == next_timestamp_of(crate::object_lock::opt_object_view(existing_object), now),
{
    match existing_object {
        None => now,
        Some(o) => {
            let versions = o.versions();
            let ghost s = o@.versions;
            let mut latest: u64 = 0;
            let mut i: usize = 0;
            while i < versions.len()
                invariant
                    i <= versions@.len(),
                    views(versions@) == s,
                    latest == latest_timestamp(s.take(i as int)),
                decreases versions@.len() - i,
            {
                assert(s.take(i + 1).drop_last() =~= s.take(i as int));
                assert(versions@[i as int]@ == views(versions@)[i as int]);
                if versions[i].timestamp > latest {
                    latest = versions[i].timestamp;
                }
                i = i + 1;
            }
            assert(s.take(i as int) =~= s);
            if versions.len() == 0 {
                return now;
            }
            proof {
                lemma_latest_timestamp(s);
                let k = choose|k: int| 0 <= k < s.len() && (#[trigger] s[k]).timestamp == latest_timestamp(s);
                assert(s[k].timestamp < u64::MAX);
            }
            if latest + 1 > now {
                latest + 1
            } else {
                now
            }
        },
    }
}


// ---- Deleting an object or one of its versions ----

/// What a delete request did to an object
#[derive(Debug, PartialEq, Eq)]
pub struct DeleteOutcome {
    /// The version id to report back to the client
    pub version_id: Option<String>,
    /// Whether a delete marker was created, or the version that was
    /// permanently deleted was one
    pub delete_marker: bool,
    /// The version id of the delete marker, when there is one
    pub delete_marker_version_id: Option<String>,
}

/// The mathematical value of a `DeleteOutcome`.
pub struct OutcomeView {
    pub version_id: Option<Seq<char>>,
    pub delete_marker: bool,
    pub delete_marker_version_id: Option<Seq<char>>,
}

/// The view of an optional string.
pub open spec fn opt_chars(s: Option<String>) -> Option<Seq<char>> {
    match s {
        Some(x) => Some(x@),
        None => None,
    }
}

impl View for DeleteOutcome {
    type V = OutcomeView;

    open spec fn view(&self) -> OutcomeView {
        OutcomeView {
            version_id: opt_chars(self.version_id),
            delete_marker: self.delete_marker,
            delete_marker_version_id: opt_chars(self.delete_marker_version_id),
        }
    }
}

impl Default for DeleteOutcome {
    /// The outcome of a request that deleted nothing
    fn default() -> (r: Self)
        ensures
            r.version_id is None,
            !r.delete_marker,
            r.delete_marker_version_id is None,
    {
        DeleteOutcome { version_id: None, delete_marker: false, delete_marker_version_id: None }
    }
}

/// The delete marker that hides the current version of an object.
pub open spec fn delete_marker_view(
    bucket_params: BucketParams,
    object: ObjectView,
    now: u64,
    marker_uuid: Uuid,
) -> VersionView {
    ObjectVersion::new_view(
        marker_uuid,
        next_timestamp_of(Some(object), now),
        kind_for(bucket_params.versioning.v),
        StateView::Complete(DataView::DeleteMarker),
    )
}

/// What a delete request does at `now`, as the versions it writes to the
/// object table (to be merged into the object) and the outcome it reports.
///
/// A request for an object that does not exist fails with `NoSuchKey`. A
/// request for one version of an object permanently deletes it, if Object
/// Lock allows it: the version is written back in the `Aborted` state, so
/// that the deletion reaches every replica. Any other request hides the
/// current version of the object behind a new delete marker, with uuid
/// `marker_uuid`; on a versioned bucket, the previous versions are kept.
pub open spec fn delete_plan(
    bucket_params: BucketParams,
    object: Option<ObjectView>,
    version_id: Option<Seq<char>>,
    bypass_governance: bool,
    allow_owner: bool,
    now: u64,
    marker_uuid: Uuid,
) -> Result<(Seq<VersionView>, OutcomeView), ErrorView> {
    match object {
        None => Err(ErrorView::NoSuchKey),
        Some(o) => {
            let vid = if bucket_params.versioning.v == VersioningState::Disabled {
                None
            } else {
                version_id
            };
            match vid {
                Some(id) => {
                    let i = last_with_id(o.versions, id);
                    if i < 0 {
                        Err(ErrorView::NoSuchVersion)
                    } else {
                        let v = o.versions[i];
                        match delete_allowed(
                            delete_protection_at(v, now),
                            bypass_governance,
                            allow_owner,
                        ) {
                            Err(e) => Err(e),
                            Ok(_) => Ok(
                                (
                                    seq![VersionView { state: StateView::Aborted, ..v }],
                                    OutcomeView {
                                        version_id: Some(id),
                                        delete_marker: is_delete_marker(v),
                                        delete_marker_version_id: if is_delete_marker(v) {
                                            Some(id)
                                        } else {
                                            None
                                        },
                                    },
                                ),
                            ),
                        }
                    }
                },
                None => {
                    let marker = delete_marker_view(bucket_params, o, now, marker_uuid);
                    Ok(
                        (
                            seq![marker],
                            OutcomeView {
                                version_id: Some(version_id_of(marker)),
                                delete_marker: true,
                                delete_marker_version_id: Some(version_id_of(marker)),
                            },
                        ),
                    )
                },
            }
        },
    }
}

/// Delete an object, or one version of it, at `now`: `object` is the object
/// as read from the object table, if it exists. Returns the object to write
/// back to the table, under the same bucket and key, and the outcome to
/// report. `allow_owner` says whether the caller has the owner permission on
/// the bucket, and `marker_uuid` is the uuid of the delete marker, if one is
/// made.
pub fn handle_delete_internal(
    bucket_params: &BucketParams,
    object: Option<&Object>,
    version_id: Option<&str>,
    bypass_governance: bool,
    allow_owner: bool,
    now: u64,
    marker_uuid: Uuid,
) -> (r: Result<(Object, DeleteOutcome), S3Error>)
    requires
        (bucket_params.versioning.v == VersioningState::Disabled || version_id is None)
            ==> timestamps_bounded(crate::object_lock::opt_object_view(object)),
    ensures
        match delete_plan(
            *bucket_params,
            crate::object_lock::opt_object_view(object),
            crate::object_lock::opt_str_view(version_id),
            bypass_governance,
            allow_owner,
            now,
            marker_uuid,
        ) {
            Err(e) => r matches Err(x) && x@ == e,
            Ok((versions, outcome)) => r matches Ok((w, out)) && w.wf() && w@.versions == versions
                && w@.bucket_id == object.unwrap()@.bucket_id && w@.key == object.unwrap()@.key
                && out@ == outcome,
        },
{
    let object = match object {
        Some(o) => o,
        None => {
            return Err(S3Error::NoSuchKey);
        },
    };
    match requested_version_id(bucket_params, version_id) {
        Some(vid) => {
            let version = match object.version_by_id(vid) {
                Some(v) => v,
                None => {
                    return Err(S3Error::NoSuchVersion);
                },
            };
            proof {
                lemma_last_answer(object@.versions, true, Some(vid@));
            }
            match check_delete_allowed(version, bypass_governance, allow_owner, now) {
                Ok(_) => {},
                Err(e) => {
                    return Err(e);
                },
            }
            let delete_marker = version.is_delete_marker();
            let mut deleted_version = version.copy();
            deleted_version.state = ObjectVersionState::Aborted;
            let mut versions: Vec<ObjectVersion> = Vec::new();
            versions.push(deleted_version);
            assert(views(versions@) =~= seq![versions@[0]@]);
            let ghost written_view = views(versions@);
            let written = Object::new(object.bucket(), object.key_string(), versions);
            assert(written@.versions.contains(written@.versions[0]));
            assert(written@.versions =~= written_view);
            let outcome = DeleteOutcome {
                version_id: Some(String::from_str(vid)),
                delete_marker,
                delete_marker_version_id: if delete_marker {
                    Some(String::from_str(vid))
                } else {
                    None
                },
            };
            Ok((written, outcome))
        },
        None => {
            let del_timestamp = next_timestamp(Some(object), now);
            let kind = ObjectVersionKind::for_versioning_state(bucket_params.versioning());
            let marker = ObjectVersion::new(
                marker_uuid,
                del_timestamp,
                kind,
                ObjectVersionState::Complete(ObjectVersionData::DeleteMarker),
            );
            let marker_version_id = marker.version_id();
            let mut versions: Vec<ObjectVersion> = Vec::new();
            versions.push(marker);
            assert(views(versions@) =~= seq![versions@[0]@]);
            let ghost written_view = views(versions@);
            let written = Object::new(object.bucket(), object.key_string(), versions);
            assert(written@.versions.contains(written@.versions[0]));
            assert(written@.versions =~= written_view);
            let outcome = DeleteOutcome {
                version_id: Some(marker_version_id.clone()),
                delete_marker: true,
                delete_marker_version_id: Some(marker_version_id),
            };
            Ok((written, outcome))
        },
    }
}

/// The view of a list of headers.
pub open spec fn headers_view(h: Seq<(&'static str, String)>) -> Seq<(Seq<char>, Seq<char>)> {
    h.map_values(|p: (&'static str, String)| (p.0@, p.1@))
}

/// The headers that answer a delete request: none on a bucket on which
/// versioning was never enabled, as in AWS S3; otherwise whether a delete
/// marker was made or deleted, and the version id that was deleted or made.
pub open spec fn delete_headers(versioning: VersioningState, outcome: OutcomeView) -> Seq<
    (Seq<char>, Seq<char>),
> {
    if versioning == VersioningState::Disabled {
        seq![]
    } else {
        (if outcome.delete_marker {
            seq![(X_AMZ_DELETE_MARKER@, seq!['t', 'r', 'u', 'e'])]
        } else {
            seq![]
        }) + match outcome.version_id {
            Some(v) => seq![(X_AMZ_VERSION_ID@, v)],
            None => seq![],
        }
    }
}

/// The headers of the answer to a `DeleteObject` request, whose deletion
/// gave `result`. Deleting a key that does not exist is a success in S3, one
/// that deleted nothing.
pub fn handle_delete(bucket_params: &BucketParams, result: Result<DeleteOutcome, S3Error>) -> (r:
    Result<Vec<(&'static str, String)>, S3Error>)
    ensures
        match result {
            Ok(o) => r matches Ok(h) && headers_view(h@) == delete_headers(
                bucket_params.versioning.v,
                o@,
            ),
            Err(S3Error::NoSuchKey) => r matches Ok(h) && h@.len() == 0,
            Err(e) => r == Err::<Vec<(&'static str, String)>, S3Error>(e),
        },
{
    let outcome = match result {
        Ok(outcome) => outcome,
        Err(S3Error::NoSuchKey) => DeleteOutcome::default(),
        Err(e) => {
            return Err(e);
        },
    };
    let ghost ov = outcome@;
    let mut headers: Vec<(&'static str, String)> = Vec::new();
    if bucket_params.versioning() != VersioningState::Disabled {
        let ghost marker_headers: Seq<(Seq<char>, Seq<char>)> = if ov.delete_marker {
            seq![(X_AMZ_DELETE_MARKER@, seq!['t', 'r', 'u', 'e'])]
        } else {
            seq![]
        };
        if outcome.delete_marker {
            let t = String::from_str("true");
            proof {
                reveal_strlit("true");
                assert(t@ =~= seq!['t', 'r', 'u', 'e']);
            }
            headers.push((X_AMZ_DELETE_MARKER, t));
        }
        assert(headers_view(headers@) =~= marker_headers);
        match outcome.version_id {
            Some(version_id) => {
                headers.push((X_AMZ_VERSION_ID, version_id));
                assert(headers_view(headers@) =~= marker_headers + seq![(X_AMZ_VERSION_ID@, version_id@)]);
            },
            None => {
                assert(headers_view(headers@) =~= marker_headers + seq![]);
            },
        }
    } else {
        assert(headers_view(headers@) =~= seq![]);
    }
    assert(headers_view(headers@) =~= delete_headers(bucket_params.versioning.v, ov));
    Ok(headers)
}

// ---- DeleteObjects ----

/// One object of a `DeleteObjects` request
#[derive(Debug, PartialEq, Eq)]
pub struct DeleteObject {
    pub key: String,
    pub version_id: Option<String>,
}

/// A `DeleteObjects` request
#[derive(Debug, PartialEq, Eq)]
pub struct DeleteRequest {
    pub quiet: bool,
    pub objects: Vec<DeleteObject>,
}

/// An object that a `DeleteObjects` request deleted, or found already
/// deleted
#[derive(Debug, PartialEq, Eq)]
pub struct Deleted {
    pub key: String,
    pub version_id: Option<String>,
    pub delete_marker: bool,
    pub delete_marker_version_id: Option<String>,
}

/// An object that a `DeleteObjects` request failed to delete
#[derive(Debug, PartialEq, Eq)]
pub struct DeleteError {
    pub error: S3Error,
    pub key: String,
    pub version_id: Option<String>,
}

/// The answer to a `DeleteObjects` request
#[derive(Debug, PartialEq, Eq)]
pub struct DeleteResult {
    pub deleted: Vec<Deleted>,
    pub errors: Vec<DeleteError>,
}

pub struct DeleteObjectView {
    pub key: Seq<char>,
    pub version_id: Option<Seq<char>>,
}

pub struct DeleteRequestView {
    pub quiet: bool,
    pub objects: Seq<DeleteObjectView>,
}

pub struct DeletedView {
    pub key: Seq<char>,
    pub version_id: Option<Seq<char>>,
    pub delete_marker: bool,
    pub delete_marker_version_id: Option<Seq<char>>,
}

pub struct DeleteErrorView {
    pub error: ErrorView,
    pub key: Seq<char>,
    pub version_id: Option<Seq<char>>,
}

impl View for DeleteObject {
    type V = DeleteObjectView;

    open spec fn view(&self) -> DeleteObjectView {
        DeleteObjectView { key: self.key@, version_id: opt_chars(self.version_id) }
    }
}

impl View for DeleteRequest {
    type V = DeleteRequestView;

    open spec fn view(&self) -> DeleteRequestView {
        DeleteRequestView {
            quiet: self.quiet,
            objects: self.objects@.map_values(|o: DeleteObject| o@),
        }
    }
}

impl View for Deleted {
    type V = DeletedView;

    open spec fn view(&self) -> DeletedView {
        DeletedView {
            key: self.key@,
            version_id: opt_chars(self.version_id),
            delete_marker: self.delete_marker,
            delete_marker_version_id: opt_chars(self.delete_marker_version_id),
        }
    }
}

impl View for DeleteError {
    type V = DeleteErrorView;

    open spec fn view(&self) -> DeleteErrorView {
        DeleteErrorView { error: self.error@, key: self.key@, version_id: opt_chars(self.version_id) }
    }
}

/// The view of the result of deleting one object.
pub open spec fn outcome_result_view(r: Result<DeleteOutcome, S3Error>) -> Result<OutcomeView, ErrorView> {
    match r {
        Ok(o) => Ok(o@),
        Err(e) => Err(e@),
    }
}

/// What the answer to a `DeleteObjects` request says of one object, whose
/// deletion gave `result`: nothing in quiet mode if it succeeded (deleting a
/// key that does not exist is a success), else what was deleted, with
/// version ids and delete markers only on a bucket on which versioning was
/// enabled at some point, as in AWS S3; or the error, which is reported in
/// quiet mode too.
pub open spec fn delete_entry(
    versioned: bool,
    quiet: bool,
    object: DeleteObjectView,
    result: Result<OutcomeView, ErrorView>,
) -> (Seq<DeletedView>, Seq<DeleteErrorView>) {
    match result {
        Ok(o) => if quiet {
            (seq![], seq![])
        } else {
            (
                seq![
                    DeletedView {
                        key: object.key,
                        version_id: if versioned {
                            o.version_id
                        } else {
                            None
                        },
                        delete_marker: versioned && o.delete_marker,
                        delete_marker_version_id: if versioned {
                            o.delete_marker_version_id
                        } else {
                            None
                        },
                    },
                ],
                seq![],
            )
        },
        Err(ErrorView::NoSuchKey) => if quiet {
            (seq![], seq![])
        } else {
            (
                seq![
                    DeletedView {
                        key: object.key,
                        version_id: None,
                        delete_marker: false,
                        delete_marker_version_id: None,
                    },
                ],
                seq![],
            )
        },
        Err(e) => (
            seq![],
            seq![DeleteErrorView { error: e, key: object.key, version_id: object.version_id }],
        ),
    }
}

/// The answer to a `DeleteObjects` request about the first `n` objects.
pub open spec fn delete_result_upto(
    versioned: bool,
    request: DeleteRequestView,
    results: Seq<Result<OutcomeView, ErrorView>>,
    n: int,
) -> (Seq<DeletedView>, Seq<DeleteErrorView>)
    decreases n,
{
    if n <= 0 {
        (seq![], seq![])
    } else {
        let before = delete_result_upto(versioned, request, results, n - 1);
        let entry = delete_entry(versioned, request.quiet, request.objects[n - 1], results[n - 1]);
        (before.0 + entry.0, before.1 + entry.1)
    }
}

fn copy_opt_string(s: &Option<String>) -> (r: Option<String>)
    ensures
        opt_chars(r) == opt_chars(*s),
{
    match s {
        Some(x) => Some(x.clone()),
        None => None,
    }
}

/// The answer to a `DeleteObjects` request, whose deletions gave `results`,
/// one for each object of the request, in order.
pub fn handle_delete_objects(
    bucket_params: &BucketParams,
    request: &DeleteRequest,
    results: Vec<Result<DeleteOutcome, S3Error>>,
) -> (r: DeleteResult)
    requires
        results@.len() == request.objects@.len(),
    ensures
        ({
            let (deleted, errors) = delete_result_upto(
                bucket_params.versioning.v != VersioningState::Disabled,
                request@,
                results@.map_values(|x: Result<DeleteOutcome, S3Error>| outcome_result_view(x)),
                request.objects@.len() as int,
            );
            &&& r.deleted@.map_values(|d: Deleted| d@) == deleted
            &&& r.errors@.map_values(|e: DeleteError| e@) == errors
        }),
{
    // As in AWS S3, buckets on which versioning was never enabled report
    // neither version ids nor delete markers.
    let versioned = bucket_params.versioning() != VersioningState::Disabled;
    let ghost rv = results@.map_values(|x: Result<DeleteOutcome, S3Error>| outcome_result_view(x));
    let mut deleted: Vec<Deleted> = Vec::new();
    let mut errors: Vec<DeleteError> = Vec::new();
    let mut i: usize = 0;
    while i < results.len()
        invariant
            i <= results@.len(),
            results@.len() == request.objects@.len(),
            rv == results@.map_values(|x: Result<DeleteOutcome, S3Error>| outcome_result_view(x)),
            versioned == (bucket_params.versioning.v != VersioningState::Disabled),
            ({
                let (d, e) = delete_result_upto(versioned, request@, rv, i as int);
                &&& deleted@.map_values(|x: Deleted| x@) == d
                &&& errors@.map_values(|x: DeleteError| x@) == e
            }),
        decreases results@.len() - i,
    {
        let ghost d0 = deleted@;
        let ghost e0 = errors@;
        let obj = &request.objects[i];
        assert(request@.objects[i as int] == obj@);
        assert(rv[i as int] == outcome_result_view(results@[i as int]));
        match &results[i] {
            Ok(outcome) => {
                if !request.quiet {
                    deleted.push(
                        Deleted {
                            key: obj.key.clone(),
                            version_id: if versioned {
                                copy_opt_string(&outcome.version_id)
                            } else {
                                None
                            },
                            delete_marker: versioned && outcome.delete_marker,
                            delete_marker_version_id: if versioned {
                                copy_opt_string(&outcome.delete_marker_version_id)
                            } else {
                                None
                            },
                        },
                    );
                }
            },
            Err(S3Error::NoSuchKey) => {
                if !request.quiet {
                    deleted.push(
                        Deleted {
                            key: obj.key.clone(),
                            version_id: None,
                            delete_marker: false,
                            delete_marker_version_id: None,
                        },
                    );
                }
            },
            Err(e) => {
                errors.push(
                    DeleteError {
                        error: e.copy(),
                        key: obj.key.clone(),
                        version_id: copy_opt_string(&obj.version_id),
                    },
                );
            },
        }
        proof {
            let entry = delete_entry(versioned, request.quiet, request@.objects[i as int], rv[i as int]);
            assert(deleted@.map_values(|x: Deleted| x@) =~= d0.map_values(|x: Deleted| x@) + entry.0);
            assert(errors@.map_values(|x: DeleteError| x@) =~= e0.map_values(|x: DeleteError| x@) + entry.1);
        }
        i = i + 1;
    }
    DeleteResult { deleted, errors }
}

// ---- Reading a DeleteObjects document ----

/// The characters of a tag name.
pub open spec fn delete_chars() -> Seq<char> {
    seq!['D', 'e', 'l', 'e', 't', 'e']
}

pub open spec fn object_chars() -> Seq<char> {
    seq!['O', 'b', 'j', 'e', 'c', 't']
}

pub open spec fn key_chars() -> Seq<char> {
    seq!['K', 'e', 'y']
}

pub open spec fn version_id_chars() -> Seq<char> {
    seq!['V', 'e', 'r', 's', 'i', 'o', 'n', 'I', 'd']
}

pub open spec fn quiet_chars() -> Seq<char> {
    seq!['Q', 'u', 'i', 'e', 't']
}

/// What a child of the `Delete` element adds to the request read so far:
/// text between elements must be white space, as a formatted document has;
/// an `Object` needs a `Key`, with text, and may have a `VersionId`; `Quiet`
/// says `true` or not; anything else makes the document invalid.
pub open spec fn delete_item(nodes: Seq<XmlNodeView>, i: int, req: DeleteRequestView) -> Option<
    DeleteRequestView,
> {
    let item = nodes[i];
    if !item.is_element {
        match item.text {
            None => None,
            Some(t) => if blank(t) {
                Some(req)
            } else {
                None
            },
        }
    } else if item.name == object_chars() {
        match first_child(nodes, i as usize, Some(key_chars())) {
            None => None,
            Some(k) => match nodes[k].text {
                None => None,
                Some(key) => Some(
                    DeleteRequestView {
                        objects: req.objects.push(
                            DeleteObjectView {
                                key,
                                version_id: match first_child(
                                    nodes,
                                    i as usize,
                                    Some(version_id_chars()),
                                ) {
                                    Some(v) => nodes[v].text,
                                    None => None,
                                },
                            },
                        ),
                        ..req
                    },
                ),
            },
        }
    } else if item.name == quiet_chars() {
        match item.text {
            None => None,
            Some(t) => Some(DeleteRequestView { quiet: t == seq!['t', 'r', 'u', 'e'], ..req }),
        }
    } else {
        None
    }
}

/// The request read from the children of node `delete` among the first `n`
/// nodes, in document order, or none if they make the document invalid.
pub open spec fn delete_items_upto(nodes: Seq<XmlNodeView>, delete: usize, n: int) -> Option<
    DeleteRequestView,
>
    decreases n,
{
    if n <= 0 {
        Some(DeleteRequestView { quiet: false, objects: seq![] })
    } else {
        match delete_items_upto(nodes, delete, n - 1) {
            None => None,
            Some(req) => if nodes[n - 1].parent == Some(delete) {
                delete_item(nodes, n - 1, req)
            } else {
                Some(req)
            },
        }
    }
}

/// The `DeleteObjects` request that a document holds: its root element must
/// be `Delete`, whose children are read in order.
pub open spec fn delete_request_of(nodes: Seq<XmlNodeView>) -> Option<DeleteRequestView> {
    if nodes.len() == 0 {
        None
    } else {
        match first_child(nodes, 0, None) {
            None => None,
            Some(d) => if nodes[d].name != delete_chars() {
                None
            } else {
                delete_items_upto(nodes, d as usize, nodes.len() as int)
            },
        }
    }
}

/// The view of an optional request.
pub open spec fn opt_request_view(r: Option<DeleteRequest>) -> Option<DeleteRequestView> {
    match r {
        Some(x) => Some(x@),
        None => None,
    }
}

/// Add a child of the `Delete` element to the request read so far.
fn read_delete_item(nodes: &Vec<XmlNode>, i: usize, req: DeleteRequest) -> (r: Option<DeleteRequest>)
    requires
        i < nodes@.len(),
    ensures
        opt_request_view(r) == delete_item(node_views(nodes@), i as int, req@),
{
    let ghost v = node_views(nodes@);
    let item = &nodes[i];
    assert(v[i as int] == item@);
    proof {
        reveal_strlit("Object");
        reveal_strlit("Key");
        reveal_strlit("VersionId");
        reveal_strlit("Quiet");
        reveal_strlit("true");
    }
    if !item.is_element {
        // Text nodes are allowed only if they contain whitespace characters
        // only: they are the formatting of the document.
        match &item.text {
            None => {
                return None;
            },
            Some(t) => {
                let ts = t.as_str();
                assert(ts@ == t@);
                let blank = is_blank(ts);
                assert(item@.text == Some(t@));
                if blank {
                    return Some(req);
                } else {
                    return None;
                }
            },
        }
    }
    if str_eq(item.name.as_str(), "Object") {
        assert("Object"@ =~= object_chars());
        assert("Key"@ =~= key_chars());
        assert("VersionId"@ =~= version_id_chars());
        let k = match find_child(nodes, i, Some("Key")) {
            Some(k) => k,
            None => {
                return None;
            },
        };
        assert(v[k as int] == nodes@[k as int]@);
        let key = match &nodes[k].text {
            Some(t) => t.clone(),
            None => {
                return None;
            },
        };
        let version_id = match find_child(nodes, i, Some("VersionId")) {
            Some(x) => {
                assert(v[x as int] == nodes@[x as int]@);
                copy_opt_string(&nodes[x].text)
            },
            None => None,
        };
        let mut req = req;
        let ghost before = req@;
        req.objects.push(DeleteObject { key, version_id });
        assert(req@.objects =~= before.objects.push(DeleteObjectView { key: key@, version_id: opt_chars(version_id) }));
        Some(req)
    } else if str_eq(item.name.as_str(), "Quiet") {
        assert("Quiet"@ =~= quiet_chars());
        match &item.text {
            None => None,
            Some(t) => {
                let quiet = str_eq(t.as_str(), "true");
                assert("true"@ =~= seq!['t', 'r', 'u', 'e']);
                Some(DeleteRequest { quiet, objects: req.objects })
            },
        }
    } else {
        assert("Object"@ =~= object_chars());
        assert("Quiet"@ =~= quiet_chars());
        None
    }
}

/// Read a `DeleteObjects` request from the nodes of its XML document.
pub fn parse_delete_objects_xml(nodes: &Vec<XmlNode>) -> (r: Option<DeleteRequest>)
    ensures
        opt_request_view(r) == delete_request_of(node_views(nodes@)),
{
    let ghost v = node_views(nodes@);
    if nodes.len() == 0 {
        return None;
    }
    let delete = match find_child(nodes, 0, None) {
        Some(d) => d,
        None => {
            return None;
        },
    };
    assert(v[delete as int] == nodes@[delete as int]@);
    proof {
        reveal_strlit("Delete");
        assert("Delete"@ =~= delete_chars());
    }
    if !str_eq(nodes[delete].name.as_str(), "Delete") {
        return None;
    }
    let mut ret = DeleteRequest { quiet: false, objects: Vec::new() };
    assert(ret@.objects =~= Seq::<DeleteObjectView>::empty());
    assert(delete_request_of(v) == delete_items_upto(v, delete, nodes@.len() as int));
    let mut j: usize = 0;
    while j < nodes.len()
        invariant
            j <= nodes@.len(),
            v == node_views(nodes@),
            delete_request_of(v) == delete_items_upto(v, delete, nodes@.len() as int),
            delete_items_upto(v, delete, j as int) == Some(ret@),
        decreases nodes@.len() - j,
    {
        assert(v[j as int] == nodes@[j as int]@);
        let is_child = match nodes[j].parent {
            Some(p) => p == delete,
            None => false,
        };
        if is_child {
            ret = match read_delete_item(nodes, j, ret) {
                Some(r) => r,
                None => {
                    proof {
                        lemma_delete_items_fail(v, delete, j as int + 1, nodes@.len() as int);
                    }
                    return None;
                },
            };
        }
        j = j + 1;
    }
    Some(ret)
}

proof fn lemma_delete_items_fail(nodes: Seq<XmlNodeView>, delete: usize, n: int, m: int)
    requires
        n <= m,
        delete_items_upto(nodes, delete, n) is None,
    ensures
        delete_items_upto(nodes, delete, m) is None,
    decreases m - n,
{
    if n < m {
        lemma_delete_items_fail(nodes, delete, n, m - 1);
    }
}

/// Read the body of a `DeleteObjects` request: `InvalidXml` if it is not an
/// XML document, and `InvalidDeleteXml` if it is not a `Delete` document.
pub fn parse_delete_objects(body: &str) -> (r: Result<DeleteRequest, S3Error>)
    ensures
        match xml_document_nodes(body@) {
            None => r matches Err(S3Error::InvalidXml(_)),
            Some(nodes) => match delete_request_of(nodes) {
                Some(req) => r matches Ok(x) && x@ == req,
                None => r matches Err(S3Error::BadRequest(BadRequest::InvalidDeleteXml)),
            },
        },
{
    let nodes = match parse_xml(body) {
        Ok(n) => n,
        Err(e) => {
            return Err(e);
        },
    };
    match parse_delete_objects_xml(&nodes) {
        Some(req) => Ok(req),
        None => Err(S3Error::BadRequest(BadRequest::InvalidDeleteXml)),
    }
}

// ---- Laws of deletion ----

/// Merging into a list of versions a version that comes after all of them
/// appends it.
proof fn lemma_union_after(a: Seq<VersionView>, w: VersionView)
    requires
        forall|i: int| 0 <= i < a.len() ==> key_lt(#[trigger] a[i], w),
    ensures
        union_merge(a, seq![w]) == a.push(w),
    decreases a.len(),
{
    if a.len() == 0 {
        assert(a.push(w) =~= seq![w]);
    } else {
        assert(key_lt(a[0], w));
        assert forall|i: int| 0 <= i < a.drop_first().len() implies key_lt(#[trigger] a.drop_first()[i], w) by {
            assert(a.drop_first()[i] == a[i + 1]);
        }
        lemma_union_after(a.drop_first(), w);
        assert(seq![a[0]] + a.drop_first().push(w) =~= a.push(w));
    }
}

/// Merging an aborted replica of a version into a list of versions leaves
/// every replica of that version aborted.
proof fn lemma_union_aborts(a: Seq<VersionView>, w: VersionView)
    requires
        sorted(a),
        w.state is Aborted,
    ensures
        forall|k: int|
            0 <= k < union_merge(a, seq![w]).len() && same_key(#[trigger] union_merge(a, seq![w])[k], w)
                ==> union_merge(a, seq![w])[k].state is Aborted,
    decreases a.len(),
{
    let u = union_merge(a, seq![w]);
    if a.len() == 0 {
        return;
    }
    lemma_key_order(a[0], w, w);
    lemma_key_order(w, a[0], a[0]);
    if key_lt(a[0], w) {
        let t = a.drop_first();
        assert forall|i: int, j: int| 0 <= i < j < t.len() implies key_lt(#[trigger] t[i], #[trigger] t[j]) by {
            assert(t[i] == a[i + 1] && t[j] == a[j + 1]);
        }
        lemma_union_aborts(t, w);
        assert forall|k: int| 0 <= k < u.len() && same_key(#[trigger] u[k], w) implies u[k].state is Aborted by {
            if k > 0 {
                assert(u[k] == union_merge(t, seq![w])[k - 1]);
            }
        }
    } else {
        let empty = seq![w].drop_first();
        assert(empty =~= Seq::<VersionView>::empty());
        assert(union_merge(a, empty) == a);
        assert(union_merge(a.drop_first(), empty) == a.drop_first());
        if key_lt(w, a[0]) {
            assert(u == seq![w] + a);
        } else {
            assert(u == seq![version_merge(a[0], w)] + a.drop_first());
        }
        assert forall|k: int| 0 <= k < u.len() && same_key(#[trigger] u[k], w) implies u[k].state is Aborted by {
            if k > 0 {
                let i = if key_lt(w, a[0]) { k - 1 } else { k };
                if key_lt(w, a[0]) {
                    assert(u[k] == a[k - 1]);
                } else {
                    assert(u[k] == a.drop_first()[k - 1]);
                    assert(a.drop_first()[k - 1] == a[k]);
                }
                if i > 0 {
                    assert(key_lt(a[0], a[i]));
                    lemma_key_order(w, a[0], a[i]);
                }
                lemma_key_order(w, a[i], a[i]);
                lemma_key_order(a[i], w, w);
            }
        }
    }
}

/// A delete request without a version id hides the object behind a delete
/// marker: once the versions it writes are merged into the object, the
/// current version of the object is that delete marker, so that reading the
/// object finds nothing; and every version that the object retained as a
/// distinct S3 version is still there, to be read by its version id.
pub proof fn lemma_delete_marker_hides_object(
    bucket_params: BucketParams,
    o: Object,
    version_id: Option<Seq<char>>,
    bypass_governance: bool,
    allow_owner: bool,
    now: u64,
    marker_uuid: Uuid,
)
    requires
        o.wf(),
        timestamps_bounded(Some(o@)),
        bucket_params.versioning.v == VersioningState::Disabled || version_id is None,
    ensures
        ({
            let plan = delete_plan(
                bucket_params,
                Some(o@),
                version_id,
                bypass_governance,
                allow_owner,
                now,
                marker_uuid,
            );
            &&& plan is Ok
            &&& ({
                let (w, out) = plan->Ok_0;
                let m = object_merge(o@.versions, w);
                &&& w.len() == 1
                &&& out.delete_marker
                &&& out.version_id == Some(version_id_of(w[0]))
                &&& last_complete(m) >= 0
                &&& m[last_complete(m)] == w[0]
                &&& is_delete_marker(m[last_complete(m)])
                &&& forall|k: int|
                    0 <= k < o@.versions.len() && is_retained(#[trigger] o@.versions[k])
                        ==> m.contains(o@.versions[k])
            })
        }),
{
    let a = o@.versions;
    let w = delete_marker_view(bucket_params, o@, now, marker_uuid);
    lemma_latest_timestamp(a);
    assert forall|i: int| 0 <= i < a.len() implies key_lt(#[trigger] a[i], w) by {}
    lemma_union_after(a, w);
    let u = a.push(w);
    assert(u[u.len() - 1] == w);
    assert(last_complete(u) == a.len());
    lemma_prune_keeps(u);
    let m = prune(u);
    assert(m == keep_retained(u.take(a.len() as int)) + u.skip(a.len() as int));
    assert(u.skip(a.len() as int) =~= seq![w]);
    assert(u.take(a.len() as int) =~= a);
    assert(m[m.len() - 1] == w);
    assert(last_complete(m) == m.len() - 1);
    assert forall|k: int| 0 <= k < a.len() && is_retained(#[trigger] a[k]) implies m.contains(a[k]) by {
        assert(u[k] == a[k]);
    }
}

/// Deleting one version of an object reports what that version was: the
/// request answers with the version id it was given, writes back a complete
/// version of the object that has that id, now aborted, and says that a
/// delete marker was deleted (and which) exactly when that version was one.
/// That version had no legal hold, and no retention in effect but in
/// governance mode, bypassed by the owner of the bucket.
pub proof fn lemma_deleting_a_version_reports_what_it_was(
    bucket_params: BucketParams,
    o: ObjectView,
    version_id: Seq<char>,
    bypass_governance: bool,
    allow_owner: bool,
    now: u64,
    marker_uuid: Uuid,
)
    requires
        bucket_params.versioning.v != VersioningState::Disabled,
    ensures
        match delete_plan(
            bucket_params,
            Some(o),
            Some(version_id),
            bypass_governance,
            allow_owner,
            now,
            marker_uuid,
        ) {
            Ok((w, out)) => {
                &&& w.len() == 1
                &&& out.version_id == Some(version_id)
                &&& exists|k: int|
                    0 <= k < o.versions.len() && is_complete(o.versions[k]) && version_id_of(
                        #[trigger] o.versions[k],
                    ) == version_id && w[0] == (VersionView {
                        state: StateView::Aborted,
                        ..o.versions[k]
                    }) && !o.versions[k].legal_hold.v && (o.versions[k].retention.retention matches Some(r) ==> (r.retain_until > now
                        ==> r.mode == crate::object_lock_state::ObjectLockMode::Governance
                        && bypass_governance && allow_owner)) && (out.delete_marker
                        <==> o.versions[k].state == StateView::Complete(
                        DataView::DeleteMarker,
                    )) && out.delete_marker_version_id == if o.versions[k].state
                        == StateView::Complete(DataView::DeleteMarker) {
                        Some(version_id)
                    } else {
                        None
                    }
            },
            Err(_) => true,
        },
{
    lemma_last_answer(o.versions, true, Some(version_id));
    let i = last_with_id(o.versions, version_id);
    if i >= 0 {
        assert(version_id_of(o.versions[i]) == version_id);
    }
}

/// A request for a version fails with `NoSuchVersion` exactly when the
/// object has no complete version with that id.
pub proof fn lemma_unknown_version_is_no_such_version(
    bucket_params: BucketParams,
    o: ObjectView,
    version_id: Seq<char>,
    bypass_governance: bool,
    allow_owner: bool,
    now: u64,
    marker_uuid: Uuid,
)
    requires
        bucket_params.versioning.v != VersioningState::Disabled,
    ensures
        (delete_plan(
            bucket_params,
            Some(o),
            Some(version_id),
            bypass_governance,
            allow_owner,
            now,
            marker_uuid,
        ) == Err::<(Seq<VersionView>, OutcomeView), ErrorView>(ErrorView::NoSuchVersion))
            <==> (forall|k: int|
            0 <= k < o.versions.len() && is_complete(o.versions[k]) ==> version_id_of(
                #[trigger] o.versions[k],
            ) != version_id),
{
    lemma_last_answer(o.versions, true, Some(version_id));
    let i = last_with_id(o.versions, version_id);
    if i >= 0 {
        assert(version_id_of(o.versions[i]) == version_id);
    }
}

/// A delete request for one version of an object deletes it for good: once
/// the versions it writes are merged into the object, no replica of the
/// deleted version in the object is complete, so that no read finds it.
pub proof fn lemma_deleted_version_is_gone(
    bucket_params: BucketParams,
    o: Object,
    version_id: Seq<char>,
    bypass_governance: bool,
    allow_owner: bool,
    now: u64,
    marker_uuid: Uuid,
)
    requires
        o.wf(),
        bucket_params.versioning.v != VersioningState::Disabled,
        delete_plan(
            bucket_params,
            Some(o@),
            Some(version_id),
            bypass_governance,
            allow_owner,
            now,
            marker_uuid,
        ) is Ok,
    ensures
        ({
            let (w, out) = delete_plan(
                bucket_params,
                Some(o@),
                Some(version_id),
                bypass_governance,
                allow_owner,
                now,
                marker_uuid,
            )->Ok_0;
            let deleted = o@.versions[last_with_id(o@.versions, version_id)];
            let m = object_merge(o@.versions, w);
            &&& out.version_id == Some(version_id)
            &&& forall|k: int| 0 <= k < m.len() && same_key(#[trigger] m[k], deleted) ==> !is_complete(m[k])
        }),
{
    let a = o@.versions;
    let i = last_with_id(a, version_id);
    let deleted = a[i];
    let w = VersionView { state: StateView::Aborted, ..deleted };
    lemma_union_aborts(a, w);
    let u = union_merge(a, seq![w]);
    lemma_prune_keeps(u);
    let m = prune(u);
    assert forall|k: int| 0 <= k < m.len() && same_key(#[trigger] m[k], deleted) implies !is_complete(m[k]) by {
        let j = choose|j: int| 0 <= j < u.len() && u[j] == m[k];
        assert(same_key(u[j], w));
    }
}

} // verus!

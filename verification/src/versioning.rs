//! Bucket versioning: its configuration, and the version ids that requests
//! give and receive.
use vstd::prelude::*;
use vstd::string::StringSliceAdditionalSpecFns;

use crate::bucket_table::{BucketParams, VersioningState};
use crate::bytes::{
    ascii_bytes, eq_ignore_ascii_case, hex_encode, hex_lower, lemma_ascii_bytes, str_eq,
    str_eq_ignore_ascii_case, Uuid,
};
use crate::object_table::{null_version_id, NULL_VERSION_ID};
use crate::s3_error::{BadRequest, S3Error};

verus! {

/// The header that gives the S3 version id of the version a request read,
/// wrote or deleted
pub const X_AMZ_VERSION_ID: &'static str = "x-amz-version-id";

/// The header that says that the version a request deleted or created is a
/// delete marker
pub const X_AMZ_DELETE_MARKER: &'static str = "x-amz-delete-marker";

/// The characters of `Enabled`.
pub open spec fn enabled_chars() -> Seq<char> {
    seq!['E', 'n', 'a', 'b', 'l', 'e', 'd']
}

/// The characters of `Suspended`.
pub open spec fn suspended_chars() -> Seq<char> {
    seq!['S', 'u', 's', 'p', 'e', 'n', 'd', 'e', 'd']
}

/// The characters of `Disabled`.
pub open spec fn disabled_chars() -> Seq<char> {
    seq!['D', 'i', 's', 'a', 'b', 'l', 'e', 'd']
}

/// The version id to report to the client for a version that was just
/// created in this bucket: the version's own id, `null` while versioning is
/// suspended, and on buckets on which versioning was never enabled the
/// internal version uuid, as Garage reported before it supported versioning.
pub fn response_version_id(bucket_params: &BucketParams, version_uuid: Uuid) -> (r: String)
    ensures
        r@ == if bucket_params.versioning.v == VersioningState::Suspended {
            null_version_id()
        } else {
            hex_lower(version_uuid.bytes@)
        },
{
    match bucket_params.versioning() {
        VersioningState::Enabled => hex_encode(version_uuid.as_slice()),
        VersioningState::Suspended => {
            let s = String::from_str(NULL_VERSION_ID);
            proof {
                reveal_strlit("null");
            }
            s
        },
        VersioningState::Disabled => hex_encode(version_uuid.as_slice()),
    }
}

/// The version of an object that a request refers to, or None if it refers
/// to the object's current version
///
/// On a bucket on which versioning was never enabled, the `versionId`
/// parameter is ignored: Garage reports internal version uuids in
/// `x-amz-version-id` headers on such buckets, and clients that send them
/// back must keep addressing the object rather than get an error.
pub fn requested_version_id<'a>(bucket_params: &BucketParams, version_id: Option<&'a str>) -> (r:
    Option<&'a str>)
    ensures
        r == if bucket_params.versioning.v == VersioningState::Disabled {
            None
        } else {
            version_id
        },
{
    match bucket_params.versioning() {
        VersioningState::Disabled => None,
        VersioningState::Enabled | VersioningState::Suspended => version_id,
    }
}

/// The `Status` of a `GetBucketVersioning` answer: none at all for a bucket
/// on which versioning was never enabled, which is different from a bucket
/// whose versioning is suspended.
pub fn handle_get_bucket_versioning(bucket_params: &BucketParams) -> (r: Option<&'static str>)
    ensures
        match bucket_params.versioning.v {
            VersioningState::Disabled => r is None,
            VersioningState::Enabled => r matches Some(s) && s@ == enabled_chars(),
            VersioningState::Suspended => r matches Some(s) && s@ == suspended_chars(),
        },
{
    proof {
        reveal_strlit("Enabled");
        reveal_strlit("Suspended");
    }
    match bucket_params.versioning() {
        VersioningState::Disabled => None,
        VersioningState::Enabled => Some("Enabled"),
        VersioningState::Suspended => Some("Suspended"),
    }
}

/// The versioning state that a `PutBucketVersioning` request asks for.
/// MFA delete can only be `Disabled`, in any case; the status must be
/// `Enabled` or `Suspended`; and versioning cannot be suspended while
/// Object Lock is enabled, as Object Lock relies on it to keep the versions
/// it protects.
pub open spec fn versioning_request(
    bucket_params: BucketParams,
    status: Option<Seq<char>>,
    mfa_delete: Option<Seq<u8>>,
) -> Result<VersioningState, S3Error> {
    if mfa_delete matches Some(m) && !eq_ignore_ascii_case(m, ascii_bytes(disabled_chars())) {
        Err(S3Error::MfaDeleteNotImplemented)
    } else if status != Some(enabled_chars()) && status != Some(suspended_chars()) {
        Err(S3Error::BadRequest(BadRequest::InvalidVersioningStatus))
    } else if status == Some(suspended_chars()) && bucket_params.object_lock.v is Some {
        Err(S3Error::BadRequest(BadRequest::CannotSuspendVersioning))
    } else if status == Some(enabled_chars()) {
        Ok(VersioningState::Enabled)
    } else {
        Ok(VersioningState::Suspended)
    }
}

/// The versioning state that a `PutBucketVersioning` request with these
/// `Status` and `MfaDelete` values asks for on a bucket, or why it is
/// refused.
pub fn requested_versioning(
    bucket_params: &BucketParams,
    status: Option<&str>,
    mfa_delete: Option<&str>,
) -> (r: Result<VersioningState, S3Error>)
    ensures
        r == versioning_request(
            *bucket_params,
            match status {
                Some(s) => Some(s@),
                None => None,
            },
            match mfa_delete {
                Some(m) => Some(m.spec_bytes()),
                None => None,
            },
        ),
{
    proof {
        reveal_strlit("Disabled");
        reveal_strlit("Enabled");
        reveal_strlit("Suspended");
        assert("Disabled"@ =~= disabled_chars());
        assert("Enabled"@ =~= enabled_chars());
        assert("Suspended"@ =~= suspended_chars());
        lemma_ascii_bytes("Disabled", disabled_chars());
    }
    if let Some(m) = mfa_delete {
        if !str_eq_ignore_ascii_case(m, "Disabled") {
            return Err(S3Error::MfaDeleteNotImplemented);
        }
    }
    let new_state = match status {
        Some(s) => {
            if str_eq(s, "Enabled") {
                VersioningState::Enabled
            } else if str_eq(s, "Suspended") {
                VersioningState::Suspended
            } else {
                return Err(S3Error::BadRequest(BadRequest::InvalidVersioningStatus));
            }
        },
        None => {
            return Err(S3Error::BadRequest(BadRequest::InvalidVersioningStatus));
        },
    };
    if new_state == VersioningState::Suspended && bucket_params.object_lock().is_some() {
        return Err(S3Error::BadRequest(BadRequest::CannotSuspendVersioning));
    }
    Ok(new_state)
}

/// No versioning request turns versioning off: a request that is accepted
/// asks for versioning to be enabled or suspended, never disabled.
pub proof fn lemma_versioning_never_disabled(
    bucket_params: BucketParams,
    status: Option<Seq<char>>,
    mfa_delete: Option<Seq<u8>>,
)
    ensures
        versioning_request(bucket_params, status, mfa_delete) matches Ok(s) ==> s
            != VersioningState::Disabled,
{
}

/// Apply a `PutBucketVersioning` request with these `Status` and `MfaDelete`
/// values to the parameters of a bucket, at `now`. Returns whether the
/// versioning state changed, and so whether the bucket must be written.
pub fn handle_put_bucket_versioning(
    bucket_params: &mut BucketParams,
    status: Option<&str>,
    mfa_delete: Option<&str>,
    now: u64,
) -> (r: Result<bool, S3Error>)
    requires
        versioning_request(
            *old(bucket_params),
            match status {
                Some(s) => Some(s@),
                None => None,
            },
            match mfa_delete {
                Some(m) => Some(m.spec_bytes()),
                None => None,
            },
        ) matches Ok(s) && s != old(bucket_params).versioning.v ==> old(
            bucket_params,
        ).versioning.ts < u64::MAX,
    ensures
        ({
            let req = versioning_request(
                *old(bucket_params),
                match status {
                    Some(s) => Some(s@),
                    None => None,
                },
                match mfa_delete {
                    Some(m) => Some(m.spec_bytes()),
                    None => None,
                },
            );
            match req {
                Err(e) => r == Err::<bool, S3Error>(e) && *final(bucket_params) == *old(bucket_params),
                Ok(state) => if state == old(bucket_params).versioning.v {
                    r == Ok::<bool, S3Error>(false) && *final(bucket_params) == *old(bucket_params)
                } else {
                    &&& r == Ok::<bool, S3Error>(true)
                    &&& final(bucket_params).versioning.v == state
                    &&& final(bucket_params).versioning.ts == if old(bucket_params).versioning.ts
                        + 1 >= now {
                        old(bucket_params).versioning.ts + 1
                    } else {
                        now as int
                    }
                    &&& final(bucket_params).object_lock == old(bucket_params).object_lock
                    &&& final(bucket_params).lifecycle_config == old(bucket_params).lifecycle_config
                    &&& final(bucket_params).creation_date == old(bucket_params).creation_date
                },
            }
        }),
{
    let new_state = match requested_versioning(bucket_params, status, mfa_delete) {
        Ok(s) => s,
        Err(e) => {
            return Err(e);
        },
    };
    if bucket_params.versioning() != new_state {
        bucket_params.versioning.update_at(new_state, now);
        Ok(true)
    } else {
        Ok(false)
    }
}

} // verus!

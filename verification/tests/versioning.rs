use garage_versions::bucket_table::{BucketParams, ObjectLockConfig, VersioningState};
use garage_versions::bytes::FixedBytes32;
use garage_versions::s3_error::{BadRequest, S3Error};
use garage_versions::time::Lww;
use garage_versions::versioning::{
    handle_get_bucket_versioning, handle_put_bucket_versioning, requested_version_id,
    requested_versioning, response_version_id,
};

#[test]
fn parse_enabled() {
    // <Status>Enabled</Status>, no MfaDelete
    let (status, mfa_delete): (Option<&str>, Option<&str>) = (Some("Enabled"), None);
    assert_eq!(status, Some("Enabled"));
    assert_eq!(mfa_delete, None);
    let mut params = BucketParams::new();
    assert_eq!(handle_put_bucket_versioning(&mut params, status, mfa_delete, 10), Ok(true));
    assert_eq!(params.versioning(), VersioningState::Enabled);
}

#[test]
fn parse_suspended_with_mfa_delete() {
    // <Status>Suspended</Status><MfaDelete>Disabled</MfaDelete>
    let (status, mfa_delete) = (Some("Suspended"), Some("Disabled"));
    assert_eq!(status, Some("Suspended"));
    assert_eq!(mfa_delete, Some("Disabled"));
    let mut params = BucketParams::new();
    assert_eq!(handle_put_bucket_versioning(&mut params, status, mfa_delete, 10), Ok(true));
    assert_eq!(params.versioning(), VersioningState::Suspended);
}

#[test]
fn parse_empty() {
    // <VersioningConfiguration></VersioningConfiguration>: no status
    let status: Option<&str> = None;
    assert_eq!(status, None);
    let mut params = BucketParams::new();
    assert_eq!(
        handle_put_bucket_versioning(&mut params, status, None, 10),
        Err(S3Error::BadRequest(BadRequest::InvalidVersioningStatus))
    );
    assert_eq!(params.versioning(), VersioningState::Disabled);
}

#[test]
fn versioning_configuration_rules() {
    let mut params = BucketParams::new();
    assert_eq!(handle_get_bucket_versioning(&params), None);
    assert_eq!(
        handle_put_bucket_versioning(&mut params, Some("Enabled"), Some("Enabled"), 10),
        Err(S3Error::MfaDeleteNotImplemented)
    );
    assert_eq!(handle_put_bucket_versioning(&mut params, Some("Enabled"), Some("disabled"), 10), Ok(true));
    assert_eq!(handle_get_bucket_versioning(&params), Some("Enabled"));
    // Setting the same state again changes nothing
    assert_eq!(handle_put_bucket_versioning(&mut params, Some("Enabled"), None, 20), Ok(false));
    assert_eq!(
        handle_put_bucket_versioning(&mut params, Some("enabled"), None, 20),
        Err(S3Error::BadRequest(BadRequest::InvalidVersioningStatus))
    );
    // A bucket with Object Lock cannot suspend versioning
    params.object_lock = Lww::raw(1, Some(ObjectLockConfig { default_retention: None }));
    assert_eq!(
        handle_put_bucket_versioning(&mut params, Some("Suspended"), None, 20),
        Err(S3Error::BadRequest(BadRequest::CannotSuspendVersioning))
    );
    assert_eq!(handle_get_bucket_versioning(&params), Some("Enabled"));
}

#[test]
fn version_ids_in_requests_and_answers() {
    let uuid = FixedBytes32::from_bytes([0xab; 32]);
    let mut params = BucketParams::new();
    assert_eq!(response_version_id(&params, uuid), hex::encode([0xab; 32]));
    assert_eq!(requested_version_id(&params, Some("x")), None);
    params.versioning = Lww::raw(1, VersioningState::Suspended);
    assert_eq!(response_version_id(&params, uuid), "null");
    assert_eq!(requested_version_id(&params, Some("x")), Some("x"));
    params.versioning = Lww::raw(2, VersioningState::Enabled);
    assert_eq!(response_version_id(&params, uuid), hex::encode([0xab; 32]));
}

#[test]
fn refused_and_unchanging_requests_leave_the_bucket_alone() {
    // The register was written at the last possible timestamp: only a
    // change of state would need to move it forward
    let mut params = BucketParams::new();
    params.versioning = Lww::raw(u64::MAX, VersioningState::Enabled);
    let before = params.clone();
    assert_eq!(
        handle_put_bucket_versioning(&mut params, Some("Suspended"), Some("Enabled"), 10),
        Err(S3Error::MfaDeleteNotImplemented)
    );
    assert_eq!(params, before);
    assert_eq!(
        handle_put_bucket_versioning(&mut params, Some("Disabled"), None, 10),
        Err(S3Error::BadRequest(BadRequest::InvalidVersioningStatus))
    );
    assert_eq!(params, before);
    assert_eq!(handle_put_bucket_versioning(&mut params, Some("Enabled"), Some("disabled"), 10), Ok(false));
    assert_eq!(params, before);

    // What a request asks for, before it is applied
    assert_eq!(requested_versioning(&params, Some("Suspended"), None), Ok(VersioningState::Suspended));
    assert_eq!(
        requested_versioning(&params, None, None),
        Err(S3Error::BadRequest(BadRequest::InvalidVersioningStatus))
    );
    params.object_lock = Lww::raw(1, Some(ObjectLockConfig { default_retention: None }));
    assert_eq!(
        requested_versioning(&params, Some("Suspended"), None),
        Err(S3Error::BadRequest(BadRequest::CannotSuspendVersioning))
    );
    assert_eq!(requested_versioning(&params, Some("Enabled"), None), Ok(VersioningState::Enabled));
}

#[test]
fn each_write_wins_over_the_last() {
    let mut r = Lww::raw(5, VersioningState::Disabled);
    r.update(VersioningState::Enabled);
    let first = r.ts;
    assert!(first > 5);
    r.update(VersioningState::Suspended);
    assert!(r.ts > first);
    assert_eq!(*r.get(), VersioningState::Suspended);
    // A timestamp ahead of the clock still moves forward by one
    let mut ahead = Lww::raw(u64::MAX - 1, VersioningState::Disabled);
    ahead.update(VersioningState::Enabled);
    assert_eq!(ahead.ts, u64::MAX);
}

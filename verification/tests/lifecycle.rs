use garage_versions::bucket_table::{parse_lifecycle_date, Date, LifecycleFilter, NoncurrentVersionExpiration};
use garage_versions::bytes::{FixedBytes32, Uuid};
use garage_versions::lifecycle::{expired_noncurrent_versions, utc_midnight_ts};
use garage_versions::object_lock_state::{ObjectLockMode, Retention};
use garage_versions::object_table::{Object, ObjectVersion, ObjectVersionKind, ObjectVersionState};
use garage_versions::version_data::{
    ObjectVersionData, ObjectVersionEncryption, ObjectVersionMeta, ObjectVersionMetaInner,
};

const DAY_MS: u64 = 24 * 3600 * 1000;

fn uuid(n: u8) -> Uuid {
    FixedBytes32::from_bytes([n; 32])
}

/// A date far enough from the epoch that we can place versions before it
fn today() -> Date {
    parse_lifecycle_date("2026-01-31").unwrap()
}

fn now_ms() -> u64 {
    utc_midnight_ts(today())
}

/// A version created `days_ago` days before `today()`
fn version(n: u8, days_ago: u64, size: u64) -> ObjectVersion {
    ObjectVersion::new(
        uuid(n),
        now_ms() - days_ago * DAY_MS,
        ObjectVersionKind::Versioned,
        ObjectVersionState::Complete(ObjectVersionData::Inline(
            ObjectVersionMeta {
                size,
                etag: "d41d8cd98f00b204e9800998ecf8427e".into(),
                encryption: ObjectVersionEncryption::Plaintext {
                    inner: ObjectVersionMetaInner {
                        headers: vec![],
                        checksum: None,
                        checksum_type: None,
                    },
                },
            },
            vec![],
        )),
    )
}

fn delete_marker(n: u8, days_ago: u64) -> ObjectVersion {
    ObjectVersion::new(
        uuid(n),
        now_ms() - days_ago * DAY_MS,
        ObjectVersionKind::Versioned,
        ObjectVersionState::Complete(ObjectVersionData::DeleteMarker),
    )
}

fn object(versions: Vec<ObjectVersion>) -> Object {
    Object::new(uuid(0xff), "the/key".into(), versions)
}

fn expire(object: &Object, nv_exp: &NoncurrentVersionExpiration, filter: &LifecycleFilter) -> Vec<Uuid> {
    expired_noncurrent_versions(object, filter, nv_exp, today(), now_ms())
        .into_iter()
        .map(|v| v.uuid)
        .collect()
}

fn after(days: usize) -> NoncurrentVersionExpiration {
    NoncurrentVersionExpiration { noncurrent_days: days, newer_noncurrent_versions: None }
}

#[test]
fn the_current_version_never_expires() {
    // A single version is the current one, however old it is
    let obj = object(vec![version(1, 100, 10)]);
    assert!(expire(&obj, &after(1), &LifecycleFilter::default()).is_empty());
}

#[test]
fn noncurrent_versions_expire_from_the_day_they_stopped_being_current() {
    // v1 became noncurrent when v2 was written 10 days ago, v2 became
    // noncurrent when v3 was written 3 days ago, v3 is current. As for
    // `Expiration`, the days are counted from the midnight that follows the
    // day a version became noncurrent, so v1 has been noncurrent for 9 days
    // and v2 for 2 days.
    let obj = object(vec![version(1, 30, 10), version(2, 10, 10), version(3, 3, 10)]);

    // After 10 days, nothing has been noncurrent for long enough
    assert!(expire(&obj, &after(10), &LifecycleFilter::default()).is_empty());

    // After 9 days, only v1 has
    assert_eq!(expire(&obj, &after(9), &LifecycleFilter::default()), vec![uuid(1)]);

    // After 2 days, both noncurrent versions have
    assert_eq!(expire(&obj, &after(2), &LifecycleFilter::default()), vec![uuid(1), uuid(2)]);
}

#[test]
fn the_most_recent_noncurrent_versions_can_be_kept() {
    let obj = object(vec![
        version(1, 40, 10),
        version(2, 30, 10),
        version(3, 20, 10),
        version(4, 10, 10),
    ]);
    let nv_exp = NoncurrentVersionExpiration { noncurrent_days: 1, newer_noncurrent_versions: Some(2) };
    // v1, v2 and v3 are noncurrent; the two most recent of them are kept
    assert_eq!(expire(&obj, &nv_exp, &LifecycleFilter::default()), vec![uuid(1)]);
}

#[test]
fn locked_versions_are_never_expired() {
    let mut locked = version(1, 30, 10);
    locked.retention.update(Some(Retention {
        mode: ObjectLockMode::Compliance,
        retain_until: now_ms() + DAY_MS,
    }));
    let mut held = version(2, 30, 10);
    held.legal_hold.update(true);

    let obj = object(vec![locked, held, version(3, 20, 10), version(4, 5, 10)]);
    assert_eq!(expire(&obj, &after(1), &LifecycleFilter::default()), vec![uuid(3)]);
}

#[test]
fn noncurrent_delete_markers_expire_too() {
    let obj = object(vec![delete_marker(1, 30), version(2, 20, 10)]);
    assert_eq!(expire(&obj, &after(1), &LifecycleFilter::default()), vec![uuid(1)]);
}

#[test]
fn a_size_filter_leaves_delete_markers_alone() {
    let filter = LifecycleFilter { size_gt: Some(5), ..Default::default() };
    // The delete marker has no size, so a rule with a size condition does
    // not apply to it; the small version does not match it either.
    let obj = object(vec![
        delete_marker(1, 30),
        version(2, 25, 1),
        version(3, 20, 100),
        version(4, 5, 10),
    ]);
    assert_eq!(expire(&obj, &after(1), &filter), vec![uuid(3)]);
}

#[test]
fn uploads_in_progress_are_not_noncurrent_versions() {
    let uploading = ObjectVersion::new(
        uuid(2),
        now_ms() - 30 * DAY_MS,
        ObjectVersionKind::Versioned,
        ObjectVersionState::Uploading {
            multipart: true,
            checksum_algorithm: None,
            encryption: ObjectVersionEncryption::Plaintext {
                inner: ObjectVersionMetaInner { headers: vec![], checksum: None, checksum_type: None },
            },
        },
    );
    let obj = object(vec![version(1, 40, 10), uploading, version(3, 20, 10)]);
    // Only v1 is a noncurrent version: the upload is not a version yet
    assert_eq!(expire(&obj, &after(1), &LifecycleFilter::default()), vec![uuid(1)]);
}

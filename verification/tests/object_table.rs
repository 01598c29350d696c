use garage_versions::bytes::{FixedBytes32, Uuid};
use garage_versions::object_lock_state::{
    DeleteProtection, ObjectLockMode, ObjectLockRetention, Retention,
};
use garage_versions::object_table::{
    Object, ObjectVersion, ObjectVersionKind, ObjectVersionState, NULL_VERSION_ID,
};
use garage_versions::version_data::{
    ObjectVersionData, ObjectVersionEncryption, ObjectVersionMeta, ObjectVersionMetaInner,
};

const KEY: &str = "the/key";

fn uuid(n: u8) -> Uuid {
    FixedBytes32::from_bytes([n; 32])
}

fn bucket() -> Uuid {
    uuid(0x42)
}

fn data_state(size: u64) -> ObjectVersionState {
    ObjectVersionState::Complete(ObjectVersionData::Inline(
        ObjectVersionMeta {
            size,
            etag: "d41d8cd98f00b204e9800998ecf8427e".into(),
            encryption: ObjectVersionEncryption::Plaintext {
                inner: ObjectVersionMetaInner {
                    headers: vec![],
                    checksum: None,
                    checksum_type: None,
                },
            },
        },
        vec![],
    ))
}

fn uploading_state() -> ObjectVersionState {
    ObjectVersionState::Uploading {
        multipart: false,
        checksum_algorithm: None,
        encryption: ObjectVersionEncryption::Plaintext {
            inner: ObjectVersionMetaInner {
                headers: vec![],
                checksum: None,
                checksum_type: None,
            },
        },
    }
}

fn version(n: u8, kind: ObjectVersionKind, state: ObjectVersionState) -> ObjectVersion {
    ObjectVersion::new(uuid(n), 1000 + n as u64, kind, state)
}

fn object(versions: Vec<ObjectVersion>) -> Object {
    Object::new(bucket(), KEY.into(), versions)
}

/// Merge `b` into `a` and return the version ids that `a` is left with
fn merged(a: Object, b: Object) -> Vec<Uuid> {
    let mut a = a;
    a.merge(&b);
    a.versions().iter().map(|v| v.uuid).collect()
}

#[test]
fn null_versions_replace_each_other() {
    // This is how a bucket on which versioning was never enabled behaves:
    // writing an object drops the version that was there before.
    let old = object(vec![version(1, ObjectVersionKind::Null, data_state(10))]);
    let new = object(vec![version(2, ObjectVersionKind::Null, data_state(20))]);
    assert_eq!(merged(old, new), vec![uuid(2)]);
}

#[test]
fn versioned_versions_are_all_kept() {
    let old = object(vec![version(1, ObjectVersionKind::Versioned, data_state(10))]);
    let new = object(vec![version(2, ObjectVersionKind::Versioned, data_state(20))]);
    assert_eq!(merged(old, new), vec![uuid(1), uuid(2)]);
}

#[test]
fn merge_is_commutative() {
    let old = object(vec![version(1, ObjectVersionKind::Versioned, data_state(10))]);
    let new = object(vec![version(2, ObjectVersionKind::Versioned, data_state(20))]);
    assert_eq!(merged(old.clone(), new.clone()), merged(new.clone(), old.clone()));

    // ... and idempotent
    let mut once = old.clone();
    once.merge(&new);
    let mut twice = once.clone();
    twice.merge(&new);
    assert_eq!(once, twice);
}

#[test]
fn suspended_versioning_only_replaces_the_null_version() {
    // A bucket whose versioning is suspended writes `null` versions, which
    // replace each other but leave the versions written while versioning
    // was enabled alone.
    let existing = object(vec![
        version(1, ObjectVersionKind::Versioned, data_state(10)),
        version(2, ObjectVersionKind::Null, data_state(20)),
    ]);
    let new = object(vec![version(3, ObjectVersionKind::Null, data_state(30))]);
    assert_eq!(merged(existing, new), vec![uuid(1), uuid(3)]);
}

#[test]
fn deleting_a_version_removes_it() {
    // Permanently deleting one version of an object puts it in the Aborted
    // state, and it is dropped as soon as a later complete version exists.
    let existing = object(vec![
        version(1, ObjectVersionKind::Versioned, data_state(10)),
        version(2, ObjectVersionKind::Versioned, data_state(20)),
    ]);
    let deleted = object(vec![version(1, ObjectVersionKind::Versioned, ObjectVersionState::Aborted)]);
    assert_eq!(merged(existing, deleted), vec![uuid(2)]);
}

#[test]
fn a_delete_marker_hides_previous_versions_without_dropping_them() {
    let existing = object(vec![version(1, ObjectVersionKind::Versioned, data_state(10))]);
    let marker = object(vec![version(
        2,
        ObjectVersionKind::Versioned,
        ObjectVersionState::Complete(ObjectVersionData::DeleteMarker),
    )]);

    let mut obj = existing;
    obj.merge(&marker);

    assert_eq!(
        obj.versions().iter().map(|v| v.uuid).collect::<Vec<_>>(),
        vec![uuid(1), uuid(2)]
    );
    assert_eq!(obj.current_version().map(|v| v.uuid), Some(uuid(2)));
    assert!(!obj.is_data());
    assert!(!obj.is_tombstone());
}

#[test]
fn a_null_delete_marker_alone_is_a_tombstone() {
    // On a bucket that was never versioned, an object that has been deleted
    // can be garbage-collected; a delete marker that is a real S3 version
    // cannot, as it is listed and can be deleted to restore the object.
    let deleted = object(vec![version(
        1,
        ObjectVersionKind::Null,
        ObjectVersionState::Complete(ObjectVersionData::DeleteMarker),
    )]);
    assert!(deleted.is_tombstone());

    let deleted = object(vec![version(
        1,
        ObjectVersionKind::Versioned,
        ObjectVersionState::Complete(ObjectVersionData::DeleteMarker),
    )]);
    assert!(!deleted.is_tombstone());
}

#[test]
fn an_ongoing_versioned_upload_survives_a_concurrent_write() {
    // On a versioned bucket, a multipart upload that was started before
    // another write completed must not be dropped, as completing it will
    // create a version of its own.
    let uploading = object(vec![version(1, ObjectVersionKind::Versioned, uploading_state())]);
    let written = object(vec![version(2, ObjectVersionKind::Versioned, data_state(20))]);
    assert_eq!(merged(uploading, written), vec![uuid(1), uuid(2)]);

    // On a bucket that is not versioned, it is dropped, as it was before
    // Garage supported versioning.
    let uploading = object(vec![version(1, ObjectVersionKind::Null, uploading_state())]);
    let written = object(vec![version(2, ObjectVersionKind::Null, data_state(20))]);
    assert_eq!(merged(uploading, written), vec![uuid(2)]);
}

#[test]
fn version_ids() {
    assert_eq!(version(1, ObjectVersionKind::Null, data_state(1)).version_id(), NULL_VERSION_ID);
    assert_eq!(
        version(1, ObjectVersionKind::Versioned, data_state(1)).version_id(),
        hex::encode([1u8; 32])
    );
}

#[test]
fn lookup_by_version_id() {
    let obj = object(vec![
        version(1, ObjectVersionKind::Versioned, data_state(10)),
        version(2, ObjectVersionKind::Null, data_state(20)),
    ]);
    assert_eq!(obj.version_by_id(&hex::encode([1u8; 32])).map(|v| v.uuid), Some(uuid(1)));
    assert_eq!(obj.version_by_id(NULL_VERSION_ID).map(|v| v.uuid), Some(uuid(2)));
    assert!(obj.version_by_id(&hex::encode([3u8; 32])).is_none());
}

fn retention(mode: ObjectLockMode, retain_until: u64) -> ObjectLockRetention {
    ObjectLockRetention {
        ts: 100,
        retention: Some(Retention { mode, retain_until }),
    }
}

#[test]
fn governance_retention_is_last_write_wins() {
    let mut a = retention(ObjectLockMode::Governance, 5000);
    let mut b = ObjectLockRetention { ts: 200, retention: None };
    let (a0, b0) = (a, b);

    a.merge(&b0);
    b.merge(&a0);
    assert_eq!(a, b);
    // The more recent write wins, even though it lifts the retention
    assert_eq!(a.get(), None);
}

#[test]
fn compliance_retention_can_never_be_lifted_or_shortened() {
    let compliance = retention(ObjectLockMode::Compliance, 5000);

    // A concurrent, more recent write that lifts the retention loses
    let mut merged = compliance;
    merged.merge(&ObjectLockRetention { ts: 999, retention: None });
    assert_eq!(
        merged.get(),
        Some(&Retention { mode: ObjectLockMode::Compliance, retain_until: 5000 })
    );

    // So does one that shortens it or downgrades it to governance mode
    let mut merged = compliance;
    merged.merge(&ObjectLockRetention {
        ts: 999,
        retention: Some(Retention { mode: ObjectLockMode::Governance, retain_until: 1 }),
    });
    assert_eq!(
        merged.get(),
        Some(&Retention { mode: ObjectLockMode::Compliance, retain_until: 5000 })
    );

    // But it can be extended
    let mut merged = compliance;
    merged.merge(&retention(ObjectLockMode::Compliance, 9000));
    assert_eq!(merged.get().unwrap().retain_until, 9000);
}

#[test]
fn delete_protection_of_a_version() {
    let now = 1_000_000;
    let mut v = version(1, ObjectVersionKind::Versioned, data_state(10));
    assert_eq!(v.delete_protection(now), DeleteProtection::Unprotected);

    // An expired retention does not protect the version any more
    v.retention.update(Some(Retention { mode: ObjectLockMode::Governance, retain_until: now - 1 }));
    assert_eq!(v.delete_protection(now), DeleteProtection::Unprotected);

    v.retention.update(Some(Retention { mode: ObjectLockMode::Governance, retain_until: now + 1 }));
    assert_eq!(v.delete_protection(now), DeleteProtection::Governance { retain_until: now + 1 });
    assert!(v.delete_protection(now).is_protected());
    assert!(!v.delete_protection(now).is_protected_from_bypass());

    v.retention.update(Some(Retention { mode: ObjectLockMode::Compliance, retain_until: now + 1 }));
    assert!(v.delete_protection(now).is_protected_from_bypass());

    // A legal hold protects the version whatever its retention says
    v.retention.update(None);
    v.legal_hold.update(true);
    assert_eq!(v.delete_protection(now), DeleteProtection::LegalHold);
    assert!(v.delete_protection(now).is_protected_from_bypass());

    v.legal_hold.update(false);
    assert_eq!(v.delete_protection(now), DeleteProtection::Unprotected);
}

#[test]
fn locks_survive_a_merge_with_a_version_that_has_none() {
    // Writing an object version again (e.g. to mark an upload as complete)
    // must not clear the lock settings that were set on it in the meantime.
    let mut locked = version(1, ObjectVersionKind::Versioned, data_state(10));
    locked.retention.update(Some(Retention { mode: ObjectLockMode::Compliance, retain_until: 9_000 }));
    locked.legal_hold.update(true);

    let plain = version(1, ObjectVersionKind::Versioned, data_state(10));

    let mut obj = object(vec![locked]);
    obj.merge(&object(vec![plain]));

    let v = &obj.versions()[0];
    assert_eq!(v.retention.get().unwrap().retain_until, 9_000);
    assert!(*v.legal_hold.get());
}

#[test]
fn compliance_retention_merge_is_commutative() {
    let a = retention(ObjectLockMode::Compliance, 5000);
    let b = ObjectLockRetention { ts: 999, retention: None };

    let mut ab = a;
    ab.merge(&b);
    let mut ba = b;
    ba.merge(&a);
    assert_eq!(ab, ba);
}

#[test]
fn merging_twice_brings_back_a_retained_version_dropped_by_the_first_merge() {
    // The object holds an aborted replica of v1, which a replica still holds
    // complete, before its current version v2: the first merge drops v1, the
    // second one brings it back. This is the one case in which merging the
    // same replica twice differs from merging it once.
    let aborted = object(vec![version(1, ObjectVersionKind::Versioned, ObjectVersionState::Aborted)]);
    let replica = object(vec![
        version(1, ObjectVersionKind::Versioned, data_state(10)),
        version(2, ObjectVersionKind::Versioned, data_state(20)),
    ]);
    let mut once = aborted;
    once.merge(&replica);
    assert_eq!(once.versions().iter().map(|v| v.uuid).collect::<Vec<_>>(), vec![uuid(2)]);
    let mut twice = once.clone();
    twice.merge(&replica);
    assert_eq!(twice.versions().iter().map(|v| v.uuid).collect::<Vec<_>>(), vec![uuid(1), uuid(2)]);
}

#[test]
fn merging_a_replica_into_itself_changes_nothing() {
    let obj = object(vec![
        version(1, ObjectVersionKind::Versioned, data_state(10)),
        version(2, ObjectVersionKind::Null, uploading_state()),
        version(3, ObjectVersionKind::Versioned, data_state(30)),
    ]);
    let mut merged = obj.clone();
    merged.merge(&obj);
    let mut again = merged.clone();
    again.merge(&obj);
    assert_eq!(merged, again);
}

use garage_versions::bucket_table::{
    parse_lifecycle_date, Bucket, BucketParams, Date, LifecycleDateError, LifecycleExpiration,
    LifecycleFilter, LifecycleRule, NoncurrentVersionExpiration, VersioningState,
};
use garage_versions::bytes::FixedBytes32;
use garage_versions::lifecycle::{
    bucket_rules_in_range, is_dated, lifecycle_plan, needs_lifecycle_check, next_date,
    rule_in_range_check, utc_midnight_ts, LifecycleAction, Skip, MAX_DATED_MSEC,
};
use garage_versions::lifecycle_worker::{next_position, remembered_text, BucketChoice, State};
use garage_versions::object_table::{Object, ObjectVersion, ObjectVersionKind, ObjectVersionState};
use garage_versions::time::Lww;
use garage_versions::version_data::{
    ObjectVersionData, ObjectVersionEncryption, ObjectVersionMeta, ObjectVersionMetaInner,
};

const DAY_MS: u64 = 24 * 3600 * 1000;

fn date(s: &str) -> Date {
    parse_lifecycle_date(s).unwrap()
}

#[test]
fn lifecycle_dates() {
    assert_eq!(date("1970-01-01"), Date { day: 719_163 });
    assert_eq!(date("2026-01-31T00:00:00Z"), date("2026-01-31"));
    assert_eq!(parse_lifecycle_date("2026-01-31T10:00:00Z"), Err(LifecycleDateError::NotMidnight));
    assert_eq!(parse_lifecycle_date("31/01/2026"), Err(LifecycleDateError::InvalidFormat));
    assert_eq!(LifecycleDateError::NotMidnight.message(), "date must be at midnight");
    assert_eq!(LifecycleDateError::InvalidFormat.message(), "date has invalid format");
    assert_eq!(utc_midnight_ts(date("1970-01-02")), DAY_MS);
    // A version written at some time of a day counts from the next midnight
    assert_eq!(next_date(DAY_MS + 5), date("1970-01-03"));
    assert_eq!(next_date(DAY_MS - 1), date("1970-01-02"));
}

#[test]
fn the_worker_starts_once_a_day() {
    let today = date("2026-01-31");
    assert!(matches!(State::initial(Some(today), today), State::Completed(d) if d == today));
    assert!(matches!(
        State::initial(Some(date("2026-01-30")), today),
        State::Running { date: d, counter: 0, .. } if d == today
    ));
    assert!(matches!(State::initial(None, today), State::Running { date: d, .. } if d == today));
    // After a completed day, the next one starts, or today if it is later
    assert!(matches!(
        State::restart(date("2026-01-30"), today),
        State::Running { date: d, .. } if d == today
    ));
    assert!(matches!(
        State::restart(date("2026-02-03"), today),
        State::Running { date: d, .. } if d == date("2026-02-04")
    ));
    let mut s = State::start(today);
    assert_eq!(s.finish(), Some(today));
    assert!(matches!(s, State::Completed(d) if d == today));
    assert_eq!(s.finish(), None);
}

#[test]
fn skipping_a_bucket_passes_all_its_keys() {
    let bucket = [7u8; 32];
    let mut next = bucket.to_vec();
    next.extend_from_slice(b"b");
    let pos = next_position(next.clone(), &FixedBytes32::from_bytes(bucket), Skip::SkipBucket);
    for key in ["b", "zzz", "\u{10FFFF}\u{10FFFF}"] {
        let mut k = bucket.to_vec();
        k.extend_from_slice(key.as_bytes());
        assert!(k < pos);
    }
    assert!(pos < [8u8; 32].to_vec());
    assert_eq!(next_position(next.clone(), &FixedBytes32::from_bytes(bucket), Skip::NextObject), next);
}

fn data_version(n: u8, ts: u64) -> ObjectVersion {
    ObjectVersion::new(
        FixedBytes32::from_bytes([n; 32]),
        ts,
        ObjectVersionKind::Versioned,
        ObjectVersionState::Complete(ObjectVersionData::Inline(
            ObjectVersionMeta {
                size: 10,
                etag: "etag".into(),
                encryption: ObjectVersionEncryption::Plaintext {
                    inner: ObjectVersionMetaInner { headers: vec![], checksum: None, checksum_type: None },
                },
            },
            vec![],
        )),
    )
}

fn bucket_with(rules: Vec<LifecycleRule>, versioning: VersioningState) -> Bucket {
    let mut params = BucketParams::new();
    params.lifecycle_config = Some(rules);
    params.versioning = Lww::raw(1, versioning);
    Bucket::present(FixedBytes32::from_bytes([0x42; 32]), params)
}

fn rule(expiration: Option<LifecycleExpiration>, nv: Option<NoncurrentVersionExpiration>) -> LifecycleRule {
    LifecycleRule {
        id: None,
        enabled: true,
        filter: LifecycleFilter::default(),
        abort_incomplete_mpu_days: None,
        expiration,
        noncurrent_version_expiration: nv,
    }
}

#[test]
fn lifecycle_plan_of_an_object() {
    let today = date("2026-01-31");
    let now_ms = utc_midnight_ts(today);
    let obj = Object::new(
        FixedBytes32::from_bytes([0x42; 32]),
        "k".into(),
        vec![data_version(1, now_ms - 40 * DAY_MS), data_version(2, now_ms - 20 * DAY_MS)],
    );
    assert!(needs_lifecycle_check(&obj));

    // No bucket, or no enabled rule: the rest of the bucket is skipped
    let (skip, actions) = lifecycle_plan(&obj, None, today, now_ms);
    assert_eq!(skip, Skip::SkipBucket);
    assert!(actions.is_empty());
    let mut disabled = rule(Some(LifecycleExpiration::AfterDays(1)), None);
    disabled.enabled = false;
    let (skip, _) = lifecycle_plan(&obj, Some(&bucket_with(vec![disabled], VersioningState::Enabled)), today, now_ms);
    assert_eq!(skip, Skip::SkipBucket);

    // The current version expires behind a delete marker, after the
    // latest version; the noncurrent one is expired for good
    let b = bucket_with(
        vec![rule(
            Some(LifecycleExpiration::AfterDays(10)),
            Some(NoncurrentVersionExpiration { noncurrent_days: 5, newer_noncurrent_versions: None }),
        )],
        VersioningState::Enabled,
    );
    let (skip, actions) = lifecycle_plan(&obj, Some(&b), today, now_ms);
    assert_eq!(skip, Skip::NextObject);
    assert_eq!(actions.len(), 2);
    match &actions[0] {
        LifecycleAction::AddDeleteMarker { timestamp, kind } => {
            assert_eq!(*kind, ObjectVersionKind::Versioned);
            assert!(*timestamp > now_ms - 20 * DAY_MS);
        }
        other => panic!("unexpected {:?}", other),
    }
    match &actions[1] {
        LifecycleAction::ExpireVersions(v) => {
            assert_eq!(v.len(), 1);
            assert_eq!(v[0].uuid, FixedBytes32::from_bytes([1; 32]));
            assert_eq!(v[0].state, ObjectVersionState::Aborted);
        }
        other => panic!("unexpected {:?}", other),
    }

    // The worker counts what it did
    let mut s = State::start(today);
    let mut next = [0x42u8; 32].to_vec();
    next.push(b'k');
    s.object_processed(next, &FixedBytes32::from_bytes([0x42; 32]), skip, &actions, Some(b));
    match s {
        State::Running { counter, objects_expired, versions_expired, mpu_aborted, last_bucket, .. } => {
            assert_eq!((counter, objects_expired, versions_expired, mpu_aborted), (1, 1, 1, 0));
            assert!(last_bucket.is_some());
        }
        _ => panic!("still running"),
    }
}

#[test]
fn the_worker_reads_back_the_day_it_remembers() {
    let today = date("2026-01-31");
    assert!(matches!(
        State::from_remembered(Some("2026-01-31"), today),
        State::Completed(d) if d == today
    ));
    assert!(matches!(
        State::from_remembered(Some("2026-02-02"), today),
        State::Completed(d) if d == date("2026-02-02")
    ));
    assert!(matches!(
        State::from_remembered(Some("2026-01-30"), today),
        State::Running { date: d, counter: 0, .. } if d == today
    ));
    assert!(matches!(
        State::from_remembered(Some("not a date"), today),
        State::Running { date: d, .. } if d == today
    ));
    assert!(matches!(State::from_remembered(None, today), State::Running { date: d, .. } if d == today));
    assert_eq!(remembered_text(today), "2026-01-31");
    assert_eq!(remembered_text(date("1970-01-01")), "1970-01-01");
    let saved = remembered_text(date("2025-12-31"));
    assert!(matches!(
        State::from_remembered(Some(&saved), today),
        State::Running { date: d, .. } if d == today
    ));
    assert!(matches!(
        State::from_remembered(Some(&remembered_text(today)), today),
        State::Completed(d) if d == today
    ));
}

#[test]
fn the_worker_keeps_the_bucket_of_the_previous_object() {
    let today = date("2026-01-31");
    let now_ms = utc_midnight_ts(today);
    let id = FixedBytes32::from_bytes([0x42; 32]);
    let obj = Object::new(id, "k".into(), vec![data_version(1, now_ms - DAY_MS)]);
    let empty = Object::new(id, "e".into(), vec![]);

    let mut s = State::start(today);
    // An object with nothing for lifecycle rules does not need its bucket
    assert!(matches!(s.choose_bucket(&empty), BucketChoice::NotNeeded));
    assert!(matches!(s.choose_bucket(&obj), BucketChoice::Fetch));

    let b = bucket_with(vec![rule(Some(LifecycleExpiration::AfterDays(10)), None)], VersioningState::Enabled);
    let (skip, actions) = lifecycle_plan(&obj, Some(&b), today, now_ms);
    assert_eq!(skip, Skip::NextObject);
    assert!(s.can_count(&actions));
    let mut next = [0x42u8; 32].to_vec();
    next.push(b'l');
    s.object_processed(next.clone(), &id, skip, &actions, Some(b.clone()));

    // The next object of the same bucket reads it from the worker, once
    assert!(matches!(s.choose_bucket(&empty), BucketChoice::NotNeeded));
    assert!(matches!(s.choose_bucket(&obj), BucketChoice::Cached(c) if c.id == id));
    assert!(matches!(s.choose_bucket(&obj), BucketChoice::Fetch));

    // An object of another bucket reads its own
    s.object_processed(next.clone(), &id, skip, &actions, Some(b.clone()));
    let other = Object::new(FixedBytes32::from_bytes([7; 32]), "k".into(), vec![data_version(1, now_ms - DAY_MS)]);
    assert!(matches!(s.choose_bucket(&other), BucketChoice::Fetch));

    // A bucket whose rest is skipped is not kept
    s.object_processed(next, &id, Skip::SkipBucket, &Vec::new(), Some(b));
    assert!(matches!(s.choose_bucket(&obj), BucketChoice::Fetch));

    // A completed day counts nothing more
    let mut done = State::initial(Some(today), today);
    assert!(!done.can_count(&Vec::new()));
    assert!(matches!(done.choose_bucket(&obj), BucketChoice::Fetch));
}

#[test]
fn rule_durations_must_fit() {
    let ok = rule(Some(LifecycleExpiration::AfterDays(10)), None);
    assert!(rule_in_range_check(&ok));
    let too_long = rule(Some(LifecycleExpiration::AfterDays(200_000_000_000)), None);
    assert!(!rule_in_range_check(&too_long));
    let too_long_nv = rule(
        None,
        Some(NoncurrentVersionExpiration { noncurrent_days: 200_000_000_000, newer_noncurrent_versions: None }),
    );
    assert!(!rule_in_range_check(&too_long_nv));
    let mut too_long_mpu = rule(None, None);
    too_long_mpu.abort_incomplete_mpu_days = Some(200_000_000_000);
    assert!(!rule_in_range_check(&too_long_mpu));
    assert!(bucket_rules_in_range(&bucket_with(vec![ok.clone()], VersioningState::Enabled)));
    assert!(!bucket_rules_in_range(&bucket_with(vec![ok, too_long], VersioningState::Enabled)));
}

#[test]
fn versions_must_be_dated() {
    let id = FixedBytes32::from_bytes([0x42; 32]);
    assert!(is_dated(&Object::new(id, "k".into(), vec![data_version(1, 5)])));
    assert!(!is_dated(&Object::new(
        id,
        "k".into(),
        vec![data_version(1, 5), data_version(2, MAX_DATED_MSEC)]
    )));
}

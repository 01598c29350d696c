use garage_versions::bucket_table::{Bucket, BucketParams, RetentionDuration, VersioningState};
use garage_versions::bytes::FixedBytes32;
use garage_versions::time::now_msec;

#[test]
fn retention_durations_in_milliseconds() {
    assert_eq!(RetentionDuration::Days(1).as_msec(), 86_400_000);
    // As in AWS S3, a year is 365 days
    assert_eq!(RetentionDuration::Years(1).as_msec(), 31_536_000_000);
    assert_eq!(RetentionDuration::Days(u64::MAX).as_msec(), u64::MAX);
    assert_eq!(RetentionDuration::Years(u64::MAX / 365).as_msec(), u64::MAX);
}

#[test]
fn buckets_and_their_parameters() {
    let params = BucketParams::default();
    assert_eq!(params.versioning(), VersioningState::Disabled);
    assert!(!params.is_versioning_enabled());
    assert_eq!(params.object_lock(), None);

    let mut bucket = Bucket::present(FixedBytes32::from_bytes([1; 32]), params);
    assert!(!bucket.is_deleted());
    bucket.params_mut().unwrap().creation_date = 42;
    assert_eq!(bucket.params().unwrap().creation_date, 42);

    let mut deleted = Bucket { id: FixedBytes32::from_bytes([2; 32]), state: None };
    assert!(deleted.is_deleted());
    assert!(deleted.params().is_none());
    assert!(deleted.params_mut().is_none());
}

#[test]
fn the_clock_reads_milliseconds_since_the_epoch() {
    let a = now_msec();
    // 2020-09-13, in milliseconds: a clock read in seconds would be far below
    assert!(a > 1_600_000_000_000);
    assert!(a <= i64::MAX as u64);
    let params = BucketParams::default();
    assert!(params.creation_date >= a);
}

use garage_versions::bucket_formats::v2 as bucket_v2;
use garage_versions::bucket_table::{Bucket, LifecycleExpiration, LifecycleFilter, VersioningState};
use garage_versions::bytes::FixedBytes32;
use garage_versions::object_formats::{v010, v08, v09, v2};
use garage_versions::object_table::{Object, ObjectVersionKind, ObjectVersionState};
use garage_versions::version_data::{
    ChecksumAlgorithm, ChecksumType, ObjectVersionData, ObjectVersionEncryption,
};

fn headers(content_type: &str) -> v08::ObjectVersionHeaders {
    v08::ObjectVersionHeaders {
        content_type: content_type.into(),
        other: vec![("x-amz-meta-a".into(), "1".into()), ("x-amz-meta-b".into(), "2".into())],
    }
}

fn v08_object() -> v08::Object {
    v08::Object {
        bucket_id: FixedBytes32::from_bytes([7; 32]),
        key: "k".into(),
        versions: vec![
            v08::ObjectVersion {
                uuid: FixedBytes32::from_bytes([1; 32]),
                timestamp: 10,
                state: v08::ObjectVersionState::Complete(v08::ObjectVersionData::Inline(
                    v08::ObjectVersionMeta { headers: headers("text/plain"), size: 3, etag: "e".into() },
                    vec![1, 2, 3],
                )),
            },
            v08::ObjectVersion {
                uuid: FixedBytes32::from_bytes([2; 32]),
                timestamp: 20,
                state: v08::ObjectVersionState::Uploading(headers("blob")),
            },
        ],
    }
}

#[test]
fn objects_are_brought_to_the_current_format() {
    let o09 = v09::Object::migrate(v08_object());
    assert_eq!(o09.versions.len(), 2);
    assert!(matches!(
        o09.versions[1].state,
        v09::ObjectVersionState::Uploading { multipart: false, .. }
    ));

    let o010 = v010::Object::migrate(o09);
    // The content type goes first, unless it is the default one
    match &o010.versions[0].state {
        v010::ObjectVersionState::Complete(v010::ObjectVersionData::Inline(meta, data)) => {
            assert_eq!(data, &vec![1, 2, 3]);
            assert_eq!(meta.etag, "e");
            match &meta.encryption {
                v010::ObjectVersionEncryption::Plaintext { inner } => {
                    assert_eq!(inner.checksum, None);
                    assert_eq!(
                        inner.headers,
                        vec![
                            ("content-type".to_string(), "text/plain".to_string()),
                            ("x-amz-meta-a".to_string(), "1".to_string()),
                            ("x-amz-meta-b".to_string(), "2".to_string()),
                        ]
                    );
                }
                _ => panic!("headers are stored in plain text"),
            }
        }
        _ => panic!("the version stays complete"),
    }
    match &o010.versions[1].state {
        v010::ObjectVersionState::Uploading { encryption: v010::ObjectVersionEncryption::Plaintext { inner }, checksum_algorithm: None, .. } => {
            assert_eq!(inner.headers.len(), 2);
        }
        _ => panic!("the upload stays an upload"),
    }

    let o2 = v2::Object::migrate(o010);
    let o3 = Object::migrate(o2);
    assert_eq!(o3.bucket_id, FixedBytes32::from_bytes([7; 32]));
    assert_eq!(o3.key, "k");
    let versions = o3.versions();
    assert_eq!(versions.len(), 2);
    // Objects that predate versioning are `null` versions, without locks
    assert!(versions.iter().all(|v| v.kind == ObjectVersionKind::Null));
    assert!(versions.iter().all(|v| v.retention.get().is_none() && !*v.legal_hold.get()));
    assert!(matches!(versions[0].state, ObjectVersionState::Complete(ObjectVersionData::Inline(..))));
    assert_eq!(o3.current_version().map(|v| v.timestamp), Some(10));
}

#[test]
fn checksum_types_follow_the_kind_of_upload() {
    let upload = |multipart: bool| v010::ObjectVersion {
        uuid: FixedBytes32::from_bytes([1; 32]),
        timestamp: 1,
        state: v010::ObjectVersionState::Uploading {
            multipart,
            checksum_algorithm: Some(ChecksumAlgorithm::Sha256),
            encryption: v010::ObjectVersionEncryption::SseC { inner: vec![9], compressed: true, use_oek: false },
        },
    };
    for (multipart, expected) in [(false, ChecksumType::FullObject), (true, ChecksumType::Composite)] {
        let o = v2::Object::migrate(v010::Object {
            bucket_id: FixedBytes32::from_bytes([0; 32]),
            key: "k".into(),
            versions: vec![upload(multipart)],
        });
        match &o.versions[0].state {
            ObjectVersionState::Uploading { checksum_algorithm, encryption, .. } => {
                assert_eq!(*checksum_algorithm, Some((ChecksumAlgorithm::Sha256, expected)));
                assert_eq!(
                    *encryption,
                    ObjectVersionEncryption::SseC { inner: vec![9], compressed: true, use_oek: false }
                );
            }
            _ => panic!("the upload stays an upload"),
        }
    }
}

#[test]
fn buckets_are_brought_to_the_current_format() {
    let old = bucket_v2::Bucket {
        id: FixedBytes32::from_bytes([3; 32]),
        state: Some(bucket_v2::BucketParams {
            creation_date: 1234,
            lifecycle_config: Some(vec![bucket_v2::LifecycleRule {
                id: Some("r".into()),
                enabled: true,
                filter: LifecycleFilter::default(),
                abort_incomplete_mpu_days: Some(3),
                expiration: Some(LifecycleExpiration::AfterDays(30)),
            }]),
        }),
    };
    let b = Bucket::migrate(old);
    let p = b.params().unwrap();
    assert_eq!(p.creation_date, 1234);
    assert_eq!(p.versioning(), VersioningState::Disabled);
    assert_eq!(p.versioning.ts, 1234);
    assert_eq!(p.object_lock(), None);
    let rules = p.lifecycle_config.as_ref().unwrap();
    assert_eq!(rules.len(), 1);
    assert_eq!(rules[0].noncurrent_version_expiration, None);
    assert_eq!(rules[0].expiration, Some(LifecycleExpiration::AfterDays(30)));

    let deleted = Bucket::migrate(bucket_v2::Bucket { id: FixedBytes32::from_bytes([3; 32]), state: None });
    assert!(deleted.is_deleted());
}

use garage_versions::bucket_table::{BucketParams, VersioningState};
use garage_versions::bytes::{FixedBytes32, Uuid};
use garage_versions::delete::{
    handle_delete, handle_delete_internal, handle_delete_objects, next_timestamp,
    parse_delete_objects, parse_delete_objects_xml, DeleteObject, DeleteOutcome, DeleteRequest,
};
use garage_versions::object_lock_state::{ObjectLockMode, Retention};
use garage_versions::object_table::{Object, ObjectVersion, ObjectVersionKind, ObjectVersionState};
use garage_versions::s3_error::{BadRequest, Forbidden, S3Error};
use garage_versions::time::Lww;
use garage_versions::version_data::{
    ObjectVersionData, ObjectVersionEncryption, ObjectVersionMeta, ObjectVersionMetaInner,
};
use garage_versions::xml::parse_xml;

#[test]
fn parse_delete_objects_xml_with_formatting() {
    let body = r#"
			<Delete xmlns="http://s3.amazonaws.com/doc/2006-03-01/">
			    <Object>
			        <Key>1_746573745f66696c65</Key>
			    </Object>
			    <Quiet>true</Quiet>
			</Delete>
		"#;
    let xml = parse_xml(body).expect("valid delete XML");
    let req = parse_delete_objects_xml(&xml).expect("request should be parsed");

    assert_eq!(req.objects.len(), 1);
    assert_eq!(req.objects[0].key, "1_746573745f66696c65");
    assert!(req.quiet);
}

#[test]
fn parse_delete_objects_xml_rejects_non_whitespace_text_node() {
    let body = r#"<Delete xmlns="http://s3.amazonaws.com/doc/2006-03-01/">oops<Object><Key>1_746573745f66696c65</Key></Object></Delete>"#;
    let xml = parse_xml(body).expect("valid XML");
    let req = parse_delete_objects_xml(&xml);
    assert!(req.is_none());
}

#[test]
fn parse_delete_objects_xml_rejects_pretty_print_with_stray_text() {
    let body = r#"
			<Delete xmlns="http://s3.amazonaws.com/doc/2006-03-01/">
			    oops
			    <Object>
			        <Key>1_746573745f66696c65</Key>
			    </Object>
			</Delete>
		"#;
    let xml = parse_xml(body).expect("valid XML");
    let req = parse_delete_objects_xml(&xml);
    assert!(req.is_none());
}

#[test]
fn parse_delete_objects_xml_accepts_compact_valid_xml() {
    let body = r#"<Delete xmlns="http://s3.amazonaws.com/doc/2006-03-01/"><Object><Key>1_746573745f66696c65</Key></Object><Quiet>false</Quiet></Delete>"#;
    let xml = parse_xml(body).expect("valid XML");
    let req = parse_delete_objects_xml(&xml).expect("request should be parsed");
    assert_eq!(req.objects.len(), 1);
    assert_eq!(req.objects[0].key, "1_746573745f66696c65");
    assert!(!req.quiet);
}

// ---- Reading DeleteObjects documents ----

#[test]
fn delete_document_with_version_ids_comments_and_last_quiet_winning() {
    let body = "<Delete><Quiet>true</Quiet>\
        <Object><Key>a</Key><VersionId>v1</VersionId></Object>\
        <Object><VersionId>ignored</VersionId><Key>b</Key></Object>\
        <Quiet>false</Quiet></Delete>";
    let req = parse_delete_objects(body).expect("valid request");
    assert!(!req.quiet);
    assert_eq!(
        req.objects,
        vec![
            DeleteObject { key: "a".into(), version_id: Some("v1".into()) },
            DeleteObject { key: "b".into(), version_id: Some("ignored".into()) },
        ]
    );
}

#[test]
fn delete_document_tag_names_ignore_namespaces_and_quiet_is_exact() {
    let body = r#"<d:Delete xmlns:d="urn:x"><d:Quiet>TRUE</d:Quiet><d:Object><d:Key>k</d:Key></d:Object></d:Delete>"#;
    let req = parse_delete_objects(body).expect("valid request");
    assert!(!req.quiet);
    assert_eq!(req.objects.len(), 1);
    assert_eq!(req.objects[0].key, "k");
    assert_eq!(req.objects[0].version_id, None);
}

#[test]
fn delete_document_errors() {
    // Not XML at all
    assert!(matches!(parse_delete_objects("<Delete>"), Err(S3Error::InvalidXml(_))));
    // Another root element
    assert_eq!(
        parse_delete_objects("<Remove><Object><Key>a</Key></Object></Remove>"),
        Err(S3Error::BadRequest(BadRequest::InvalidDeleteXml))
    );
    // An object without a key, or with an empty one
    assert_eq!(
        parse_delete_objects("<Delete><Object></Object></Delete>"),
        Err(S3Error::BadRequest(BadRequest::InvalidDeleteXml))
    );
    assert_eq!(
        parse_delete_objects("<Delete><Object><Key></Key></Object></Delete>"),
        Err(S3Error::BadRequest(BadRequest::InvalidDeleteXml))
    );
    // An unknown element
    assert_eq!(
        parse_delete_objects("<Delete><Other/></Delete>"),
        Err(S3Error::BadRequest(BadRequest::InvalidDeleteXml))
    );
    // A comment or a processing instruction is not formatting
    assert_eq!(
        parse_delete_objects("<Delete><!-- a --><Object><Key>a</Key></Object></Delete>"),
        Err(S3Error::BadRequest(BadRequest::InvalidDeleteXml))
    );
    assert_eq!(
        parse_delete_objects("<Delete><?pi x?><Object><Key>a</Key></Object></Delete>"),
        Err(S3Error::BadRequest(BadRequest::InvalidDeleteXml))
    );
    // Unicode white space between elements is formatting too
    assert!(parse_delete_objects("<Delete>\u{3000}\u{a0}<Object><Key>a</Key></Object></Delete>").is_ok());
}

// ---- Deleting objects and versions ----

fn uuid(n: u8) -> Uuid {
    FixedBytes32::from_bytes([n; 32])
}

fn data_state(size: u64) -> ObjectVersionState {
    ObjectVersionState::Complete(ObjectVersionData::Inline(
        ObjectVersionMeta {
            size,
            etag: "etag".into(),
            encryption: ObjectVersionEncryption::Plaintext {
                inner: ObjectVersionMetaInner { headers: vec![], checksum: None, checksum_type: None },
            },
        },
        vec![],
    ))
}

fn params(versioning: VersioningState) -> BucketParams {
    let mut p = BucketParams::new();
    p.versioning = Lww::raw(1, versioning);
    p
}

fn stored() -> Object {
    Object::new(
        uuid(0x42),
        "the/key".into(),
        vec![
            ObjectVersion::new(uuid(1), 1000, ObjectVersionKind::Versioned, data_state(10)),
            ObjectVersion::new(uuid(2), 2000, ObjectVersionKind::Versioned, data_state(20)),
        ],
    )
}

#[test]
fn next_timestamp_comes_after_every_version() {
    assert_eq!(next_timestamp(None, 500), 500);
    assert_eq!(next_timestamp(Some(&stored()), 500), 2001);
    assert_eq!(next_timestamp(Some(&stored()), 5000), 5000);
}

#[test]
fn deleting_a_missing_object_is_no_such_key_and_answers_nothing() {
    let p = params(VersioningState::Enabled);
    let r = handle_delete_internal(&p, None, None, false, false, 10, uuid(9));
    assert_eq!(r.as_ref().err(), Some(&S3Error::NoSuchKey));
    assert_eq!(handle_delete(&p, Err(S3Error::NoSuchKey)), Ok(vec![]));
}

#[test]
fn deleting_without_version_id_adds_a_delete_marker() {
    let p = params(VersioningState::Enabled);
    let obj = stored();
    let (written, outcome) = handle_delete_internal(&p, Some(&obj), None, false, false, 100, uuid(9))
        .expect("delete marker");
    let marker = &written.versions()[0];
    assert_eq!(written.versions().len(), 1);
    assert_eq!(marker.uuid, uuid(9));
    assert_eq!(marker.timestamp, 2001);
    assert_eq!(marker.kind, ObjectVersionKind::Versioned);
    assert!(marker.is_delete_marker());
    assert_eq!(outcome.version_id, Some(hex::encode([9u8; 32])));
    assert!(outcome.delete_marker);

    // Once merged, the object reads as deleted but keeps its versions
    let mut obj = obj;
    obj.merge(&written);
    assert_eq!(obj.versions().len(), 3);
    assert!(!obj.is_data());

    let headers = handle_delete(&p, Ok(outcome)).unwrap();
    assert_eq!(
        headers,
        vec![
            ("x-amz-delete-marker", "true".to_string()),
            ("x-amz-version-id", hex::encode([9u8; 32])),
        ]
    );
}

#[test]
fn a_bucket_never_versioned_gets_a_null_marker_and_no_headers() {
    let p = params(VersioningState::Disabled);
    let obj = stored();
    // The version id is ignored on such a bucket
    let (written, outcome) =
        handle_delete_internal(&p, Some(&obj), Some("whatever"), false, false, 100, uuid(9)).unwrap();
    assert_eq!(written.versions()[0].kind, ObjectVersionKind::Null);
    assert_eq!(outcome.version_id, Some("null".to_string()));
    assert_eq!(handle_delete(&p, Ok(outcome)), Ok(vec![]));
}

#[test]
fn deleting_a_version_aborts_it() {
    let p = params(VersioningState::Enabled);
    let obj = stored();
    let id = hex::encode([1u8; 32]);
    let (written, outcome) =
        handle_delete_internal(&p, Some(&obj), Some(&id), false, false, 100, uuid(9)).unwrap();
    assert_eq!(written.versions().len(), 1);
    assert_eq!(written.versions()[0].uuid, uuid(1));
    assert_eq!(written.versions()[0].state, ObjectVersionState::Aborted);
    assert_eq!(
        outcome,
        DeleteOutcome { version_id: Some(id.clone()), delete_marker: false, delete_marker_version_id: None }
    );
    assert_eq!(handle_delete(&p, Ok(outcome)), Ok(vec![("x-amz-version-id", id)]));

    let missing = hex::encode([3u8; 32]);
    assert_eq!(
        handle_delete_internal(&p, Some(&obj), Some(&missing), false, false, 100, uuid(9)).err(),
        Some(S3Error::NoSuchVersion)
    );
}

#[test]
fn object_lock_protects_versions_from_deletion() {
    let p = params(VersioningState::Enabled);
    let mut v = ObjectVersion::new(uuid(1), 1000, ObjectVersionKind::Versioned, data_state(10));
    v.retention.update_at(Some(Retention { mode: ObjectLockMode::Governance, retain_until: 500 }), 50);
    let obj = Object::new(uuid(0x42), "k".into(), vec![v]);
    let id = hex::encode([1u8; 32]);
    let denied = Some(S3Error::Forbidden(Forbidden::GovernanceDelete { retain_until: 500 }));
    assert_eq!(handle_delete_internal(&p, Some(&obj), Some(&id), false, true, 100, uuid(9)).err(), denied);
    assert_eq!(handle_delete_internal(&p, Some(&obj), Some(&id), true, false, 100, uuid(9)).err(), denied);
    assert!(handle_delete_internal(&p, Some(&obj), Some(&id), true, true, 100, uuid(9)).is_ok());
    // Once the retention has expired, anyone may delete it
    assert!(handle_delete_internal(&p, Some(&obj), Some(&id), false, false, 500, uuid(9)).is_ok());
    // A delete marker can always be added
    assert!(handle_delete_internal(&p, Some(&obj), None, false, false, 100, uuid(9)).is_ok());
}

#[test]
fn delete_objects_answer() {
    let request = DeleteRequest {
        quiet: false,
        objects: vec![
            DeleteObject { key: "a".into(), version_id: None },
            DeleteObject { key: "b".into(), version_id: Some("v".into()) },
            DeleteObject { key: "c".into(), version_id: None },
        ],
    };
    let results = || {
        vec![
            Ok(DeleteOutcome {
                version_id: Some("m".into()),
                delete_marker: true,
                delete_marker_version_id: Some("m".into()),
            }),
            Err(S3Error::NoSuchVersion),
            Err(S3Error::NoSuchKey),
        ]
    };

    let versioned = handle_delete_objects(&params(VersioningState::Enabled), &request, results());
    assert_eq!(versioned.deleted.len(), 2);
    assert_eq!(versioned.deleted[0].key, "a");
    assert_eq!(versioned.deleted[0].version_id, Some("m".to_string()));
    assert!(versioned.deleted[0].delete_marker);
    assert_eq!(versioned.deleted[1].key, "c");
    assert_eq!(versioned.deleted[1].version_id, None);
    assert_eq!(versioned.errors.len(), 1);
    assert_eq!(versioned.errors[0].error, S3Error::NoSuchVersion);
    assert_eq!(versioned.errors[0].key, "b");
    assert_eq!(versioned.errors[0].version_id, Some("v".to_string()));

    let plain = handle_delete_objects(&params(VersioningState::Disabled), &request, results());
    assert_eq!(plain.deleted[0].version_id, None);
    assert!(!plain.deleted[0].delete_marker);
    assert_eq!(plain.deleted[0].delete_marker_version_id, None);

    let quiet = DeleteRequest { quiet: true, objects: request.objects };
    let quiet = handle_delete_objects(&params(VersioningState::Enabled), &quiet, results());
    assert!(quiet.deleted.is_empty());
    assert_eq!(quiet.errors.len(), 1);
}

#[test]
fn deleting_a_named_version_needs_no_new_timestamp() {
    let p = params(VersioningState::Enabled);
    let last = ObjectVersion::new(uuid(3), u64::MAX, ObjectVersionKind::Versioned, data_state(5));
    let obj = Object::new(uuid(0x42), "the/key".into(), vec![last]);
    let id = obj.versions()[0].version_id();
    let (written, outcome) =
        handle_delete_internal(&p, Some(&obj), Some(&id), false, false, 100, uuid(9)).unwrap();
    assert_eq!(written.versions().len(), 1);
    assert_eq!(written.versions()[0].timestamp, u64::MAX);
    assert_eq!(written.versions()[0].state, ObjectVersionState::Aborted);
    assert_eq!(outcome.version_id, Some(id));
    assert!(!outcome.delete_marker);
}

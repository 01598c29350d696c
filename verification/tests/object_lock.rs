use garage_versions::bucket_table::{BucketParams, DefaultRetention as BucketDefaultRetention, ObjectLockConfig, RetentionDuration, VersioningState};
use garage_versions::bytes::FixedBytes32;
use garage_versions::lock_xml::{self, LegalHold, ObjectLockConfiguration, Rule};
use garage_versions::object_lock::{
    bypass_governance_retention, check_delete_allowed, create_bucket_object_lock_enabled,
    handle_get_object_legal_hold, handle_get_object_lock_configuration,
    handle_get_object_retention, handle_put_object_legal_hold, handle_put_object_lock_configuration,
    handle_put_object_retention, msec_to_rfc3339, object_lock_from_headers,
    object_lock_response_headers, parse_legal_hold, parse_mode, parse_retain_until_date,
    requested_object_lock_config, requested_retention, ObjectLockSettings,
};
use garage_versions::object_lock_state::{ObjectLockMode, ObjectLockRetention, Retention};
use garage_versions::object_table::{Object, ObjectVersion, ObjectVersionKind, ObjectVersionState};
use garage_versions::s3_error::{BadRequest, Forbidden, S3Error};
use garage_versions::time::Lww;
use garage_versions::version_data::{
    ObjectVersionData, ObjectVersionEncryption, ObjectVersionMeta, ObjectVersionMetaInner,
};

const GOVERNANCE: &str = "GOVERNANCE";

#[test]
fn parse_object_lock_configuration() {
    // <ObjectLockEnabled>Enabled</ObjectLockEnabled> and a default retention
    // of 30 days in compliance mode
    let conf = ObjectLockConfiguration {
        object_lock_enabled: Some("Enabled".into()),
        rule: Some(Rule {
            default_retention: Some(lock_xml::DefaultRetention {
                mode: Some("COMPLIANCE".into()),
                days: Some(30),
                years: None,
            }),
        }),
    };
    assert_eq!(conf.object_lock_enabled.as_deref(), Some("Enabled"));
    let dr = conf.rule.unwrap().default_retention.unwrap();
    let dr = dr.validate().unwrap();
    assert_eq!(dr.mode, ObjectLockMode::Compliance);
    assert_eq!(dr.duration, RetentionDuration::Days(30));
}

#[test]
fn parse_object_lock_configuration_without_rule() {
    let conf = ObjectLockConfiguration { object_lock_enabled: Some("Enabled".into()), rule: None };
    assert_eq!(conf.object_lock_enabled.as_deref(), Some("Enabled"));
    assert_eq!(conf.rule, None);
    // Such a document turns Object Lock on, with no default retention
    let mut params = versioned_params();
    assert_eq!(handle_put_object_lock_configuration(&mut params, &conf, 10), Ok(()));
    assert_eq!(params.object_lock(), Some(ObjectLockConfig { default_retention: None }));
}

#[test]
fn default_retention_requires_exactly_one_duration() {
    let both = lock_xml::DefaultRetention { mode: Some(GOVERNANCE.into()), days: Some(1), years: Some(1) };
    assert!(both.validate().is_err());

    let neither = lock_xml::DefaultRetention { mode: Some(GOVERNANCE.into()), days: None, years: None };
    assert!(neither.validate().is_err());

    let zero = lock_xml::DefaultRetention { mode: Some(GOVERNANCE.into()), days: Some(0), years: None };
    assert!(zero.validate().is_err());
}

#[test]
fn parse_retention_document() {
    let r = lock_xml::Retention {
        mode: Some(GOVERNANCE.into()),
        retain_until_date: Some("2030-01-01T00:00:00.000Z".into()),
    };
    assert_eq!(r.mode.as_deref(), Some(GOVERNANCE));
    assert_eq!(parse_retain_until_date(r.retain_until_date.as_deref().unwrap()).unwrap(), 1_893_456_000_000);
}

#[test]
fn parse_empty_retention_document() {
    let r = lock_xml::Retention { mode: None, retain_until_date: None };
    assert_eq!(r.mode, None);
    assert_eq!(r.retain_until_date, None);
    // An empty document lifts the retention
    assert_eq!(requested_retention(&r, 10), Ok(None));
}

#[test]
fn parse_legal_hold_document() {
    let h = LegalHold { status: "ON".into() };
    assert!(parse_legal_hold(&h.status).unwrap());
}

#[test]
fn retain_until_dates() {
    assert!(parse_retain_until_date("2030-01-01T00:00:00Z").is_ok());
    assert!(parse_retain_until_date("not a date").is_err());
}

// ---- Documents and headers ----

fn versioned_params() -> BucketParams {
    let mut p = BucketParams::new();
    p.versioning = Lww::raw(1, VersioningState::Enabled);
    p
}

fn locked_params() -> BucketParams {
    let mut p = versioned_params();
    p.object_lock = Lww::raw(
        1,
        Some(ObjectLockConfig {
            default_retention: Some(BucketDefaultRetention {
                mode: ObjectLockMode::Governance,
                duration: RetentionDuration::Days(1),
            }),
        }),
    );
    p
}

#[test]
fn modes_dates_and_legal_holds() {
    assert_eq!(parse_mode("GOVERNANCE"), Ok(ObjectLockMode::Governance));
    assert_eq!(parse_mode("COMPLIANCE"), Ok(ObjectLockMode::Compliance));
    assert_eq!(
        parse_mode("governance"),
        Err(S3Error::BadRequest(BadRequest::InvalidObjectLockMode("governance".into())))
    );
    assert_eq!(parse_retain_until_date("2030-01-01T01:00:00+01:00"), Ok(1_893_456_000_000));
    assert_eq!(
        parse_retain_until_date("1969-12-31T23:59:59Z"),
        Err(S3Error::BadRequest(BadRequest::RetainUntilDateOutOfRange))
    );
    assert_eq!(msec_to_rfc3339(1_893_456_000_000), "2030-01-01T00:00:00.000Z");
    assert_eq!(parse_legal_hold("OFF"), Ok(false));
    assert_eq!(
        parse_legal_hold("on"),
        Err(S3Error::BadRequest(BadRequest::InvalidLegalHoldStatus("on".into())))
    );
}

#[test]
fn object_lock_configuration_rules() {
    // Object Lock needs versioning
    let mut plain = BucketParams::new();
    let conf = ObjectLockConfiguration { object_lock_enabled: Some("Enabled".into()), rule: None };
    assert_eq!(handle_put_object_lock_configuration(&mut plain, &conf, 10), Err(S3Error::ObjectLockRequiresVersioning));
    // A document that does not enable it is refused on a bucket without it
    let mut params = versioned_params();
    let silent = ObjectLockConfiguration { object_lock_enabled: None, rule: None };
    assert_eq!(
        handle_put_object_lock_configuration(&mut params, &silent, 10),
        Err(S3Error::BadRequest(BadRequest::ObjectLockNotEnabled))
    );
    assert_eq!(handle_get_object_lock_configuration(&params), Err(S3Error::ObjectLockConfigurationNotFound));
    // The configuration reads back as it was written
    let mut params = locked_params();
    let doc = handle_get_object_lock_configuration(&params).unwrap();
    assert_eq!(doc.object_lock_enabled.as_deref(), Some("Enabled"));
    let dr = doc.rule.unwrap().default_retention.unwrap();
    assert_eq!((dr.mode.as_deref(), dr.days, dr.years), (Some("GOVERNANCE"), Some(1), None));
    assert_eq!(handle_put_object_lock_configuration(&mut params, &silent, 10), Ok(()));
    assert_eq!(params.object_lock(), Some(ObjectLockConfig { default_retention: None }));
}

fn data_version(n: u8) -> ObjectVersion {
    ObjectVersion::new(
        FixedBytes32::from_bytes([n; 32]),
        1000 + n as u64,
        ObjectVersionKind::Versioned,
        ObjectVersionState::Complete(ObjectVersionData::Inline(
            ObjectVersionMeta {
                size: 1,
                etag: "etag".into(),
                encryption: ObjectVersionEncryption::Plaintext {
                    inner: ObjectVersionMetaInner { headers: vec![], checksum: None, checksum_type: None },
                },
            },
            vec![],
        )),
    )
}

#[test]
fn retention_of_a_version() {
    let params = locked_params();
    let obj = Object::new(FixedBytes32::from_bytes([0x42; 32]), "k".into(), vec![data_version(1)]);
    let doc = lock_xml::Retention {
        mode: Some("COMPLIANCE".into()),
        retain_until_date: Some("2030-01-01T00:00:00Z".into()),
    };
    let v = handle_put_object_retention(&params, Some(&obj), None, &doc, false, false, 100).unwrap();
    assert_eq!(
        v.retention.get(),
        Some(&Retention { mode: ObjectLockMode::Compliance, retain_until: 1_893_456_000_000 })
    );
    let back = handle_get_object_retention(&v).unwrap();
    assert_eq!(back.mode.as_deref(), Some("COMPLIANCE"));
    assert_eq!(back.retain_until_date.as_deref(), Some("2030-01-01T00:00:00.000Z"));

    // Compliance mode can never be relaxed
    let obj = Object::new(FixedBytes32::from_bytes([0x42; 32]), "k".into(), vec![v]);
    let empty = lock_xml::Retention { mode: None, retain_until_date: None };
    assert_eq!(
        handle_put_object_retention(&params, Some(&obj), None, &empty, true, true, 100).err(),
        Some(S3Error::Forbidden(Forbidden::ComplianceRetentionChange { retain_until: 1_893_456_000_000 }))
    );
    // A date in the past is refused
    let past = lock_xml::Retention {
        mode: Some("GOVERNANCE".into()),
        retain_until_date: Some("1970-01-01T00:00:00.050Z".into()),
    };
    assert_eq!(
        handle_put_object_retention(&params, Some(&obj), None, &past, false, false, 100).err(),
        Some(S3Error::BadRequest(BadRequest::RetainUntilDateInThePast))
    );
    // Object Lock must be enabled on the bucket
    assert_eq!(
        handle_put_object_retention(&versioned_params(), Some(&obj), None, &doc, false, false, 100).err(),
        Some(S3Error::BadRequest(BadRequest::MissingObjectLockConfiguration))
    );
}

#[test]
fn legal_hold_of_a_version() {
    let params = locked_params();
    let obj = Object::new(FixedBytes32::from_bytes([0x42; 32]), "k".into(), vec![data_version(1)]);
    let on = LegalHold { status: "ON".into() };
    let v = handle_put_object_legal_hold(&params, Some(&obj), None, &on, 100).unwrap().unwrap();
    assert!(*v.legal_hold.get());
    assert_eq!(handle_get_object_legal_hold(&v).status, "ON");
    assert_eq!(check_delete_allowed(&v, true, true, 100), Err(S3Error::Forbidden(Forbidden::LegalHold)));
    assert_eq!(
        object_lock_response_headers(&v),
        vec![("x-amz-object-lock-legal-hold", "ON".to_string())]
    );
}

#[test]
fn object_lock_request_headers() {
    assert!(bypass_governance_retention(Some("TRUE")));
    assert!(!bypass_governance_retention(Some("yes")));
    assert!(!bypass_governance_retention(None));
    assert_eq!(create_bucket_object_lock_enabled(Some("true")), Ok(true));
    assert_eq!(create_bucket_object_lock_enabled(None), Ok(false));
    assert!(create_bucket_object_lock_enabled(Some("maybe")).is_err());
    // Only one of the mode and date headers is refused
    assert_eq!(
        object_lock_from_headers(&locked_params(), Some("GOVERNANCE"), None, None, 100).err(),
        Some(S3Error::BadRequest(BadRequest::IncompleteObjectLockHeaders))
    );
}

fn bad<T>(b: BadRequest) -> Result<T, S3Error> {
    Err(S3Error::BadRequest(b))
}

#[test]
fn errors_of_documents_and_requests() {
    assert_eq!(
        parse_retain_until_date("not a date"),
        bad(BadRequest::InvalidRetainUntilDate("not a date".into()))
    );
    let dr = |mode: Option<&str>, days: Option<u64>, years: Option<u64>| lock_xml::DefaultRetention {
        mode: mode.map(|m| m.to_string()),
        days,
        years,
    };
    assert_eq!(dr(None, Some(1), None).validate(), bad(BadRequest::DefaultRetentionWithoutMode));
    assert_eq!(dr(Some("GOVERNANCE"), Some(1), Some(1)).validate(), bad(BadRequest::DefaultRetentionWithDaysAndYears));
    assert_eq!(dr(Some("GOVERNANCE"), None, None).validate(), bad(BadRequest::DefaultRetentionWithoutDuration));
    assert_eq!(dr(Some("GOVERNANCE"), None, Some(0)).validate(), bad(BadRequest::DefaultRetentionTooShort));
    assert_eq!(
        dr(Some("governance"), Some(1), None).validate(),
        bad(BadRequest::InvalidObjectLockMode("governance".into()))
    );
    assert_eq!(
        dr(Some("COMPLIANCE"), None, Some(2)).validate(),
        Ok(BucketDefaultRetention { mode: ObjectLockMode::Compliance, duration: RetentionDuration::Years(2) })
    );

    let mut params = versioned_params();
    let conf = ObjectLockConfiguration { object_lock_enabled: Some("enabled".into()), rule: None };
    assert_eq!(
        handle_put_object_lock_configuration(&mut params, &conf, 10),
        bad(BadRequest::InvalidObjectLockEnabled("enabled".into()))
    );
    let half = lock_xml::Retention { mode: Some("GOVERNANCE".into()), retain_until_date: None };
    assert_eq!(requested_retention(&half, 10), bad(BadRequest::IncompleteRetention));
    assert_eq!(
        create_bucket_object_lock_enabled(Some("maybe")),
        bad(BadRequest::InvalidObjectLockEnabledHeader("maybe".into()))
    );
}

#[test]
fn errors_about_versions() {
    let params = locked_params();
    let marker = ObjectVersion::new(
        FixedBytes32::from_bytes([2; 32]),
        2000,
        ObjectVersionKind::Versioned,
        ObjectVersionState::Complete(ObjectVersionData::DeleteMarker),
    );
    let obj = Object::new(FixedBytes32::from_bytes([0x42; 32]), "k".into(), vec![data_version(1), marker]);
    let doc = lock_xml::Retention { mode: Some("GOVERNANCE".into()), retain_until_date: Some("2030-01-01T00:00:00Z".into()) };
    // The current version is a delete marker, which holds no data to lock
    assert_eq!(
        handle_put_object_retention(&params, Some(&obj), None, &doc, false, false, 100).err(),
        Some(S3Error::MethodNotAllowed)
    );
    assert_eq!(
        handle_put_object_retention(&params, None, None, &doc, false, false, 100).err(),
        Some(S3Error::NoSuchKey)
    );
    // A version without retention has no retention document
    assert_eq!(handle_get_object_retention(&data_version(1)), Err(S3Error::NoSuchObjectLockConfiguration));

    // Governance retention protects a version from anyone who does not bypass it
    let mut v = data_version(1);
    v.retention.update_at(Some(Retention { mode: ObjectLockMode::Governance, retain_until: 500 }), 10);
    let obj = Object::new(FixedBytes32::from_bytes([0x42; 32]), "k".into(), vec![v.clone()]);
    let empty = lock_xml::Retention { mode: None, retain_until_date: None };
    assert_eq!(
        handle_put_object_retention(&params, Some(&obj), None, &empty, true, false, 100).err(),
        Some(S3Error::Forbidden(Forbidden::GovernanceRetentionChange { retain_until: 500 }))
    );
    assert!(handle_put_object_retention(&params, Some(&obj), None, &empty, true, true, 100).is_ok());

    // Compliance retention protects it from everyone
    v.retention.update_at(Some(Retention { mode: ObjectLockMode::Compliance, retain_until: 500 }), 20);
    assert_eq!(
        check_delete_allowed(&v, true, true, 100),
        Err(S3Error::Forbidden(Forbidden::ComplianceDelete { retain_until: 500 }))
    );
    assert_eq!(check_delete_allowed(&v, false, false, 500), Ok(()));
}

#[test]
fn refusals_leave_saturated_registers_alone() {
    // A bucket whose Object Lock register was written at the last timestamp
    let mut params = locked_params();
    params.object_lock.ts = u64::MAX;
    let before = params.clone();
    let bad = ObjectLockConfiguration { object_lock_enabled: Some("Disabled".into()), rule: None };
    assert_eq!(
        handle_put_object_lock_configuration(&mut params, &bad, 100),
        Err(S3Error::BadRequest(BadRequest::InvalidObjectLockEnabled("Disabled".into())))
    );
    assert_eq!(params, before);
    let good = ObjectLockConfiguration { object_lock_enabled: Some("Enabled".into()), rule: None };
    assert_eq!(
        requested_object_lock_config(&params, &good),
        Ok(ObjectLockConfig { default_retention: None })
    );

    // A version whose retention and legal hold were written at the last
    // timestamp: a refused request or one that changes nothing is fine
    let mut v = data_version(1);
    v.retention = ObjectLockRetention::raw(
        u64::MAX,
        Some(Retention { mode: ObjectLockMode::Compliance, retain_until: 1_000_000 }),
    );
    v.legal_hold = Lww::raw(u64::MAX, false);
    let obj = Object::new(FixedBytes32::from_bytes([0x42; 32]), "k".into(), vec![v]);
    let empty = lock_xml::Retention { mode: None, retain_until_date: None };
    assert_eq!(
        handle_put_object_retention(&params, Some(&obj), None, &empty, true, true, 100).err(),
        Some(S3Error::Forbidden(Forbidden::ComplianceRetentionChange { retain_until: 1_000_000 }))
    );
    let off = LegalHold { status: "OFF".into() };
    assert_eq!(handle_put_object_legal_hold(&params, Some(&obj), None, &off, 100), Ok(None));
}

#[test]
fn settings_of_a_new_version_are_written_now() {
    let settings = ObjectLockSettings {
        retention: Some(Retention { mode: ObjectLockMode::Governance, retain_until: 5000 }),
        legal_hold: true,
    };
    let mut v = data_version(1);
    v.retention = ObjectLockRetention::raw(10, None);
    v.legal_hold = Lww::raw(200, false);
    settings.apply(&mut v, 100);
    assert_eq!(v.retention.ts, 100);
    assert_eq!(v.retention.get(), Some(&Retention { mode: ObjectLockMode::Governance, retain_until: 5000 }));
    assert_eq!(v.legal_hold.ts, 201);
    assert!(*v.legal_hold.get());

    // Nothing to set: a saturated register is left alone
    let mut w = data_version(2);
    w.retention = ObjectLockRetention::raw(u64::MAX, None);
    w.legal_hold = Lww::raw(u64::MAX, false);
    ObjectLockSettings { retention: None, legal_hold: false }.apply(&mut w, 100);
    assert_eq!(w.retention.ts, u64::MAX);
    assert_eq!(w.legal_hold.ts, u64::MAX);
}

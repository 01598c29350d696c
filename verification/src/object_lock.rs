//! Object Lock: bucket configuration, per-version retention and legal holds
//!
//! Object Lock can only be turned on for a bucket that has versioning enabled,
//! and can never be turned off afterwards. It protects individual versions of
//! objects, either through a retention period or through a legal hold:
//!
//! - a version under a legal hold cannot be deleted by anyone until the hold is
//!   lifted;
//! - a version retained in governance mode can only be deleted by a caller that
//!   asks to bypass governance retention and has the `owner` permission on the
//!   bucket;
//! - a version retained in compliance mode cannot be deleted by anyone before
//!   its retain-until date.
use vstd::prelude::*;
use vstd::string::StringSliceAdditionalSpecFns;

use crate::bucket_table::{duration_msec, BucketParams, ObjectLockConfig, VersioningState};
use crate::bytes::{ascii_bytes, eq_ignore_ascii_case, lemma_ascii_bytes, str_eq, str_eq_ignore_ascii_case};
use crate::lock_xml::{self, default_retention_of, writes_default_retention, ObjectLockConfiguration};
use crate::object_lock_state::{protection, DeleteProtection, ObjectLockMode, Retention};
use crate::object_table::{
    is_delete_marker, last_complete, last_with_id, lemma_last_answer, Object, ObjectVersion,
    ObjectView, VersionView,
};
use crate::s3_error::{result_view, BadRequest, BadRequestView, S3Error, ErrorView, Forbidden};
use crate::versioning::enabled_chars;

verus! {

pub const X_AMZ_OBJECT_LOCK_MODE: &'static str = "x-amz-object-lock-mode";

pub const X_AMZ_OBJECT_LOCK_RETAIN_UNTIL_DATE: &'static str = "x-amz-object-lock-retain-until-date";

pub const X_AMZ_OBJECT_LOCK_LEGAL_HOLD: &'static str = "x-amz-object-lock-legal-hold";

pub const X_AMZ_BUCKET_OBJECT_LOCK_ENABLED: &'static str = "x-amz-bucket-object-lock-enabled";

pub const X_AMZ_BYPASS_GOVERNANCE_RETENTION: &'static str = "x-amz-bypass-governance-retention";

pub open spec fn governance_chars() -> Seq<char> {
    seq!['G', 'O', 'V', 'E', 'R', 'N', 'A', 'N', 'C', 'E']
}

pub open spec fn compliance_chars() -> Seq<char> {
    seq!['C', 'O', 'M', 'P', 'L', 'I', 'A', 'N', 'C', 'E']
}

pub open spec fn on_chars() -> Seq<char> {
    seq!['O', 'N']
}

pub open spec fn off_chars() -> Seq<char> {
    seq!['O', 'F', 'F']
}

pub open spec fn true_chars() -> Seq<char> {
    seq!['t', 'r', 'u', 'e']
}

pub open spec fn false_chars() -> Seq<char> {
    seq!['f', 'a', 'l', 's', 'e']
}

// ---- Modes, dates and statuses on the wire ----

/// The name of an Object Lock mode.
pub open spec fn mode_chars(mode: ObjectLockMode) -> Seq<char> {
    match mode {
        ObjectLockMode::Governance => governance_chars(),
        ObjectLockMode::Compliance => compliance_chars(),
    }
}

/// The Object Lock mode that a name stands for.
pub open spec fn mode_of(s: Seq<char>) -> Result<ObjectLockMode, ErrorView> {
    if s == governance_chars() {
        Ok(ObjectLockMode::Governance)
    } else if s == compliance_chars() {
        Ok(ObjectLockMode::Compliance)
    } else {
        Err(ErrorView::BadRequest(BadRequestView::InvalidObjectLockMode(s)))
    }
}

/// Read an Object Lock mode
pub fn parse_mode(mode: &str) -> (r: Result<ObjectLockMode, S3Error>)
    ensures
        result_view(r) == mode_of(mode@),
{
    proof {
        reveal_strlit("GOVERNANCE");
        reveal_strlit("COMPLIANCE");
        assert("GOVERNANCE"@ =~= governance_chars());
        assert("COMPLIANCE"@ =~= compliance_chars());
    }
    if str_eq(mode, "GOVERNANCE") {
        Ok(ObjectLockMode::Governance)
    } else if str_eq(mode, "COMPLIANCE") {
        Ok(ObjectLockMode::Compliance)
    } else {
        Err(S3Error::BadRequest(BadRequest::InvalidObjectLockMode(String::from_str(mode))))
    }
}

/// The name of an Object Lock mode
pub fn mode_str(mode: ObjectLockMode) -> (r: &'static str)
    ensures
        r@ == mode_chars(mode),
{
    proof {
        reveal_strlit("GOVERNANCE");
        reveal_strlit("COMPLIANCE");
    }
    match mode {
        ObjectLockMode::Governance => "GOVERNANCE",
        ObjectLockMode::Compliance => "COMPLIANCE",
    }
}

/// What `chrono::DateTime::parse_from_rfc3339` gives for a string, as
/// milliseconds since the UNIX epoch in UTC.
pub uninterp spec fn rfc3339_utc_millis(date: Seq<char>) -> Option<i64>;

/// `chrono::DateTime::parse_from_rfc3339`, read as
/// `with_timezone(&Utc).timestamp_millis()`. Its result depends on the
/// string alone.
#[verifier::external_body]
fn parse_rfc3339_millis(date: &str) -> (r: Option<i64>)
    ensures
        r == rfc3339_utc_millis(date@),
{
    match chrono::DateTime::parse_from_rfc3339(date) {
        Ok(d) => Some(d.with_timezone(&chrono::Utc).timestamp_millis()),
        Err(_) => None,
    }
}

/// The date, in milliseconds since the UNIX epoch, that a retain-until date
/// stands for: an RFC 3339 date that is not before the epoch.
pub open spec fn retain_until_of(date: Seq<char>) -> Result<u64, ErrorView> {
    match rfc3339_utc_millis(date) {
        None => Err(ErrorView::BadRequest(BadRequestView::InvalidRetainUntilDate(date))),
        Some(ms) => if ms < 0 {
            Err(ErrorView::BadRequest(BadRequestView::RetainUntilDateOutOfRange))
        } else {
            Ok(ms as u64)
        },
    }
}

/// Read a retain-until date
pub fn parse_retain_until_date(date: &str) -> (r: Result<u64, S3Error>)
    ensures
        result_view(r) == retain_until_of(date@),
{
    match parse_rfc3339_millis(date) {
        None => Err(S3Error::BadRequest(BadRequest::InvalidRetainUntilDate(String::from_str(date)))),
        Some(ms) => if ms < 0 {
            Err(S3Error::BadRequest(BadRequest::RetainUntilDateOutOfRange))
        } else {
            Ok(ms as u64)
        },
    }
}

/// Dates before this one, in milliseconds since the UNIX epoch, can be
/// written.
pub const MAX_FORMATTED_MSEC: u64 = 8_210_266_876_800_000;

/// What `chrono::Utc.timestamp_opt(secs, nanos)` written with
/// `to_rfc3339_opts(SecondsFormat::Millis, true)` gives.
pub uninterp spec fn rfc3339_text(secs: i64, nanos: u32) -> Seq<char>;

/// `chrono::Utc.timestamp_opt(secs, nanos)`, written by
/// `to_rfc3339_opts(SecondsFormat::Millis, true)`. The date must be one that
/// chrono represents, so that `timestamp_opt` gives a single date. The text
/// depends on the arguments alone.
#[verifier::external_body]
fn format_rfc3339_millis(secs: i64, nanos: u32) -> (r: String)
    requires
        0 <= secs < MAX_FORMATTED_MSEC / 1000,
        nanos < 1_000_000_000,
    ensures
        r@ == rfc3339_text(secs, nanos),
{
    chrono::TimeZone::timestamp_opt(&chrono::Utc, secs, nanos).unwrap().to_rfc3339_opts(
        chrono::SecondsFormat::Millis,
        true,
    )
}

/// The text of a date in milliseconds since the UNIX epoch.
pub open spec fn date_text(msecs: u64) -> Seq<char> {
    rfc3339_text((msecs / 1000) as i64, ((msecs % 1000) * 1_000_000) as u32)
}

/// An RFC 3339 date, with milliseconds and in UTC, for a date in
/// milliseconds since the UNIX epoch
pub fn msec_to_rfc3339(msecs: u64) -> (r: String)
    requires
        msecs < MAX_FORMATTED_MSEC,
    ensures
        r@ == date_text(msecs),
{
    let secs = (msecs / 1000) as i64;
    let nanos = ((msecs % 1000) * 1_000_000) as u32;
    format_rfc3339_millis(secs, nanos)
}

/// A legal hold status, ON or OFF.
pub open spec fn legal_hold_of(s: Seq<char>) -> Result<bool, ErrorView> {
    if s == on_chars() {
        Ok(true)
    } else if s == off_chars() {
        Ok(false)
    } else {
        Err(ErrorView::BadRequest(BadRequestView::InvalidLegalHoldStatus(s)))
    }
}

/// Read a legal hold status
pub fn parse_legal_hold(status: &str) -> (r: Result<bool, S3Error>)
    ensures
        result_view(r) == legal_hold_of(status@),
{
    proof {
        reveal_strlit("ON");
        reveal_strlit("OFF");
        assert("ON"@ =~= on_chars());
        assert("OFF"@ =~= off_chars());
    }
    if str_eq(status, "ON") {
        Ok(true)
    } else if str_eq(status, "OFF") {
        Ok(false)
    } else {
        Err(S3Error::BadRequest(BadRequest::InvalidLegalHoldStatus(String::from_str(status))))
    }
}

/// The status of a legal hold
pub fn legal_hold_str(legal_hold: bool) -> (r: &'static str)
    ensures
        r@ == if legal_hold {
            on_chars()
        } else {
            off_chars()
        },
{
    proof {
        reveal_strlit("ON");
        reveal_strlit("OFF");
    }
    if legal_hold {
        "ON"
    } else {
        "OFF"
    }
}

// ---- GetObjectLockConfiguration / PutObjectLockConfiguration ----

/// Whether `doc` is the document that describes configuration `config`: it
/// says that Object Lock is enabled, and writes out the default retention,
/// if there is one.
pub open spec fn describes_config(doc: ObjectLockConfiguration, config: ObjectLockConfig) -> bool {
    &&& doc.object_lock_enabled matches Some(e) && e@ == enabled_chars()
    &&& match config.default_retention {
        None => doc.rule is None,
        Some(dr) => doc.rule matches Some(rule) && rule.default_retention matches Some(x)
            && writes_default_retention(x, dr),
    }
}

/// The Object Lock configuration document of a bucket, if it has Object
/// Lock enabled
pub fn handle_get_object_lock_configuration(bucket_params: &BucketParams) -> (r: Result<
    ObjectLockConfiguration,
    S3Error,
>)
    ensures
        match bucket_params.object_lock.v {
            None => r == Err::<ObjectLockConfiguration, S3Error>(S3Error::ObjectLockConfigurationNotFound),
            Some(config) => r matches Ok(doc) && describes_config(doc, config),
        },
{
    let config = match bucket_params.object_lock() {
        Some(c) => c,
        None => {
            return Err(S3Error::ObjectLockConfigurationNotFound);
        },
    };
    proof {
        reveal_strlit("Enabled");
        reveal_strlit("GOVERNANCE");
        reveal_strlit("COMPLIANCE");
        assert("GOVERNANCE"@ =~= governance_chars());
        assert("COMPLIANCE"@ =~= compliance_chars());
    }
    let rule = match config.default_retention {
        Some(r) => Some(lock_xml::Rule { default_retention: Some(lock_xml::DefaultRetention::from_garage(&r)) }),
        None => None,
    };
    let enabled = String::from_str("Enabled");
    assert(enabled@ =~= enabled_chars());
    let doc = ObjectLockConfiguration { object_lock_enabled: Some(enabled), rule };
    assert(describes_config(doc, config));
    Ok(doc)
}

/// What an `ObjectLockConfiguration` document sets on a bucket: it must
/// enable Object Lock, or say nothing about it and only change the default
/// retention of a bucket that already has it enabled; the bucket must have
/// versioning enabled; and its default retention, if any, must be valid.
pub open spec fn object_lock_config_of(
    bucket_params: BucketParams,
    conf: ObjectLockConfiguration,
) -> Result<ObjectLockConfig, ErrorView> {
    let enabled: Result<(), ErrorView> = match conf.object_lock_enabled {
        Some(e) => if e@ == enabled_chars() {
            Ok(())
        } else {
            Err(ErrorView::BadRequest(BadRequestView::InvalidObjectLockEnabled(e@)))
        },
        None => if bucket_params.object_lock.v is Some {
            Ok(())
        } else {
            Err(ErrorView::BadRequest(BadRequestView::ObjectLockNotEnabled))
        },
    };
    match enabled {
        Err(e) => Err(e),
        Ok(_) => if bucket_params.versioning.v != VersioningState::Enabled {
            Err(ErrorView::ObjectLockRequiresVersioning)
        } else {
            match conf.rule {
                Some(rule) => match rule.default_retention {
                    Some(dr) => match default_retention_of(dr) {
                        Ok(d) => Ok(ObjectLockConfig { default_retention: Some(d) }),
                        Err(e) => Err(e),
                    },
                    None => Ok(ObjectLockConfig { default_retention: None }),
                },
                None => Ok(ObjectLockConfig { default_retention: None }),
            }
        },
    }
}

/// The Object Lock configuration that an `ObjectLockConfiguration` document
/// sets on a bucket, or why it is refused.
pub fn requested_object_lock_config(
    bucket_params: &BucketParams,
    conf: &ObjectLockConfiguration,
) -> (r: Result<ObjectLockConfig, S3Error>)
    ensures
        match object_lock_config_of(*bucket_params, *conf) {
            Err(e) => r matches Err(x) && x@ == e,
            Ok(config) => r == Ok::<ObjectLockConfig, S3Error>(config),
        },
{
    proof {
        reveal_strlit("Enabled");
        assert("Enabled"@ =~= enabled_chars());
    }
    match &conf.object_lock_enabled {
        Some(e) => {
            if !str_eq(e.as_str(), "Enabled") {
                return Err(
                    S3Error::BadRequest(BadRequest::InvalidObjectLockEnabled(e.clone())),
                );
            }
        },
        None => {
            if bucket_params.object_lock().is_none() {
                return Err(S3Error::BadRequest(BadRequest::ObjectLockNotEnabled));
            }
        },
    }
    // Object Lock protects versions of objects, so it can only be turned on
    // for a bucket that keeps them.
    if bucket_params.versioning() != VersioningState::Enabled {
        return Err(S3Error::ObjectLockRequiresVersioning);
    }
    let default_retention = match &conf.rule {
        Some(rule) => match &rule.default_retention {
            Some(dr) => match dr.validate() {
                Ok(d) => Some(d),
                Err(e) => {
                    return Err(e);
                },
            },
            None => None,
        },
        None => None,
    };
    Ok(ObjectLockConfig { default_retention })
}

/// Apply an `ObjectLockConfiguration` document to the parameters of a
/// bucket, at `now`. There is no way to turn Object Lock off.
pub fn handle_put_object_lock_configuration(
    bucket_params: &mut BucketParams,
    conf: &ObjectLockConfiguration,
    now: u64,
) -> (r: Result<(), S3Error>)
    requires
        object_lock_config_of(*old(bucket_params), *conf) is Ok ==> old(
            bucket_params,
        ).object_lock.ts < u64::MAX,
    ensures
        match object_lock_config_of(*old(bucket_params), *conf) {
            Err(e) => r matches Err(x) && x@ == e && *final(bucket_params) == *old(bucket_params),
            Ok(config) => {
                &&& r is Ok
                &&& final(bucket_params).object_lock.v == Some(config)
                &&& final(bucket_params).object_lock.ts == if old(bucket_params).object_lock.ts + 1
                    >= now {
                    old(bucket_params).object_lock.ts + 1
                } else {
                    now as int
                }
                &&& final(bucket_params).versioning == old(bucket_params).versioning
                &&& final(bucket_params).lifecycle_config == old(bucket_params).lifecycle_config
                &&& final(bucket_params).creation_date == old(bucket_params).creation_date
            },
        },
{
    let config = match requested_object_lock_config(bucket_params, conf) {
        Ok(c) => c,
        Err(e) => {
            return Err(e);
        },
    };
    bucket_params.object_lock.update_at(Some(config), now);
    Ok(())
}

/// A configuration that a bucket accepted reads back as itself: writing the
/// document that describes it to the same bucket sets the same
/// configuration again.
pub proof fn lemma_object_lock_configuration_round_trip(
    bucket_params: BucketParams,
    conf: ObjectLockConfiguration,
    doc: ObjectLockConfiguration,
)
    requires
        object_lock_config_of(bucket_params, conf) is Ok,
        describes_config(doc, object_lock_config_of(bucket_params, conf)->Ok_0),
    ensures
        object_lock_config_of(bucket_params, doc) == object_lock_config_of(bucket_params, conf),
{
    let config = object_lock_config_of(bucket_params, conf)->Ok_0;
    if let Some(dr) = config.default_retention {
        let x = doc.rule->Some_0.default_retention->Some_0;
        crate::lock_xml::lemma_default_retention_round_trip(x, dr);
    }
}

/// A bucket that has Object Lock keeps its versioning enabled: Object Lock
/// can only be turned on while versioning is enabled, and versioning cannot
/// be suspended while Object Lock is on. Neither request can break this.
pub proof fn lemma_object_lock_keeps_versioning(
    bucket_params: BucketParams,
    conf: ObjectLockConfiguration,
    status: Option<Seq<char>>,
    mfa_delete: Option<Seq<u8>>,
)
    ensures
        object_lock_config_of(bucket_params, conf) is Ok ==> bucket_params.versioning.v
            == VersioningState::Enabled,
        bucket_params.object_lock.v is Some ==> match crate::versioning::versioning_request(
            bucket_params,
            status,
            mfa_delete,
        ) {
            Ok(state) => state == VersioningState::Enabled,
            Err(_) => true,
        },
{
}

// ---- Per-version retention and legal hold ----

/// The version of an object that an Object Lock request refers to: the bucket
/// must have Object Lock; the object must exist; the version is the one with
/// the requested version id, or the current one; and it cannot be a delete
/// marker, which holds no data to lock.
pub open spec fn lock_target(
    bucket_params: BucketParams,
    object: Option<ObjectView>,
    version_id: Option<Seq<char>>,
) -> Result<VersionView, ErrorView> {
    if bucket_params.object_lock.v is None {
        Err(ErrorView::BadRequest(BadRequestView::MissingObjectLockConfiguration))
    } else {
        match object {
            None => Err(ErrorView::NoSuchKey),
            Some(o) => {
                let vid = if bucket_params.versioning.v == VersioningState::Disabled {
                    None
                } else {
                    version_id
                };
                let i = match vid {
                    Some(id) => last_with_id(o.versions, id),
                    None => last_complete(o.versions),
                };
                if i < 0 {
                    if vid is Some {
                        Err(ErrorView::NoSuchVersion)
                    } else {
                        Err(ErrorView::NoSuchKey)
                    }
                } else if is_delete_marker(o.versions[i]) {
                    Err(ErrorView::MethodNotAllowed)
                } else {
                    Ok(o.versions[i])
                }
            },
        }
    }
}

/// The view of an optional object.
pub open spec fn opt_object_view(o: Option<&Object>) -> Option<ObjectView> {
    match o {
        Some(x) => Some(x@),
        None => None,
    }
}

/// The view of an optional string.
pub open spec fn opt_str_view(s: Option<&str>) -> Option<Seq<char>> {
    match s {
        Some(x) => Some(x@),
        None => None,
    }
}

/// Find the version of an object that an Object Lock request refers to;
/// `object` is the object as read from the object table, if it exists.
pub fn lock_target_version(
    bucket_params: &BucketParams,
    object: Option<&Object>,
    version_id: Option<&str>,
) -> (r: Result<ObjectVersion, S3Error>)
    ensures
        match r {
            Ok(v) => lock_target(
                *bucket_params,
                opt_object_view(object),
                opt_str_view(version_id),
            ) == Ok::<VersionView, ErrorView>(v@),
            Err(e) => lock_target(
                *bucket_params,
                opt_object_view(object),
                opt_str_view(version_id),
            ) == Err::<VersionView, ErrorView>(e@),
        },
{
    if bucket_params.object_lock().is_none() {
        return Err(S3Error::BadRequest(BadRequest::MissingObjectLockConfiguration));
    }
    let object = match object {
        Some(o) => o,
        None => {
            return Err(S3Error::NoSuchKey);
        },
    };
    let vid = crate::versioning::requested_version_id(bucket_params, version_id);
    let version = match vid {
        Some(id) => match object.version_by_id(id) {
            Some(v) => v,
            None => {
                return Err(S3Error::NoSuchVersion);
            },
        },
        None => match object.current_version() {
            Some(v) => v,
            None => {
                return Err(S3Error::NoSuchKey);
            },
        },
    };
    // A delete marker holds no data, so it cannot be locked
    if version.is_delete_marker() {
        return Err(S3Error::MethodNotAllowed);
    }
    Ok(version.copy())
}

/// The `Retention` document of a version, if it has a retention
pub fn handle_get_object_retention(version: &ObjectVersion) -> (r: Result<lock_xml::Retention, S3Error>)
    requires
        version.retention.retention matches Some(x) ==> x.retain_until < MAX_FORMATTED_MSEC,
    ensures
        match version.retention.retention {
            None => r == Err::<lock_xml::Retention, S3Error>(S3Error::NoSuchObjectLockConfiguration),
            Some(x) => r matches Ok(doc) && (doc.mode matches Some(m) && m@ == mode_chars(x.mode))
                && (doc.retain_until_date matches Some(d) && d@ == date_text(x.retain_until)),
        },
{
    match version.retention.get() {
        None => Err(S3Error::NoSuchObjectLockConfiguration),
        Some(retention) => Ok(
            lock_xml::Retention {
                mode: Some(String::from_str(mode_str(retention.mode))),
                retain_until_date: Some(msec_to_rfc3339(retention.retain_until)),
            },
        ),
    }
}

/// The retention that a `Retention` document asks for at `now`: none for an
/// empty document, which lifts the retention, and otherwise a mode and a
/// retain-until date in the future.
pub open spec fn requested_retention_of(
    mode: Option<Seq<char>>,
    date: Option<Seq<char>>,
    now: u64,
) -> Result<Option<Retention>, ErrorView> {
    match (mode, date) {
        (None, None) => Ok(None),
        (Some(m), Some(d)) => match retain_until_of(d) {
            Err(e) => Err(e),
            Ok(retain_until) => if retain_until <= now {
                Err(ErrorView::BadRequest(BadRequestView::RetainUntilDateInThePast))
            } else {
                match mode_of(m) {
                    Err(e) => Err(e),
                    Ok(mode) => Ok(Some(Retention { mode, retain_until })),
                }
            },
        },
        _ => Err(ErrorView::BadRequest(BadRequestView::IncompleteRetention)),
    }
}

/// The view of an optional string.
pub open spec fn opt_string_view(s: Option<String>) -> Option<Seq<char>> {
    match s {
        Some(x) => Some(x@),
        None => None,
    }
}

/// Read the retention that a `Retention` document asks for at `now`
pub fn requested_retention(conf: &lock_xml::Retention, now: u64) -> (r: Result<
    Option<Retention>,
    S3Error,
>)
    ensures
        result_view(r) == requested_retention_of(
            opt_string_view(conf.mode),
            opt_string_view(conf.retain_until_date),
            now,
        ),
{
    match (&conf.mode, &conf.retain_until_date) {
        (None, None) => Ok(None),
        (Some(mode), Some(date)) => {
            let retain_until = match parse_retain_until_date(date.as_str()) {
                Ok(d) => d,
                Err(e) => {
                    return Err(e);
                },
            };
            if retain_until <= now {
                return Err(S3Error::BadRequest(BadRequest::RetainUntilDateInThePast));
            }
            match parse_mode(mode.as_str()) {
                Ok(mode) => Ok(Some(Retention { mode, retain_until })),
                Err(e) => Err(e),
            }
        },
        _ => Err(S3Error::BadRequest(BadRequest::IncompleteRetention)),
    }
}

/// Whether a change of the retention setting of a version from `old` to
/// `new` is allowed at `now`
///
/// Making the retention stricter is always allowed. Relaxing it is only
/// allowed while the version is not retained any more, or, for governance
/// mode, by an owner of the bucket that bypasses governance retention. A
/// version retained in compliance mode can never have its retention relaxed.
pub open spec fn retention_change_allowed(
    old: Option<Retention>,
    new: Option<Retention>,
    bypass_governance: bool,
    allow_owner: bool,
    now: u64,
) -> Result<(), ErrorView> {
    match old {
        Some(o) => if o.retain_until > now {
            let relaxing = match new {
                None => true,
                Some(n) => n.retain_until < o.retain_until || (o.mode == ObjectLockMode::Compliance
                    && n.mode == ObjectLockMode::Governance),
            };
            if !relaxing {
                Ok(())
            } else {
                match o.mode {
                    ObjectLockMode::Compliance => Err(
                        ErrorView::Forbidden(
                            Forbidden::ComplianceRetentionChange { retain_until: o.retain_until },
                        ),
                    ),
                    ObjectLockMode::Governance => if bypass_governance && allow_owner {
                        Ok(())
                    } else {
                        Err(
                            ErrorView::Forbidden(
                                Forbidden::GovernanceRetentionChange {
                                    retain_until: o.retain_until,
                                },
                            ),
                        )
                    },
                }
            }
        } else {
            Ok(())
        },
        None => Ok(()),
    }
}

/// Making the retention of a version stricter is always allowed: keeping or
/// raising its mode, with the same or a later retain-until date.
pub proof fn lemma_stricter_retention_is_allowed(
    old: Option<Retention>,
    new: Retention,
    bypass_governance: bool,
    allow_owner: bool,
    now: u64,
)
    requires
        old matches Some(o) ==> new.retain_until >= o.retain_until && (o.mode
            == ObjectLockMode::Compliance ==> new.mode == ObjectLockMode::Compliance),
    ensures
        retention_change_allowed(old, Some(new), bypass_governance, allow_owner, now) is Ok,
{
}

/// A version retained in compliance mode can never have its retention
/// relaxed, whoever asks: it can be neither lifted, shortened nor downgraded
/// to governance mode until its retain-until date.
pub proof fn lemma_compliance_retention_cannot_be_relaxed(
    old: Retention,
    new: Option<Retention>,
    bypass_governance: bool,
    allow_owner: bool,
    now: u64,
)
    requires
        old.mode == ObjectLockMode::Compliance,
        old.retain_until > now,
        match new {
            None => true,
            Some(n) => n.retain_until < old.retain_until || n.mode == ObjectLockMode::Governance,
        },
    ensures
        retention_change_allowed(Some(old), new, bypass_governance, allow_owner, now) is Err,
{
}

/// A retention that is no longer in effect holds nothing back: once its
/// retain-until date is reached, whatever its mode, any new setting,
/// removing it included, is allowed, whoever asks.
pub proof fn lemma_expired_retention_allows_any_change(
    old: Option<Retention>,
    new: Option<Retention>,
    bypass_governance: bool,
    allow_owner: bool,
    now: u64,
)
    requires
        old matches Some(o) ==> o.retain_until <= now,
    ensures
        retention_change_allowed(old, new, bypass_governance, allow_owner, now) is Ok,
{
}

/// A retention in governance mode that is still in effect can be relaxed
/// (lifted or shortened) only by the owner of the bucket asking to bypass
/// it; any other caller is refused, and told until when the version is
/// retained.
pub proof fn lemma_governance_retention_needs_bypass(
    old: Retention,
    new: Option<Retention>,
    bypass_governance: bool,
    allow_owner: bool,
    now: u64,
)
    requires
        old.mode == ObjectLockMode::Governance,
        old.retain_until > now,
        match new {
            None => true,
            Some(n) => n.retain_until < old.retain_until,
        },
    ensures
        retention_change_allowed(Some(old), new, bypass_governance, allow_owner, now) is Ok
            <==> bypass_governance && allow_owner,
        retention_change_allowed(Some(old), new, bypass_governance, allow_owner, now) is Err
            ==> retention_change_allowed(Some(old), new, bypass_governance, allow_owner, now)
            == Err::<(), ErrorView>(
            ErrorView::Forbidden(
                Forbidden::GovernanceRetentionChange { retain_until: old.retain_until },
            ),
        ),
{
}

/// A refused change of retention always names the retention that refuses
/// it: one in effect, whose mode and retain-until date the error gives.
pub proof fn lemma_refused_retention_change_names_it(
    old: Option<Retention>,
    new: Option<Retention>,
    bypass_governance: bool,
    allow_owner: bool,
    now: u64,
)
    ensures
        retention_change_allowed(old, new, bypass_governance, allow_owner, now) matches Err(e)
            ==> (old matches Some(o) && o.retain_until > now && e == match o.mode {
            ObjectLockMode::Compliance => ErrorView::Forbidden(
                Forbidden::ComplianceRetentionChange { retain_until: o.retain_until },
            ),
            ObjectLockMode::Governance => ErrorView::Forbidden(
                Forbidden::GovernanceRetentionChange { retain_until: o.retain_until },
            ),
        }),
{
}

/// Check that a change of the retention setting of a version is allowed;
/// `allow_owner` says whether the caller has the owner permission on the
/// bucket
pub fn check_retention_change(
    version: &ObjectVersion,
    new: Option<Retention>,
    bypass_governance: bool,
    allow_owner: bool,
    now: u64,
) -> (r: Result<(), S3Error>)
    ensures
        result_view(r) == retention_change_allowed(
            version.retention.retention,
            new,
            bypass_governance,
            allow_owner,
            now,
        ),
{
    let old = match version.retention.get() {
        Some(old) => {
            if old.is_active_at(now) {
                *old
            } else {
                // The version is not currently retained, so any new setting is fine
                return Ok(());
            }
        },
        None => {
            return Ok(());
        },
    };
    let relaxing = match new {
        None => true,
        Some(new) => new.retain_until < old.retain_until || (old.mode == ObjectLockMode::Compliance
            && new.mode == ObjectLockMode::Governance),
    };
    if !relaxing {
        return Ok(());
    }
    match old.mode {
        ObjectLockMode::Compliance => Err(
            S3Error::Forbidden(Forbidden::ComplianceRetentionChange { retain_until: old.retain_until }),
        ),
        ObjectLockMode::Governance => {
            if bypass_governance && allow_owner {
                Ok(())
            } else {
                Err(
                    S3Error::Forbidden(
                        Forbidden::GovernanceRetentionChange { retain_until: old.retain_until },
                    ),
                )
            }
        },
    }
}

/// Apply a `PutObjectRetention` request at `now`: the version it refers to,
/// with its new retention, which is then written back.
pub fn handle_put_object_retention(
    bucket_params: &BucketParams,
    object: Option<&Object>,
    version_id: Option<&str>,
    conf: &lock_xml::Retention,
    bypass_governance: bool,
    allow_owner: bool,
    now: u64,
) -> (r: Result<ObjectVersion, S3Error>)
    requires
        requested_retention_of(
            opt_string_view(conf.mode),
            opt_string_view(conf.retain_until_date),
            now,
        ) matches Ok(new) ==> (lock_target(
            *bucket_params,
            opt_object_view(object),
            opt_str_view(version_id),
        ) matches Ok(v) ==> (retention_change_allowed(
            v.retention.retention,
            new,
            bypass_governance,
            allow_owner,
            now,
        ) is Ok ==> v.retention.ts < u64::MAX)),
    ensures
        match requested_retention_of(
            opt_string_view(conf.mode),
            opt_string_view(conf.retain_until_date),
            now,
        ) {
            Err(e) => r matches Err(x) && x@ == e,
            Ok(new) => match lock_target(
                *bucket_params,
                opt_object_view(object),
                opt_str_view(version_id),
            ) {
                Err(e) => r matches Err(x) && x@ == e,
                Ok(v) => match retention_change_allowed(
                    v.retention.retention,
                    new,
                    bypass_governance,
                    allow_owner,
                    now,
                ) {
                    Err(e) => r matches Err(x) && x@ == e,
                    Ok(_) => r matches Ok(nv) && nv@ == (VersionView {
                        retention: crate::object_lock_state::ObjectLockRetention {
                            ts: if v.retention.ts + 1 >= now {
                                (v.retention.ts + 1) as u64
                            } else {
                                now
                            },
                            retention: new,
                        },
                        ..v
                    }),
                },
            },
        },
{
    let new_retention = match requested_retention(conf, now) {
        Ok(x) => x,
        Err(e) => {
            return Err(e);
        },
    };
    let mut version = match lock_target_version(bucket_params, object, version_id) {
        Ok(v) => v,
        Err(e) => {
            return Err(e);
        },
    };
    proof {
        if let Some(o) = object {
            let vid = if bucket_params.versioning.v == VersioningState::Disabled {
                None
            } else {
                opt_str_view(version_id)
            };
            lemma_last_answer(o@.versions, true, vid);
        }
    }
    match check_retention_change(&version, new_retention, bypass_governance, allow_owner, now) {
        Ok(_) => {},
        Err(e) => {
            return Err(e);
        },
    }
    version.retention.update_at(new_retention, now);
    Ok(version)
}

/// Apply a `PutObjectLegalHold` request at `now`: the version it refers to,
/// with its new legal hold, if the hold changes and the version must be
/// written back.
pub fn handle_put_object_legal_hold(
    bucket_params: &BucketParams,
    object: Option<&Object>,
    version_id: Option<&str>,
    conf: &lock_xml::LegalHold,
    now: u64,
) -> (r: Result<Option<ObjectVersion>, S3Error>)
    requires
        legal_hold_of(conf.status@) matches Ok(hold) ==> (lock_target(
            *bucket_params,
            opt_object_view(object),
            opt_str_view(version_id),
        ) matches Ok(v) ==> (v.legal_hold.v != hold ==> v.legal_hold.ts < u64::MAX)),
    ensures
        match legal_hold_of(conf.status@) {
            Err(e) => r matches Err(x) && x@ == e,
            Ok(hold) => match lock_target(
                *bucket_params,
                opt_object_view(object),
                opt_str_view(version_id),
            ) {
                Err(e) => r matches Err(x) && x@ == e,
                Ok(v) => if v.legal_hold.v == hold {
                    r matches Ok(None)
                } else {
                    r matches Ok(Some(nv)) && nv@ == (VersionView {
                        legal_hold: crate::time::Lww {
                            ts: if v.legal_hold.ts + 1 >= now {
                                (v.legal_hold.ts + 1) as u64
                            } else {
                                now
                            },
                            v: hold,
                        },
                        ..v
                    })
                },
            },
        },
{
    let legal_hold = match parse_legal_hold(conf.status.as_str()) {
        Ok(h) => h,
        Err(e) => {
            return Err(e);
        },
    };
    let mut version = match lock_target_version(bucket_params, object, version_id) {
        Ok(v) => v,
        Err(e) => {
            return Err(e);
        },
    };
    proof {
        if let Some(o) = object {
            let vid = if bucket_params.versioning.v == VersioningState::Disabled {
                None
            } else {
                opt_str_view(version_id)
            };
            lemma_last_answer(o@.versions, true, vid);
        }
    }
    if *version.legal_hold.get() != legal_hold {
        version.legal_hold.update_at(legal_hold, now);
        Ok(Some(version))
    } else {
        Ok(None)
    }
}

/// The `LegalHold` document of a version
pub fn handle_get_object_legal_hold(version: &ObjectVersion) -> (r: lock_xml::LegalHold)
    ensures
        r.status@ == if version.legal_hold.v {
            on_chars()
        } else {
            off_chars()
        },
{
    lock_xml::LegalHold { status: String::from_str(legal_hold_str(*version.legal_hold.get())) }
}

// ---- Object Lock settings of newly created versions ----

/// The Object Lock settings that a request asks to apply to the version it
/// creates, or that the bucket applies by default
#[derive(Clone, Copy, Debug, Default, PartialEq, Eq, Structural)]
pub struct ObjectLockSettings {
    pub retention: Option<Retention>,
    pub legal_hold: bool,
}

impl ObjectLockSettings {
    /// Apply these settings, at `now`, to a version that is being created
    pub fn apply(&self, version: &mut ObjectVersion, now: u64)
        requires
            self.retention is Some ==> old(version).retention.ts < u64::MAX,
            self.legal_hold ==> old(version).legal_hold.ts < u64::MAX,
        ensures
            final(version).uuid == old(version).uuid,
            final(version).timestamp == old(version).timestamp,
            final(version)@.state == old(version)@.state,
            final(version).kind == old(version).kind,
            final(version).retention.retention == if self.retention is Some {
                self.retention
            } else {
                old(version).retention.retention
            },
            self.retention is None ==> final(version).retention == old(version).retention,
            self.retention is Some ==> final(version).retention.ts == if old(version).retention.ts
                + 1 >= now {
                old(version).retention.ts + 1
            } else {
                now as int
            },
            final(version).legal_hold.v == (self.legal_hold || old(version).legal_hold.v),
            !self.legal_hold ==> final(version).legal_hold == old(version).legal_hold,
            self.legal_hold ==> final(version).legal_hold.ts == if old(version).legal_hold.ts + 1
                >= now {
                old(version).legal_hold.ts + 1
            } else {
                now as int
            },
    {
        if self.retention.is_some() {
            version.retention.update_at(self.retention, now);
        }
        if self.legal_hold {
            version.legal_hold.update_at(true, now);
        }
    }
}

/// The retention that a version created at `now` gets from the default
/// retention of its bucket.
pub open spec fn default_retention_at(config: ObjectLockConfig, now: u64) -> Option<Retention> {
    match config.default_retention {
        Some(dr) => Some(
            Retention {
                mode: dr.mode,
                retain_until: if now + duration_msec(dr.duration) > u64::MAX {
                    u64::MAX
                } else {
                    (now + duration_msec(dr.duration)) as u64
                },
            },
        ),
        None => None,
    }
}

/// The Object Lock settings that apply to a version created at `now` with
/// these `x-amz-object-lock-*` header values: they are refused on a bucket
/// that does not have Object Lock; mode and retain-until date go together,
/// and the date must be in the future; with neither, the default retention
/// of the bucket applies.
pub open spec fn lock_settings_of(
    bucket_params: BucketParams,
    mode: Option<Seq<char>>,
    retain_until: Option<Seq<char>>,
    legal_hold: Option<Seq<char>>,
    now: u64,
) -> Result<ObjectLockSettings, ErrorView> {
    match bucket_params.object_lock.v {
        None => if mode is Some || retain_until is Some || legal_hold is Some {
            Err(ErrorView::BadRequest(BadRequestView::MissingObjectLockConfiguration))
        } else {
            Ok(ObjectLockSettings { retention: None, legal_hold: false })
        },
        Some(config) => {
            let retention: Result<Option<Retention>, ErrorView> = match (mode, retain_until) {
                (Some(m), Some(d)) => match retain_until_of(d) {
                    Err(e) => Err(e),
                    Ok(ru) => if ru <= now {
                        Err(ErrorView::BadRequest(BadRequestView::RetainUntilDateInThePast))
                    } else {
                        match mode_of(m) {
                            Err(e) => Err(e),
                            Ok(md) => Ok(Some(Retention { mode: md, retain_until: ru })),
                        }
                    },
                },
                (None, None) => Ok(default_retention_at(config, now)),
                _ => Err(ErrorView::BadRequest(BadRequestView::IncompleteObjectLockHeaders)),
            };
            match retention {
                Err(e) => Err(e),
                Ok(ret) => match legal_hold {
                    Some(h) => match legal_hold_of(h) {
                        Err(e) => Err(e),
                        Ok(lh) => Ok(ObjectLockSettings { retention: ret, legal_hold: lh }),
                    },
                    None => Ok(ObjectLockSettings { retention: ret, legal_hold: false }),
                },
            }
        },
    }
}

/// Read the Object Lock settings that apply to a version created at `now`,
/// from the values of its `x-amz-object-lock-mode`,
/// `x-amz-object-lock-retain-until-date` and `x-amz-object-lock-legal-hold`
/// headers and, for whatever they do not specify, from the default retention
/// of the bucket
pub fn object_lock_from_headers(
    bucket_params: &BucketParams,
    mode: Option<&str>,
    retain_until: Option<&str>,
    legal_hold: Option<&str>,
    now: u64,
) -> (r: Result<ObjectLockSettings, S3Error>)
    ensures
        result_view(r) == lock_settings_of(
            *bucket_params,
            opt_str_view(mode),
            opt_str_view(retain_until),
            opt_str_view(legal_hold),
            now,
        ),
{
    let config = match bucket_params.object_lock() {
        Some(config) => config,
        None => {
            if mode.is_some() || retain_until.is_some() || legal_hold.is_some() {
                return Err(S3Error::BadRequest(BadRequest::MissingObjectLockConfiguration));
            }
            return Ok(ObjectLockSettings { retention: None, legal_hold: false });
        },
    };
    let retention = match (mode, retain_until) {
        (Some(mode), Some(date)) => {
            let retain_until = match parse_retain_until_date(date) {
                Ok(d) => d,
                Err(e) => {
                    return Err(e);
                },
            };
            if retain_until <= now {
                return Err(S3Error::BadRequest(BadRequest::RetainUntilDateInThePast));
            }
            match parse_mode(mode) {
                Ok(mode) => Some(Retention { mode, retain_until }),
                Err(e) => {
                    return Err(e);
                },
            }
        },
        (None, None) => match config.default_retention {
            Some(dr) => {
                let d = dr.duration.as_msec();
                let until = match now.checked_add(d) {
                    Some(x) => x,
                    None => u64::MAX,
                };
                Some(Retention { mode: dr.mode, retain_until: until })
            },
            None => None,
        },
        _ => {
            return Err(S3Error::BadRequest(BadRequest::IncompleteObjectLockHeaders));
        },
    };
    let legal_hold = match legal_hold {
        Some(s) => match parse_legal_hold(s) {
            Ok(h) => h,
            Err(e) => {
                return Err(e);
            },
        },
        None => false,
    };
    Ok(ObjectLockSettings { retention, legal_hold })
}

/// Whether the bucket that a `CreateBucket` request creates must have Object
/// Lock enabled, from the value of its `x-amz-bucket-object-lock-enabled`
/// header: true or false, in any case.
pub fn create_bucket_object_lock_enabled(value: Option<&str>) -> (r: Result<bool, S3Error>)
    ensures
        match value {
            None => r == Ok::<bool, S3Error>(false),
            Some(v) => if eq_ignore_ascii_case(v.spec_bytes(), ascii_bytes(true_chars())) {
                r == Ok::<bool, S3Error>(true)
            } else if eq_ignore_ascii_case(v.spec_bytes(), ascii_bytes(false_chars())) {
                r == Ok::<bool, S3Error>(false)
            } else {
                r matches Err(e) && e@ == ErrorView::BadRequest(
                    BadRequestView::InvalidObjectLockEnabledHeader(v@),
                )
            },
        },
{
    proof {
        reveal_strlit("true");
        reveal_strlit("false");
        assert("true"@ =~= true_chars());
        assert("false"@ =~= false_chars());
        lemma_ascii_bytes("true", true_chars());
        lemma_ascii_bytes("false", false_chars());
    }
    match value {
        None => Ok(false),
        Some(v) => {
            if str_eq_ignore_ascii_case(v, "true") {
                Ok(true)
            } else if str_eq_ignore_ascii_case(v, "false") {
                Ok(false)
            } else {
                Err(S3Error::BadRequest(BadRequest::InvalidObjectLockEnabledHeader(String::from_str(v))))
            }
        },
    }
}

// ---- Enforcement ----

/// Whether a request asks to bypass governance-mode retention, from the
/// value of its `x-amz-bypass-governance-retention` header, if it has one
/// that is visible ASCII: true, in any case.
pub fn bypass_governance_retention(value: Option<&str>) -> (r: bool)
    ensures
        r == (value matches Some(v) && eq_ignore_ascii_case(v.spec_bytes(), ascii_bytes(true_chars()))),
{
    proof {
        reveal_strlit("true");
        assert("true"@ =~= true_chars());
        lemma_ascii_bytes("true", true_chars());
    }
    match value {
        Some(v) => str_eq_ignore_ascii_case(v, "true"),
        None => false,
    }
}

/// Whether Object Lock allows a version to be permanently deleted at `now`:
/// never under a legal hold nor under a compliance retention, and under a
/// governance retention only by an owner of the bucket that bypasses it.
pub open spec fn delete_allowed(
    protection: DeleteProtection,
    bypass_governance: bool,
    allow_owner: bool,
) -> Result<(), ErrorView> {
    match protection {
        DeleteProtection::Unprotected => Ok(()),
        DeleteProtection::LegalHold => Err(ErrorView::Forbidden(Forbidden::LegalHold)),
        DeleteProtection::Compliance { retain_until } => Err(
            ErrorView::Forbidden(Forbidden::ComplianceDelete { retain_until }),
        ),
        DeleteProtection::Governance { retain_until } => if bypass_governance && allow_owner {
            Ok(())
        } else {
            Err(ErrorView::Forbidden(Forbidden::GovernanceDelete { retain_until }))
        },
    }
}

/// Check that Object Lock allows a version to be permanently deleted at
/// `now`; `allow_owner` says whether the caller has the owner permission on
/// the bucket
pub fn check_delete_allowed(
    version: &ObjectVersion,
    bypass_governance: bool,
    allow_owner: bool,
    now: u64,
) -> (r: Result<(), S3Error>)
    ensures
        result_view(r) == delete_allowed(
            protection(version.legal_hold.v, version.retention.retention, now),
            bypass_governance,
            allow_owner,
        ),
{
    match version.delete_protection(now) {
        DeleteProtection::Unprotected => Ok(()),
        DeleteProtection::LegalHold => Err(S3Error::Forbidden(Forbidden::LegalHold)),
        DeleteProtection::Compliance { retain_until } => Err(
            S3Error::Forbidden(Forbidden::ComplianceDelete { retain_until }),
        ),
        DeleteProtection::Governance { retain_until } => {
            if bypass_governance && allow_owner {
                Ok(())
            } else {
                Err(S3Error::Forbidden(Forbidden::GovernanceDelete { retain_until }))
            }
        },
    }
}

/// The `x-amz-object-lock-*` headers that describe the lock settings of a
/// version in a response: its mode and retain-until date if it has a
/// retention, and its legal hold if it has one.
pub fn object_lock_response_headers(version: &ObjectVersion) -> (r: Vec<(&'static str, String)>)
    requires
        version.retention.retention matches Some(x) ==> x.retain_until < MAX_FORMATTED_MSEC,
    ensures
        r@.len() == (if version.retention.retention is Some {
            2int
        } else {
            0
        }) + (if version.legal_hold.v {
            1int
        } else {
            0
        }),
        version.retention.retention matches Some(x) ==> r@[0].0 == X_AMZ_OBJECT_LOCK_MODE
            && r@[0].1@ == mode_chars(x.mode) && r@[1].0 == X_AMZ_OBJECT_LOCK_RETAIN_UNTIL_DATE
            && r@[1].1@ == date_text(x.retain_until),
        version.legal_hold.v ==> r@.last().0 == X_AMZ_OBJECT_LOCK_LEGAL_HOLD && r@.last().1@
            == on_chars(),
{
    let mut headers: Vec<(&'static str, String)> = Vec::new();
    if let Some(retention) = version.retention.get() {
        headers.push((X_AMZ_OBJECT_LOCK_MODE, String::from_str(mode_str(retention.mode))));
        headers.push(
            (X_AMZ_OBJECT_LOCK_RETAIN_UNTIL_DATE, msec_to_rfc3339(retention.retain_until)),
        );
    }
    if *version.legal_hold.get() {
        proof {
            reveal_strlit("ON");
        }
        headers.push((X_AMZ_OBJECT_LOCK_LEGAL_HOLD, String::from_str("ON")));
    }
    headers
}

} // verus!

//! The errors that the S3 endpoints of versioning, Object Lock and deletion
//! answer.
use vstd::prelude::*;

verus! {

/// Why a request is refused as invalid
#[derive(Clone, Debug, PartialEq, Eq)]
pub enum BadRequest {
    /// An Object Lock mode other than GOVERNANCE or COMPLIANCE
    InvalidObjectLockMode(String),
    /// A retain-until date that is not an RFC 3339 date
    InvalidRetainUntilDate(String),
    /// A retain-until date before the UNIX epoch
    RetainUntilDateOutOfRange,
    /// A retain-until date that is not in the future
    RetainUntilDateInThePast,
    /// A `DefaultRetention` without `Mode`
    DefaultRetentionWithoutMode,
    /// A `DefaultRetention` with both `Days` and `Years`
    DefaultRetentionWithDaysAndYears,
    /// A `DefaultRetention` with neither `Days` nor `Years`
    DefaultRetentionWithoutDuration,
    /// A `DefaultRetention` of zero days or years
    DefaultRetentionTooShort,
    /// An `ObjectLockEnabled` value other than `Enabled`
    InvalidObjectLockEnabled(String),
    /// A configuration that does not enable Object Lock on a bucket that does
    /// not have it
    ObjectLockNotEnabled,
    /// A request about Object Lock on a bucket that does not have it
    MissingObjectLockConfiguration,
    /// A `Retention` document with only one of `Mode` and `RetainUntilDate`
    IncompleteRetention,
    /// A legal hold status other than ON or OFF
    InvalidLegalHoldStatus(String),
    /// Only one of the Object Lock mode and retain-until date headers
    IncompleteObjectLockHeaders,
    /// An `x-amz-bucket-object-lock-enabled` header other than true or false
    InvalidObjectLockEnabledHeader(String),
    /// A versioning status other than Enabled or Suspended
    InvalidVersioningStatus,
    /// A request to suspend the versioning of a bucket that has Object Lock
    CannotSuspendVersioning,
    /// A `Delete` document that cannot be read
    InvalidDeleteXml,
}

/// Why a request is denied
#[derive(Clone, Copy, Debug, PartialEq, Eq, Structural)]
pub enum Forbidden {
    /// The version is under a legal hold
    LegalHold,
    /// The version is retained in compliance mode until this date
    ComplianceDelete { retain_until: u64 },
    /// The version is retained in governance mode until this date
    GovernanceDelete { retain_until: u64 },
    /// The retention of the version, in compliance mode until this date, can
    /// be neither shortened nor lifted
    ComplianceRetentionChange { retain_until: u64 },
    /// The retention of the version, in governance mode until this date, can
    /// only be shortened or lifted by an owner that bypasses it
    GovernanceRetentionChange { retain_until: u64 },
}

/// An error of an S3 request
#[derive(Clone, Debug, PartialEq, Eq)]
pub enum S3Error {
    BadRequest(BadRequest),
    Forbidden(Forbidden),
    /// The object does not exist
    NoSuchKey,
    /// The version does not exist
    NoSuchVersion,
    /// The request does not apply to this version
    MethodNotAllowed,
    /// The bucket has no Object Lock configuration
    ObjectLockConfigurationNotFound,
    /// The version has no retention
    NoSuchObjectLockConfiguration,
    /// Object Lock cannot be turned on for a bucket whose versioning is not
    /// enabled
    ObjectLockRequiresVersioning,
    /// MFA delete is not supported
    MfaDeleteNotImplemented,
    /// The body of the request is not an XML document; the message says why
    InvalidXml(String),
}


/// The mathematical value of a `BadRequest`: strings as sequences of
/// characters.
pub enum BadRequestView {
    InvalidObjectLockMode(Seq<char>),
    InvalidRetainUntilDate(Seq<char>),
    RetainUntilDateOutOfRange,
    RetainUntilDateInThePast,
    DefaultRetentionWithoutMode,
    DefaultRetentionWithDaysAndYears,
    DefaultRetentionWithoutDuration,
    DefaultRetentionTooShort,
    InvalidObjectLockEnabled(Seq<char>),
    ObjectLockNotEnabled,
    MissingObjectLockConfiguration,
    IncompleteRetention,
    InvalidLegalHoldStatus(Seq<char>),
    IncompleteObjectLockHeaders,
    InvalidObjectLockEnabledHeader(Seq<char>),
    InvalidVersioningStatus,
    CannotSuspendVersioning,
    InvalidDeleteXml,
}

/// The mathematical value of an `S3Error`.
pub enum ErrorView {
    BadRequest(BadRequestView),
    Forbidden(Forbidden),
    NoSuchKey,
    NoSuchVersion,
    MethodNotAllowed,
    ObjectLockConfigurationNotFound,
    NoSuchObjectLockConfiguration,
    ObjectLockRequiresVersioning,
    MfaDeleteNotImplemented,
    InvalidXml(Seq<char>),
}

impl View for BadRequest {
    type V = BadRequestView;

    open spec fn view(&self) -> BadRequestView {
        match self {
            BadRequest::InvalidObjectLockMode(s) => BadRequestView::InvalidObjectLockMode(s@),
            BadRequest::InvalidRetainUntilDate(s) => BadRequestView::InvalidRetainUntilDate(s@),
            BadRequest::RetainUntilDateOutOfRange => BadRequestView::RetainUntilDateOutOfRange,
            BadRequest::RetainUntilDateInThePast => BadRequestView::RetainUntilDateInThePast,
            BadRequest::DefaultRetentionWithoutMode => BadRequestView::DefaultRetentionWithoutMode,
            BadRequest::DefaultRetentionWithDaysAndYears => BadRequestView::DefaultRetentionWithDaysAndYears,
            BadRequest::DefaultRetentionWithoutDuration => BadRequestView::DefaultRetentionWithoutDuration,
            BadRequest::DefaultRetentionTooShort => BadRequestView::DefaultRetentionTooShort,
            BadRequest::InvalidObjectLockEnabled(s) => BadRequestView::InvalidObjectLockEnabled(s@),
            BadRequest::ObjectLockNotEnabled => BadRequestView::ObjectLockNotEnabled,
            BadRequest::MissingObjectLockConfiguration => BadRequestView::MissingObjectLockConfiguration,
            BadRequest::IncompleteRetention => BadRequestView::IncompleteRetention,
            BadRequest::InvalidLegalHoldStatus(s) => BadRequestView::InvalidLegalHoldStatus(s@),
            BadRequest::IncompleteObjectLockHeaders => BadRequestView::IncompleteObjectLockHeaders,
            BadRequest::InvalidObjectLockEnabledHeader(s) => BadRequestView::InvalidObjectLockEnabledHeader(s@),
            BadRequest::InvalidVersioningStatus => BadRequestView::InvalidVersioningStatus,
            BadRequest::CannotSuspendVersioning => BadRequestView::CannotSuspendVersioning,
            BadRequest::InvalidDeleteXml => BadRequestView::InvalidDeleteXml,
        }
    }
}

impl View for S3Error {
    type V = ErrorView;

    open spec fn view(&self) -> ErrorView {
        match self {
            S3Error::BadRequest(b) => ErrorView::BadRequest(b@),
            S3Error::Forbidden(f) => ErrorView::Forbidden(*f),
            S3Error::NoSuchKey => ErrorView::NoSuchKey,
            S3Error::NoSuchVersion => ErrorView::NoSuchVersion,
            S3Error::MethodNotAllowed => ErrorView::MethodNotAllowed,
            S3Error::ObjectLockConfigurationNotFound => ErrorView::ObjectLockConfigurationNotFound,
            S3Error::NoSuchObjectLockConfiguration => ErrorView::NoSuchObjectLockConfiguration,
            S3Error::ObjectLockRequiresVersioning => ErrorView::ObjectLockRequiresVersioning,
            S3Error::MfaDeleteNotImplemented => ErrorView::MfaDeleteNotImplemented,
            S3Error::InvalidXml(m) => ErrorView::InvalidXml(m@),
        }
    }
}

impl BadRequest {
    /// A copy of this reason.
    pub fn copy(&self) -> (r: Self)
        ensures
            r@ == self@,
    {
        match self {
            BadRequest::InvalidObjectLockMode(s) => BadRequest::InvalidObjectLockMode(s.clone()),
            BadRequest::InvalidRetainUntilDate(s) => BadRequest::InvalidRetainUntilDate(s.clone()),
            BadRequest::RetainUntilDateOutOfRange => BadRequest::RetainUntilDateOutOfRange,
            BadRequest::RetainUntilDateInThePast => BadRequest::RetainUntilDateInThePast,
            BadRequest::DefaultRetentionWithoutMode => BadRequest::DefaultRetentionWithoutMode,
            BadRequest::DefaultRetentionWithDaysAndYears => BadRequest::DefaultRetentionWithDaysAndYears,
            BadRequest::DefaultRetentionWithoutDuration => BadRequest::DefaultRetentionWithoutDuration,
            BadRequest::DefaultRetentionTooShort => BadRequest::DefaultRetentionTooShort,
            BadRequest::InvalidObjectLockEnabled(s) => BadRequest::InvalidObjectLockEnabled(s.clone()),
            BadRequest::ObjectLockNotEnabled => BadRequest::ObjectLockNotEnabled,
            BadRequest::MissingObjectLockConfiguration => BadRequest::MissingObjectLockConfiguration,
            BadRequest::IncompleteRetention => BadRequest::IncompleteRetention,
            BadRequest::InvalidLegalHoldStatus(s) => BadRequest::InvalidLegalHoldStatus(s.clone()),
            BadRequest::IncompleteObjectLockHeaders => BadRequest::IncompleteObjectLockHeaders,
            BadRequest::InvalidObjectLockEnabledHeader(s) => BadRequest::InvalidObjectLockEnabledHeader(s.clone()),
            BadRequest::InvalidVersioningStatus => BadRequest::InvalidVersioningStatus,
            BadRequest::CannotSuspendVersioning => BadRequest::CannotSuspendVersioning,
            BadRequest::InvalidDeleteXml => BadRequest::InvalidDeleteXml,
        }
    }
}

impl S3Error {
    /// A copy of this error.
    pub fn copy(&self) -> (r: Self)
        ensures
            r@ == self@,
    {
        match self {
            S3Error::BadRequest(b) => S3Error::BadRequest(b.copy()),
            S3Error::Forbidden(f) => S3Error::Forbidden(*f),
            S3Error::NoSuchKey => S3Error::NoSuchKey,
            S3Error::NoSuchVersion => S3Error::NoSuchVersion,
            S3Error::MethodNotAllowed => S3Error::MethodNotAllowed,
            S3Error::ObjectLockConfigurationNotFound => S3Error::ObjectLockConfigurationNotFound,
            S3Error::NoSuchObjectLockConfiguration => S3Error::NoSuchObjectLockConfiguration,
            S3Error::ObjectLockRequiresVersioning => S3Error::ObjectLockRequiresVersioning,
            S3Error::MfaDeleteNotImplemented => S3Error::MfaDeleteNotImplemented,
            S3Error::InvalidXml(m) => S3Error::InvalidXml(m.clone()),
        }
    }
}

/// A result, its error taken by its view.
pub open spec fn result_view<T>(r: Result<T, S3Error>) -> Result<T, ErrorView> {
    match r {
        Ok(x) => Ok(x),
        Err(e) => Err(e@),
    }
}

} // verus!

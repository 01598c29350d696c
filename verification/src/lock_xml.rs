//! The XML documents of the Object Lock endpoints, as plain values.
use vstd::prelude::*;

use crate::bucket_table::{DefaultRetention as BucketDefaultRetention, RetentionDuration};
use crate::object_lock::{compliance_chars, governance_chars, mode_chars, mode_of, mode_str, parse_mode};
use crate::object_lock_state::ObjectLockMode;
use crate::s3_error::{BadRequest, BadRequestView, S3Error, ErrorView, result_view};

verus! {

/// An `ObjectLockConfiguration` document
#[derive(Clone, Debug, PartialEq, Eq)]
pub struct ObjectLockConfiguration {
    pub object_lock_enabled: Option<String>,
    pub rule: Option<Rule>,
}

/// The `Rule` of an `ObjectLockConfiguration` document
#[derive(Clone, Debug, PartialEq, Eq)]
pub struct Rule {
    pub default_retention: Option<DefaultRetention>,
}

/// The `DefaultRetention` of an Object Lock `Rule`
#[derive(Clone, Debug, PartialEq, Eq)]
pub struct DefaultRetention {
    pub mode: Option<String>,
    pub days: Option<u64>,
    pub years: Option<u64>,
}

/// A `Retention` document
#[derive(Clone, Debug, PartialEq, Eq)]
pub struct Retention {
    pub mode: Option<String>,
    pub retain_until_date: Option<String>,
}

/// A `LegalHold` document
#[derive(Clone, Debug, PartialEq, Eq)]
pub struct LegalHold {
    pub status: String,
}

/// The default retention that a `DefaultRetention` element stands for: it
/// needs a valid mode, and exactly one of a number of days or of years,
/// which cannot be zero.
pub open spec fn default_retention_of(d: DefaultRetention) -> Result<BucketDefaultRetention, ErrorView> {
    match d.mode {
        None => Err(ErrorView::BadRequest(BadRequestView::DefaultRetentionWithoutMode)),
        Some(m) => match mode_of(m@) {
            Err(e) => Err(e),
            Ok(mode) => match (d.days, d.years) {
                (Some(_), Some(_)) => Err(
                    ErrorView::BadRequest(BadRequestView::DefaultRetentionWithDaysAndYears),
                ),
                (None, None) => Err(
                    ErrorView::BadRequest(BadRequestView::DefaultRetentionWithoutDuration),
                ),
                (Some(days), None) => if days == 0 {
                    Err(ErrorView::BadRequest(BadRequestView::DefaultRetentionTooShort))
                } else {
                    Ok(BucketDefaultRetention { mode, duration: RetentionDuration::Days(days) })
                },
                (None, Some(years)) => if years == 0 {
                    Err(ErrorView::BadRequest(BadRequestView::DefaultRetentionTooShort))
                } else {
                    Ok(BucketDefaultRetention { mode, duration: RetentionDuration::Years(years) })
                },
            },
        },
    }
}

/// Whether element `x` writes default retention `dr` out as it is.
pub open spec fn writes_default_retention(x: DefaultRetention, dr: BucketDefaultRetention) -> bool {
    &&& x.mode matches Some(m) && m@ == mode_chars(dr.mode)
    &&& match dr.duration {
        RetentionDuration::Days(d) => x.days == Some(d) && x.years is None,
        RetentionDuration::Years(y) => x.days is None && x.years == Some(y),
    }
}

/// Reading back the element that writes out a default retention gives that
/// default retention, whenever its duration is not zero.
pub proof fn lemma_default_retention_round_trip(x: DefaultRetention, dr: BucketDefaultRetention)
    requires
        writes_default_retention(x, dr),
        !(dr.duration matches RetentionDuration::Days(d) && d == 0),
        !(dr.duration matches RetentionDuration::Years(y) && y == 0),
    ensures
        default_retention_of(x) == Ok::<_, ErrorView>(dr),
{
    assert(governance_chars() != compliance_chars()) by {
        assert(governance_chars()[0] != compliance_chars()[0]);
    }
}

impl DefaultRetention {
    /// The default retention that this element stands for
    pub fn validate(&self) -> (r: Result<BucketDefaultRetention, S3Error>)
        ensures
            result_view(r) == default_retention_of(*self),
    {
        let mode = match &self.mode {
            Some(m) => match parse_mode(m.as_str()) {
                Ok(mode) => mode,
                Err(e) => {
                    return Err(e);
                },
            },
            None => {
                return Err(S3Error::BadRequest(BadRequest::DefaultRetentionWithoutMode));
            },
        };
        let duration = match (self.days, self.years) {
            (Some(_), Some(_)) => {
                return Err(S3Error::BadRequest(BadRequest::DefaultRetentionWithDaysAndYears));
            },
            (Some(days), None) => RetentionDuration::Days(days),
            (None, Some(years)) => RetentionDuration::Years(years),
            (None, None) => {
                return Err(S3Error::BadRequest(BadRequest::DefaultRetentionWithoutDuration));
            },
        };
        match duration {
            RetentionDuration::Days(0) | RetentionDuration::Years(0) => {
                return Err(S3Error::BadRequest(BadRequest::DefaultRetentionTooShort));
            },
            _ => {},
        }
        Ok(BucketDefaultRetention { mode, duration })
    }

    /// The element that stands for a default retention
    pub fn from_garage(retention: &BucketDefaultRetention) -> (r: Self)
        ensures
            writes_default_retention(r, *retention),
    {
        let (days, years) = match retention.duration {
            RetentionDuration::Days(d) => (Some(d), None),
            RetentionDuration::Years(y) => (None, Some(y)),
        };
        DefaultRetention { mode: Some(String::from_str(mode_str(retention.mode))), days, years }
    }
}

} // verus!

//! Bucket configuration: versioning state, Object Lock configuration and
//! lifecycle rules.
use vstd::prelude::*;

use crate::bucket_formats::v2;
use crate::bytes::Uuid;
use crate::object_lock_state::ObjectLockMode;
use crate::time::{now_msec, Lww};
use chrono::{Datelike, Timelike};

verus! {

/// The versioning state of a bucket
///
/// Once versioning has been enabled on a bucket, it can never go back to
/// `Disabled`: it can only be `Suspended`, which stops the creation of new
/// versions but keeps the versions that already exist.
#[derive(Clone, Copy, Debug, PartialEq, Eq, Structural)]
pub enum VersioningState {
    /// Versioning was never enabled on this bucket: objects have no version
    /// id and writing an object overwrites the previous one
    Disabled,
    /// Each write creates a new version of the object, and versions are kept
    /// until they are explicitly deleted
    Enabled,
    /// Versioning was enabled and then suspended: versions that were created
    /// while it was enabled are kept, but new writes overwrite the object's
    /// `null` version
    Suspended,
}

impl Default for VersioningState {
    fn default() -> (r: Self)
        ensures
            r == VersioningState::Disabled,
    {
        VersioningState::Disabled
    }
}

/// How long a new object version is retained under the bucket's default
/// Object Lock retention settings
#[derive(Clone, Copy, Debug, PartialEq, Eq, Structural)]
pub enum RetentionDuration {
    Days(u64),
    Years(u64),
}

/// The number of milliseconds in a day.
pub const DAY_MSEC: u64 = 86_400_000;

/// `x * y`, or `u64::MAX` if it does not fit.
pub open spec fn saturating_mul(x: int, y: int) -> int {
    if x * y > u64::MAX {
        u64::MAX as int
    } else {
        x * y
    }
}

/// The number of milliseconds a retention duration stands for, a year being
/// 365 days, and `u64::MAX` for a duration that does not fit.
pub open spec fn duration_msec(d: RetentionDuration) -> int {
    match d {
        RetentionDuration::Days(days) => saturating_mul(days as int, DAY_MSEC as int),
        RetentionDuration::Years(years) => saturating_mul(
            saturating_mul(years as int, 365),
            DAY_MSEC as int,
        ),
    }
}

/// `x * y`, saturating at `u64::MAX`.
fn mul_saturating(x: u64, y: u64) -> (r: u64)
    ensures
        r == saturating_mul(x as int, y as int),
{
    match x.checked_mul(y) {
        Some(p) => p,
        None => u64::MAX,
    }
}

impl RetentionDuration {
    /// The number of milliseconds this duration represents.
    ///
    /// As in AWS S3, a year is counted as 365 days.
    pub fn as_msec(&self) -> (r: u64)
        ensures
            r == duration_msec(*self),
    {
        match self {
            RetentionDuration::Days(d) => mul_saturating(*d, DAY_MSEC),
            RetentionDuration::Years(y) => mul_saturating(mul_saturating(*y, 365), DAY_MSEC),
        }
    }
}

/// Default Object Lock retention settings of a bucket
#[derive(Clone, Copy, Debug, PartialEq, Eq, Structural)]
pub struct DefaultRetention {
    pub mode: ObjectLockMode,
    pub duration: RetentionDuration,
}

/// Object Lock configuration of a bucket
///
/// Object Lock can never be turned off once it is on, and a bucket that has
/// it enabled always has versioning enabled as well.
#[derive(Clone, Copy, Debug, PartialEq, Eq, Structural)]
pub struct ObjectLockConfig {
    /// Retention settings applied to new object versions when the request
    /// that creates them does not specify any
    pub default_retention: Option<DefaultRetention>,
}

/// A lifecycle filter is a set of conditions that must all be true. For each
/// condition, if it is None, it is not verified (always true), and if it is
/// Some(x), then it is verified for value x
#[derive(Clone, Debug, PartialEq, Eq, Default)]
pub struct LifecycleFilter {
    /// If Some(x), object key has to start with prefix x
    pub prefix: Option<String>,
    /// If Some(x), object size has to be more than x
    pub size_gt: Option<u64>,
    /// If Some(x), object size has to be less than x
    pub size_lt: Option<u64>,
}

#[derive(Clone, Debug, PartialEq, Eq)]
pub enum LifecycleExpiration {
    /// Objects expire x days after they were created
    AfterDays(usize),
    /// Objects expire at date x (must be in yyyy-mm-dd format)
    AtDate(String),
}

/// Expiration policy for the versions of an object that are not its current
/// version any more
///
/// A version becomes noncurrent when a newer version of the object is
/// written, and is permanently deleted `noncurrent_days` days after that.
#[derive(Clone, Copy, Debug, PartialEq, Eq, Structural)]
pub struct NoncurrentVersionExpiration {
    /// Number of days after a version stopped being the current one after
    /// which it is permanently deleted
    pub noncurrent_days: usize,
    /// If set, that many of the most recent noncurrent versions are kept
    /// whatever their age
    pub newer_noncurrent_versions: Option<usize>,
}

/// Lifecycle configuration rule
#[derive(Clone, Debug, PartialEq, Eq)]
pub struct LifecycleRule {
    /// The ID of the rule
    pub id: Option<String>,
    /// Whether the rule is active
    pub enabled: bool,
    /// The filter to check whether rule applies to a given object
    pub filter: LifecycleFilter,
    /// Number of days after which incomplete multipart uploads are aborted
    pub abort_incomplete_mpu_days: Option<usize>,
    /// Expiration policy for the current version of stored objects
    pub expiration: Option<LifecycleExpiration>,
    /// Expiration policy for the versions of an object that are not its
    /// current version any more
    pub noncurrent_version_expiration: Option<NoncurrentVersionExpiration>,
}

/// Configuration for a bucket: what the versioning, Object Lock and
/// lifecycle logic reads of it
#[derive(Clone, Debug, PartialEq, Eq)]
pub struct BucketParams {
    /// Bucket's creation date
    pub creation_date: u64,
    /// Lifecycle configuration
    pub lifecycle_config: Option<Vec<LifecycleRule>>,
    /// Whether object versioning is enabled on this bucket
    pub versioning: Lww<VersioningState>,
    /// Object Lock configuration, if Object Lock is enabled on this bucket
    pub object_lock: Lww<Option<ObjectLockConfig>>,
}

impl BucketParams {
    /// Parameters of a bucket created now: no lifecycle rule, versioning
    /// never enabled, no Object Lock
    pub fn new() -> (r: Self)
        ensures
            r.lifecycle_config is None,
            r.versioning.v == VersioningState::Disabled,
            r.object_lock.v is None,
    {
        BucketParams {
            creation_date: now_msec(),
            lifecycle_config: None,
            versioning: Lww::new(VersioningState::Disabled),
            object_lock: Lww::new(None),
        }
    }

    /// The versioning state of this bucket
    pub fn versioning(&self) -> (r: VersioningState)
        ensures
            r == self.versioning.v,
    {
        *self.versioning.get()
    }

    /// Whether new writes to this bucket must create a new retained version
    pub fn is_versioning_enabled(&self) -> (r: bool)
        ensures
            r == (self.versioning.v == VersioningState::Enabled),
    {
        self.versioning() == VersioningState::Enabled
    }

    /// The Object Lock configuration of this bucket, if Object Lock is enabled
    pub fn object_lock(&self) -> (r: Option<ObjectLockConfig>)
        ensures
            r == self.object_lock.v,
    {
        *self.object_lock.get()
    }
}

impl Default for BucketParams {
    /// Parameters of a bucket created now
    fn default() -> (r: Self)
        ensures
            r.lifecycle_config is None,
            r.versioning.v == VersioningState::Disabled,
            r.object_lock.v is None,
    {
        BucketParams::new()
    }
}

/// A bucket: its id, and its parameters unless it is deleted
#[derive(Clone, Debug, PartialEq, Eq)]
pub struct Bucket {
    /// ID of the bucket
    pub id: Uuid,
    /// Configuration of the bucket, None if it is deleted
    pub state: Option<BucketParams>,
}

impl Bucket {
    /// A bucket that exists, with the given parameters
    pub fn present(id: Uuid, params: BucketParams) -> (r: Self)
        ensures
            r.id == id,
            r.state == Some(params),
    {
        Bucket { id, state: Some(params) }
    }

    /// Returns true if this represents a deleted bucket
    pub fn is_deleted(&self) -> (r: bool)
        ensures
            r == self.state is None,
    {
        self.state.is_none()
    }

    /// The parameters of the bucket, to be changed, None if it is deleted
    pub fn params_mut(&mut self) -> (r: Option<&mut BucketParams>)
        ensures
            final(self).id == old(self).id,
            match old(self).state {
                None => r is None && final(self).state is None,
                Some(p) => r matches Some(x) && *x == p && final(self).state == Some(*final(x)),
            },
    {
        match &mut self.state {
            Some(p) => Some(p),
            None => None,
        }
    }

    /// The parameters of the bucket, None if it is deleted
    pub fn params(&self) -> (r: Option<&BucketParams>)
        ensures
            r == match &self.state {
                Some(p) => Some(p),
                None => None::<&BucketParams>,
            },
    {
        match &self.state {
            Some(p) => Some(p),
            None => None,
        }
    }
}


// ---- Entries of the earlier format ----

/// A lifecycle rule of the earlier format, in this format: rules that
/// predate versioning support cannot expire noncurrent versions, as there
/// were none.
pub open spec fn migrated_lifecycle_rule(old: v2::LifecycleRule) -> LifecycleRule {
    LifecycleRule {
        id: old.id,
        enabled: old.enabled,
        filter: old.filter,
        abort_incomplete_mpu_days: old.abort_incomplete_mpu_days,
        expiration: old.expiration,
        noncurrent_version_expiration: None,
    }
}

fn migrate_lifecycle_rule(old: v2::LifecycleRule) -> (r: LifecycleRule)
    ensures
        r == migrated_lifecycle_rule(old),
{
    LifecycleRule {
        id: old.id,
        enabled: old.enabled,
        filter: old.filter,
        abort_incomplete_mpu_days: old.abort_incomplete_mpu_days,
        expiration: old.expiration,
        noncurrent_version_expiration: None,
    }
}

fn migrate_lifecycle_rules(old: Vec<v2::LifecycleRule>) -> (r: Vec<LifecycleRule>)
    ensures
        r@ == old@.map_values(|x: v2::LifecycleRule| migrated_lifecycle_rule(x)),
{
    let ghost orig = old@;
    let mut rest = crate::object_formats::reversed(old);
    let mut rules: Vec<LifecycleRule> = Vec::new();
    while rest.len() > 0
        invariant
            rules@.len() + rest@.len() == orig.len(),
            rest@ == orig.skip(rules@.len() as int).reverse(),
            rules@ == orig.take(rules@.len() as int).map_values(
                |x: v2::LifecycleRule| migrated_lifecycle_rule(x),
            ),
        decreases rest@.len(),
    {
        proof {
            crate::object_formats::lemma_pop_reversed(orig, rules@.len() as int);
        }
        let ghost k = rules@.len() as int;
        let x = rest.pop().unwrap();
        rules.push(migrate_lifecycle_rule(x));
        assert(rules@ =~= orig.take(k + 1).map_values(|x: v2::LifecycleRule| migrated_lifecycle_rule(x)));
    }
    assert(orig.take(orig.len() as int) =~= orig);
    rules
}

impl Bucket {
    /// A bucket of the earlier format, in this format: buckets that predate
    /// versioning support have never had versioning nor Object Lock enabled,
    /// as of their creation date.
    pub fn migrate(old: v2::Bucket) -> (r: Bucket)
        ensures
            r.id == old.id,
            match old.state {
                None => r.state is None,
                Some(p) => r.state matches Some(q) && q.creation_date == p.creation_date
                    && q.versioning == (Lww { ts: p.creation_date, v: VersioningState::Disabled })
                    && q.object_lock == (Lww::<Option<ObjectLockConfig>> { ts: p.creation_date, v: None })
                    && match p.lifecycle_config {
                    None => q.lifecycle_config is None,
                    Some(rules) => q.lifecycle_config matches Some(x) && x@ == rules@.map_values(
                        |y: v2::LifecycleRule| migrated_lifecycle_rule(y),
                    ),
                },
            },
    {
        let state = match old.state {
            None => None,
            Some(x) => Some(
                BucketParams {
                    creation_date: x.creation_date,
                    lifecycle_config: match x.lifecycle_config {
                        Some(rules) => Some(migrate_lifecycle_rules(rules)),
                        None => None,
                    },
                    versioning: Lww::raw(x.creation_date, VersioningState::Disabled),
                    object_lock: Lww::raw(x.creation_date, None),
                },
            ),
        };
        Bucket { id: old.id, state }
    }
}


// ---- Dates of lifecycle rules ----

/// What `chrono::NaiveDateTime::parse_from_str(date, "%Y-%m-%dT%H:%M:%SZ")`
/// gives for a string: the day (counted from the first day of the common
/// era), the second of that day and the nanosecond of that second.
pub uninterp spec fn parsed_lifecycle_datetime(date: Seq<char>) -> Option<(i32, u32, u32)>;

/// What `chrono::NaiveDate::parse_from_str(date, "%Y-%m-%d")` gives for a
/// string: the day, counted from the first day of the common era.
pub uninterp spec fn parsed_lifecycle_day(date: Seq<char>) -> Option<i32>;

/// `chrono::NaiveDateTime::parse_from_str` with the `%Y-%m-%dT%H:%M:%SZ`
/// format, read as (`num_days_from_ce`, `num_seconds_from_midnight`,
/// `nanosecond`). Its result depends on the string alone.
#[verifier::external_body]
fn parse_datetime(date: &str) -> (r: Option<(i32, u32, u32)>)
    ensures
        r == parsed_lifecycle_datetime(date@),
{
    match chrono::NaiveDateTime::parse_from_str(date, "%Y-%m-%dT%H:%M:%SZ") {
        Ok(dt) => Some(
            (dt.date().num_days_from_ce(), dt.time().num_seconds_from_midnight(), dt.time().nanosecond()),
        ),
        Err(_) => None,
    }
}

/// `chrono::NaiveDate::parse_from_str` with the `%Y-%m-%d` format, read as
/// `num_days_from_ce`. Its result depends on the string alone.
#[verifier::external_body]
fn parse_day(date: &str) -> (r: Option<i32>)
    ensures
        r == parsed_lifecycle_day(date@),
{
    match chrono::NaiveDate::parse_from_str(date, "%Y-%m-%d") {
        Ok(d) => Some(d.num_days_from_ce()),
        Err(_) => None,
    }
}

/// Why a lifecycle date is refused
#[derive(Clone, Copy, Debug, PartialEq, Eq, Structural)]
pub enum LifecycleDateError {
    /// A date and time was given, at another time than midnight
    NotMidnight,
    /// The string is neither a date nor a date and time
    InvalidFormat,
}

/// The message that explains an error about a lifecycle date.
pub open spec fn lifecycle_date_error_message(e: LifecycleDateError) -> Seq<char> {
    match e {
        LifecycleDateError::NotMidnight => seq![
            'd', 'a', 't', 'e', ' ', 'm', 'u', 's', 't', ' ', 'b', 'e', ' ', 'a', 't', ' ', 'm',
            'i', 'd', 'n', 'i', 'g', 'h', 't',
        ],
        LifecycleDateError::InvalidFormat => seq![
            'd', 'a', 't', 'e', ' ', 'h', 'a', 's', ' ', 'i', 'n', 'v', 'a', 'l', 'i', 'd', ' ',
            'f', 'o', 'r', 'm', 'a', 't',
        ],
    }
}

impl LifecycleDateError {
    /// The message that explains the error
    pub fn message(&self) -> (r: &'static str)
        ensures
            r@ == lifecycle_date_error_message(*self),
    {
        proof {
            reveal_strlit("date must be at midnight");
            reveal_strlit("date has invalid format");
        }
        match self {
            LifecycleDateError::NotMidnight => "date must be at midnight",
            LifecycleDateError::InvalidFormat => "date has invalid format",
        }
    }
}

/// A calendar day, counted from the first day of the common era (day 1 is
/// 0001-01-01), as `chrono::NaiveDate::num_days_from_ce` counts it.
#[derive(Clone, Copy, Debug, PartialEq, Eq, Structural)]
pub struct Date {
    pub day: i32,
}

/// The date of a lifecycle rule: a day at midnight, written either as a date
/// and time or as a date.
pub open spec fn lifecycle_date(date: Seq<char>) -> Result<Date, LifecycleDateError> {
    match parsed_lifecycle_datetime(date) {
        Some((day, secs, nanos)) => if secs == 0 && nanos == 0 {
            Ok(Date { day })
        } else {
            Err(LifecycleDateError::NotMidnight)
        },
        None => match parsed_lifecycle_day(date) {
            Some(day) => Ok(Date { day }),
            None => Err(LifecycleDateError::InvalidFormat),
        },
    }
}

/// Parse the date of a lifecycle rule
pub fn parse_lifecycle_date(date: &str) -> (r: Result<Date, LifecycleDateError>)
    ensures
        r == lifecycle_date(date@),
{
    match parse_datetime(date) {
        Some((day, secs, nanos)) => if secs == 0 && nanos == 0 {
            Ok(Date { day })
        } else {
            Err(LifecycleDateError::NotMidnight)
        },
        None => match parse_day(date) {
            Some(day) => Ok(Date { day }),
            None => Err(LifecycleDateError::InvalidFormat),
        },
    }
}

} // verus!

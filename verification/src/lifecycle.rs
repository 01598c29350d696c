//! Lifecycle rules: which versions of an object they expire, which uploads
//! they abort, and the progress of the worker that applies them.
use vstd::prelude::*;
use vstd::string::StringSliceAdditionalSpecFns;

use crate::bucket_table::{
    lifecycle_date, parse_lifecycle_date, Bucket, Date, LifecycleExpiration, LifecycleFilter,
    LifecycleRule, NoncurrentVersionExpiration, VersioningState, DAY_MSEC,
};
use crate::bytes::Uuid;
use crate::object_lock_state::DeleteProtection;
use crate::object_table::{
    delete_protection_at, is_complete, is_data, is_uploading, key_lt, last_complete,
    lemma_key_order, lemma_last_answer, same_key, sorted, views, Object, ObjectVersion, ObjectVersionKind, ObjectVersionState, StateView,
    VersionView,
};
use crate::version_data::{data_size, ObjectVersionData};

verus! {

broadcast use vstd::std_specs::vec::group_vec_axioms;

/// The day of the UNIX epoch, 1970-01-01, counted from the first day of the
/// common era.
pub const UNIX_EPOCH_DAY: i32 = 719_163;

/// The first day that dates can stand for.
pub const MIN_DAY: i32 = -95_746_129;

/// The last day that dates can stand for.
pub const MAX_DAY: i32 = 95_745_399;

/// Timestamps before this one fall on a day that another day follows.
pub const MAX_DATED_MSEC: u64 = 8_210_266_790_400_000;

/// The largest number of days a duration can hold.
pub const MAX_RULE_DAYS: i64 = 106_751_991_167;

/// The UTC day of a timestamp in milliseconds since the UNIX epoch.
pub open spec fn day_of_msec(ts: u64) -> int {
    UNIX_EPOCH_DAY + (ts / DAY_MSEC) as int
}

/// The day after the UTC day of a timestamp: the first midnight after it.
pub fn next_date(ts: u64) -> (r: Date)
    requires
        ts < MAX_DATED_MSEC,
    ensures
        r.day == day_of_msec(ts) + 1,
{
    let days = ts / DAY_MSEC;
    assert(days < 95_026_236);
    Date { day: UNIX_EPOCH_DAY + days as i32 + 1 }
}

/// The timestamp of midnight, UTC, at the start of a day.
pub fn utc_midnight_ts(date: Date) -> (r: u64)
    requires
        MIN_DAY <= date.day <= MAX_DAY,
    ensures
        r == (((date.day - UNIX_EPOCH_DAY) * DAY_MSEC) as u64),
{
    let days: i64 = date.day as i64 - UNIX_EPOCH_DAY as i64;
    assert(-96_465_292 <= days <= 95_026_236);
    assert(-96_465_292 * 86_400_000 <= days * 86_400_000 <= 95_026_236 * 86_400_000) by (nonlinear_arith)
        requires
            -96_465_292 <= days <= 95_026_236,
    ;
    let ms: i64 = days * 86_400_000;
    ms as u64
}

/// A number of days as a duration: the count of a lifecycle rule read as a
/// signed number.
pub open spec fn rule_days(days: usize) -> int {
    (days as i64) as int
}

/// A number of days that a duration can hold.
pub open spec fn rule_days_in_range(days: usize) -> bool {
    -MAX_RULE_DAYS <= rule_days(days) <= MAX_RULE_DAYS
}

/// Whether a day is at least `days` days after `since`.
pub open spec fn days_elapsed(now: Date, since: int, days: usize) -> bool {
    now.day - since >= rule_days(days)
}

fn elapsed(now: Date, since: Date, days: usize) -> (r: bool)
    requires
        rule_days_in_range(days),
    ensures
        r == days_elapsed(now, since.day as int, days),
{
    let d = days as i64;
    (now.day as i64 - since.day as i64) >= d
}

// ---- Size filters ----

/// Whether a size satisfies the size conditions of a filter.
pub open spec fn size_matches(size: int, size_gt: Option<u64>, size_lt: Option<u64>) -> bool {
    &&& (size_gt matches Some(g) ==> size > g)
    &&& (size_lt matches Some(l) ==> size < l)
}

/// Does a version match the size conditions of a lifecycle filter
///
/// A delete marker holds no data and so has no size: it only matches a
/// filter that has no size condition at all.
pub open spec fn version_size_matches(v: VersionView, size_gt: Option<u64>, size_lt: Option<u64>) -> bool {
    match v.state {
        StateView::Complete(d) => match data_size(d) {
            Some(n) => size_matches(n as int, size_gt, size_lt),
            None => size_gt is None && size_lt is None,
        },
        _ => false,
    }
}

/// Does the data of a version match the size conditions of a filter. The
/// version must hold data.
pub fn check_size_filter(version_data: &ObjectVersionData, filter: &LifecycleFilter) -> (r: bool)
    requires
        !(version_data@ is DeleteMarker),
    ensures
        r == size_matches(data_size(version_data@)->0 as int, filter.size_gt, filter.size_lt),
{
    let size = match version_data {
        ObjectVersionData::Inline(meta, _) | ObjectVersionData::FirstBlock(meta, _) => meta.size,
        ObjectVersionData::DeleteMarker => 0,
    };
    if let Some(size_gt) = filter.size_gt {
        if !(size > size_gt) {
            return false;
        }
    }
    if let Some(size_lt) = filter.size_lt {
        if !(size < size_lt) {
            return false;
        }
    }
    true
}

/// Does a version match the size conditions of a lifecycle filter
pub fn check_version_size_filter(version: &ObjectVersion, filter: &LifecycleFilter) -> (r: bool)
    ensures
        r == version_size_matches(version@, filter.size_gt, filter.size_lt),
{
    match &version.state {
        ObjectVersionState::Complete(data) => match data {
            ObjectVersionData::Inline(_, _) | ObjectVersionData::FirstBlock(_, _) => {
                check_size_filter(data, filter)
            },
            ObjectVersionData::DeleteMarker => filter.size_gt.is_none() && filter.size_lt.is_none(),
        },
        _ => false,
    }
}

// ---- Noncurrent versions ----

/// The completely uploaded versions of a list, in order.
pub open spec fn completes(s: Seq<VersionView>) -> Seq<VersionView>
    decreases s.len(),
{
    if s.len() == 0 {
        s
    } else if is_complete(s.last()) {
        completes(s.drop_last()).push(s.last())
    } else {
        completes(s.drop_last())
    }
}

/// Whether the noncurrent version `c[i]` expires: `c` holds the completely
/// uploaded versions of an object, from oldest to newest, the last one being
/// the current version. Version `c[i]` became noncurrent when `c[i + 1]` was
/// written, and the rule counts from the midnight that follows.
pub open spec fn noncurrent_expires(
    c: Seq<VersionView>,
    i: int,
    size_gt: Option<u64>,
    size_lt: Option<u64>,
    nv_exp: NoncurrentVersionExpiration,
    now_date: Date,
    now_ms: u64,
) -> bool {
    let n = c.len() - 1;
    &&& !(nv_exp.newer_noncurrent_versions matches Some(keep) && n - 1 - i < keep)
    &&& version_size_matches(c[i], size_gt, size_lt)
    &&& days_elapsed(now_date, day_of_msec(c[i + 1].timestamp) + 1, nv_exp.noncurrent_days)
    &&& delete_protection_at(c[i], now_ms) == DeleteProtection::Unprotected
}

/// The versions among `c[0..k]` that expire.
pub open spec fn expired_among(
    c: Seq<VersionView>,
    k: int,
    size_gt: Option<u64>,
    size_lt: Option<u64>,
    nv_exp: NoncurrentVersionExpiration,
    now_date: Date,
    now_ms: u64,
) -> Seq<VersionView>
    decreases k,
{
    if k <= 0 {
        Seq::empty()
    } else if noncurrent_expires(c, k - 1, size_gt, size_lt, nv_exp, now_date, now_ms) {
        expired_among(c, k - 1, size_gt, size_lt, nv_exp, now_date, now_ms).push(c[k - 1])
    } else {
        expired_among(c, k - 1, size_gt, size_lt, nv_exp, now_date, now_ms)
    }
}

/// The versions of an object that a `NoncurrentVersionExpiration` rule
/// expires: among its completely uploaded versions, all but the last one,
/// which is the current version and is never touched.
pub open spec fn expired_noncurrent(
    s: Seq<VersionView>,
    size_gt: Option<u64>,
    size_lt: Option<u64>,
    nv_exp: NoncurrentVersionExpiration,
    now_date: Date,
    now_ms: u64,
) -> Seq<VersionView> {
    let c = completes(s);
    expired_among(
        c,
        if c.len() > 0 {
            c.len() - 1
        } else {
            0
        },
        size_gt,
        size_lt,
        nv_exp,
        now_date,
        now_ms,
    )
}

/// All the versions have a timestamp that dates can stand for.
pub open spec fn dated(s: Seq<VersionView>) -> bool {
    forall|i: int| 0 <= i < s.len() ==> (#[trigger] s[i]).timestamp < MAX_DATED_MSEC
}

/// The versions of an object that a `NoncurrentVersionExpiration` rule
/// expires
///
/// The versions of an object are sorted from oldest to newest, and the last
/// completely uploaded one is its current version, which such a rule never
/// touches. Each of the others became noncurrent when the version that follows
/// it was written, which is the date the rule counts from. Object Lock
/// protects a version even against the bucket's own lifecycle rules.
pub fn expired_noncurrent_versions(
    object: &Object,
    filter: &LifecycleFilter,
    nv_exp: &NoncurrentVersionExpiration,
    now_date: Date,
    now_ms: u64,
) -> (r: Vec<ObjectVersion>)
    requires
        dated(object@.versions),
        rule_days_in_range(nv_exp.noncurrent_days),
    ensures
        views(r@) == expired_noncurrent(
            object@.versions,
            filter.size_gt,
            filter.size_lt,
            *nv_exp,
            now_date,
            now_ms,
        ),
{
    let versions = object.versions();
    let ghost s = object@.versions;
    // The indices of the completely uploaded versions
    let mut complete: Vec<usize> = Vec::new();
    let mut j: usize = 0;
    assert(s.take(0) =~= Seq::<VersionView>::empty());
    while j < versions.len()
        invariant
            views(versions@) == s,
            j <= s.len(),
            complete@.len() == completes(s.take(j as int)).len(),
            forall|k: int|
                0 <= k < complete@.len() ==> #[trigger] complete@[k] < j && s[complete@[k] as int]
                    == completes(s.take(j as int))[k],
        decreases s.len() - j,
    {
        assert(s.take(j + 1).drop_last() =~= s.take(j as int));
        assert(s.take(j + 1).last() == versions@[j as int]@);
        if versions[j].is_complete() {
            complete.push(j);
        }
        j = j + 1;
    }
    assert(s.take(j as int) =~= s);
    let ghost c = completes(s);
    let n = if complete.len() > 0 {
        complete.len() - 1
    } else {
        0
    };
    let mut expired: Vec<ObjectVersion> = Vec::new();
    let mut i: usize = 0;
    while i < n
        invariant
            views(versions@) == s,
            dated(s),
            rule_days_in_range(nv_exp.noncurrent_days),
            c == completes(s),
            n == if c.len() > 0 {
                c.len() - 1
            } else {
                0
            },
            complete@.len() == c.len(),
            forall|k: int|
                0 <= k < complete@.len() ==> #[trigger] complete@[k] < s.len() && s[complete@[k] as int]
                    == c[k],
            i <= n,
            views(expired@) == expired_among(
                c,
                i as int,
                filter.size_gt,
                filter.size_lt,
                *nv_exp,
                now_date,
                now_ms,
            ),
        decreases n - i,
    {
        let ghost before = views(expired@);
        let version = &versions[complete[i]];
        let next = &versions[complete[i + 1]];
        assert(version@ == c[i as int]);
        assert(next@ == c[i + 1]);
        let mut keep_it = false;
        // Keep the most recent noncurrent versions if the rule says to
        if let Some(keep) = nv_exp.newer_noncurrent_versions {
            if n - 1 - i < keep {
                keep_it = true;
            }
        }
        let expires = !keep_it && check_version_size_filter(version, filter) && {
            let noncurrent_date = next_date(next.timestamp);
            elapsed(now_date, noncurrent_date, nv_exp.noncurrent_days)
        } && !version.delete_protection(now_ms).is_protected();
        assert(expires == noncurrent_expires(
            c,
            i as int,
            filter.size_gt,
            filter.size_lt,
            *nv_exp,
            now_date,
            now_ms,
        ));
        if expires {
            expired.push(version.copy());
            assert(views(expired@) =~= before.push(c[i as int]));
        }
        i = i + 1;
    }
    expired
}


// ---- What the rules of a bucket do to an object ----

/// A version, permanently deleted.
pub open spec fn aborted(v: VersionView) -> VersionView {
    VersionView { state: StateView::Aborted, ..v }
}

/// The versions that a rule to abort incomplete uploads after `days` days
/// aborts: those still being uploaded `days` days after the midnight that
/// follows their creation.
pub open spec fn uploads_to_abort(s: Seq<VersionView>, days: usize, now_date: Date) -> Seq<VersionView>
    decreases s.len(),
{
    if s.len() == 0 {
        Seq::empty()
    } else {
        let r = uploads_to_abort(s.drop_last(), days, now_date);
        let v = s.last();
        if days_elapsed(now_date, day_of_msec(v.timestamp) + 1, days) && v.state is Uploading {
            r.push(aborted(v))
        } else {
            r
        }
    }
}

/// Whether an object's key starts with the prefix of a filter, if it has one.
pub open spec fn key_has_prefix(key: Seq<char>, prefix: Option<String>) -> bool {
    match prefix {
        Some(p) => crate::bytes::is_byte_prefix(
            vstd::utf8::encode_utf8(p@),
            vstd::utf8::encode_utf8(key),
        ),
        None => true,
    }
}

/// Whether the `Expiration` of a rule expires the current version of an
/// object: it holds data, matches the size conditions of the rule, and is old
/// enough or past the date of the rule. A date that cannot be read expires
/// nothing.
pub open spec fn current_expires(rule: LifecycleRule, s: Seq<VersionView>, now_date: Date) -> bool {
    let c = last_complete(s);
    match rule.expiration {
        None => false,
        Some(exp) => {
            &&& c >= 0
            &&& is_data(s[c])
            &&& match s[c].state {
                StateView::Complete(d) => size_matches(
                    data_size(d)->0 as int,
                    rule.filter.size_gt,
                    rule.filter.size_lt,
                ),
                _ => false,
            }
            &&& match exp {
                LifecycleExpiration::AfterDays(n) => days_elapsed(
                    now_date,
                    day_of_msec(s[c].timestamp) + 1,
                    n,
                ),
                LifecycleExpiration::AtDate(d) => match lifecycle_date(d@) {
                    Ok(x) => now_date.day >= x.day,
                    Err(_) => false,
                },
            }
        },
    }
}

/// What applying lifecycle rules does to an object
pub enum ActionView {
    AddDeleteMarker { timestamp: u64, kind: ObjectVersionKind },
    ExpireVersions(Seq<VersionView>),
    AbortUploads(Seq<VersionView>),
}

/// An action of a lifecycle rule on an object
#[derive(Debug)]
pub enum LifecycleAction {
    /// Hide the current version behind a new delete marker with this
    /// timestamp and kind
    AddDeleteMarker { timestamp: u64, kind: ObjectVersionKind },
    /// Permanently delete these noncurrent versions, which are in the
    /// `Aborted` state
    ExpireVersions(Vec<ObjectVersion>),
    /// Abort these incomplete uploads, which are in the `Aborted` state
    AbortUploads(Vec<ObjectVersion>),
}

impl View for LifecycleAction {
    type V = ActionView;

    open spec fn view(&self) -> ActionView {
        match self {
            LifecycleAction::AddDeleteMarker { timestamp, kind } => ActionView::AddDeleteMarker {
                timestamp: *timestamp,
                kind: *kind,
            },
            LifecycleAction::ExpireVersions(v) => ActionView::ExpireVersions(views(v@)),
            LifecycleAction::AbortUploads(v) => ActionView::AbortUploads(views(v@)),
        }
    }
}

/// The kind of the versions written to a bucket in this versioning state.
pub open spec fn kind_for(versioning: VersioningState) -> ObjectVersionKind {
    if versioning == VersioningState::Enabled {
        ObjectVersionKind::Versioned
    } else {
        ObjectVersionKind::Null
    }
}

/// What one lifecycle rule does to an object: nothing if it is disabled or
/// the key does not have its prefix; otherwise, in this order, a delete
/// marker for an expired current version, the permanent deletion of the
/// noncurrent versions that expire, and the abort of old uploads.
pub open spec fn rule_actions(
    rule: LifecycleRule,
    o: crate::object_table::ObjectView,
    versioning: VersioningState,
    now_date: Date,
    now_ms: u64,
) -> Seq<ActionView> {
    if !rule.enabled || !key_has_prefix(o.key, rule.filter.prefix) {
        Seq::empty()
    } else {
        let s = o.versions;
        let c = last_complete(s);
        let a1 = if current_expires(rule, s, now_date) {
            seq![
                ActionView::AddDeleteMarker {
                    timestamp: if now_ms >= s[c].timestamp + 1 {
                        now_ms
                    } else {
                        (s[c].timestamp + 1) as u64
                    },
                    kind: kind_for(versioning),
                },
            ]
        } else {
            Seq::empty()
        };
        let a2 = match rule.noncurrent_version_expiration {
            Some(nv) => {
                let e = aborted_all(expired_noncurrent(
                    s,
                    rule.filter.size_gt,
                    rule.filter.size_lt,
                    nv,
                    now_date,
                    now_ms,
                ));
                if e.len() > 0 {
                    seq![ActionView::ExpireVersions(e)]
                } else {
                    Seq::empty()
                }
            },
            None => Seq::empty(),
        };
        let a3 = match rule.abort_incomplete_mpu_days {
            Some(days) => {
                let u = uploads_to_abort(s, days, now_date);
                if u.len() > 0 {
                    seq![ActionView::AbortUploads(u)]
                } else {
                    Seq::empty()
                }
            },
            None => Seq::empty(),
        };
        a1 + a2 + a3
    }
}

/// The views of a list of actions.
pub open spec fn action_views(s: Seq<LifecycleAction>) -> Seq<ActionView> {
    s.map_values(|a: LifecycleAction| a@)
}

/// Versions, permanently deleted.
pub open spec fn aborted_all(s: Seq<VersionView>) -> Seq<VersionView> {
    s.map_values(|v: VersionView| aborted(v))
}

/// What the rules of a bucket do to an object, rule after rule.
pub open spec fn rules_actions(
    rules: Seq<LifecycleRule>,
    o: crate::object_table::ObjectView,
    versioning: VersioningState,
    now_date: Date,
    now_ms: u64,
) -> Seq<ActionView>
    decreases rules.len(),
{
    if rules.len() == 0 {
        Seq::empty()
    } else {
        rules_actions(rules.drop_last(), o, versioning, now_date, now_ms) + rule_actions(
            rules.last(),
            o,
            versioning,
            now_date,
            now_ms,
        )
    }
}

/// The lifecycle rules of a bucket, none if it is deleted or has none.
pub open spec fn bucket_rules(bucket: Bucket) -> Seq<LifecycleRule> {
    match bucket.state {
        Some(p) => match p.lifecycle_config {
            Some(rules) => rules@,
            None => Seq::empty(),
        },
        None => Seq::empty(),
    }
}

/// The versioning state of a bucket, `Disabled` if it is deleted.
pub open spec fn bucket_versioning(bucket: Bucket) -> VersioningState {
    match bucket.state {
        Some(p) => p.versioning.v,
        None => VersioningState::Disabled,
    }
}

/// The day counts of a rule can all be held by a duration.
pub open spec fn rule_in_range(rule: LifecycleRule) -> bool {
    &&& (rule.expiration matches Some(LifecycleExpiration::AfterDays(n)) ==> rule_days_in_range(n))
    &&& (rule.noncurrent_version_expiration matches Some(nv) ==> rule_days_in_range(
        nv.noncurrent_days,
    ))
    &&& (rule.abort_incomplete_mpu_days matches Some(n) ==> rule_days_in_range(n))
}

fn days_in_range(days: usize) -> (r: bool)
    ensures
        r == rule_days_in_range(days),
{
    let d = days as i64;
    -MAX_RULE_DAYS <= d && d <= MAX_RULE_DAYS
}

/// Whether the day counts of a rule can all be held by a duration.
pub fn rule_in_range_check(rule: &LifecycleRule) -> (r: bool)
    ensures
        r == rule_in_range(*rule),
{
    let expiration = match &rule.expiration {
        Some(LifecycleExpiration::AfterDays(n)) => days_in_range(*n),
        _ => true,
    };
    let noncurrent = match &rule.noncurrent_version_expiration {
        Some(nv) => days_in_range(nv.noncurrent_days),
        None => true,
    };
    let abort = match rule.abort_incomplete_mpu_days {
        Some(n) => days_in_range(n),
        None => true,
    };
    expiration && noncurrent && abort
}

/// Whether the day counts of all lifecycle rules of a bucket can be held by
/// a duration.
pub fn bucket_rules_in_range(bucket: &Bucket) -> (r: bool)
    ensures
        r == forall|i: int|
            0 <= i < bucket_rules(*bucket).len() ==> rule_in_range(#[trigger] bucket_rules(*bucket)[i]),
{
    let rules = match &bucket.state {
        Some(p) => match &p.lifecycle_config {
            Some(rules) => rules,
            None => {
                return true;
            },
        },
        None => {
            return true;
        },
    };
    let mut k: usize = 0;
    while k < rules.len()
        invariant
            rules@ == bucket_rules(*bucket),
            k <= rules@.len(),
            forall|i: int| 0 <= i < k ==> rule_in_range(#[trigger] rules@[i]),
        decreases rules@.len() - k,
    {
        if !rule_in_range_check(&rules[k]) {
            return false;
        }
        k = k + 1;
    }
    true
}

/// Whether every version of an object was written before `MAX_DATED_MSEC`.
pub fn is_dated(object: &Object) -> (r: bool)
    ensures
        r == dated(object@.versions),
{
    let versions = object.versions();
    let ghost s = object@.versions;
    let mut j: usize = 0;
    while j < versions.len()
        invariant
            s == object@.versions,
            views(versions@) == s,
            j <= s.len(),
            forall|i: int| 0 <= i < j ==> (#[trigger] s[i]).timestamp < MAX_DATED_MSEC,
        decreases s.len() - j,
    {
        assert(s[j as int] == versions@[j as int]@);
        if versions[j].timestamp >= MAX_DATED_MSEC {
            assert(!((#[trigger] s[j as int]).timestamp < MAX_DATED_MSEC));
            return false;
        }
        j = j + 1;
    }
    true
}

/// Where the lifecycle worker goes after an object
#[derive(Clone, Copy, Debug, PartialEq, Eq, Structural)]
pub enum Skip {
    /// Skip the rest of the bucket of the object
    SkipBucket,
    /// Go on with the next object
    NextObject,
}

/// Whether lifecycle rules may have something to do with an object: it has
/// noncurrent versions, data or an ongoing upload. The bucket of other
/// objects need not even be read.
pub open spec fn may_need_lifecycle(s: Seq<VersionView>) -> bool {
    completes(s).len() > 1 || exists|i: int|
        0 <= i < s.len() && (is_data(#[trigger] s[i]) || is_uploading(s[i], None))
}

/// An object that has more than one completely uploaded version has
/// noncurrent versions that a lifecycle rule may expire, even when none of
/// them holds data any more.
pub fn needs_lifecycle_check(object: &Object) -> (r: bool)
    ensures
        r == may_need_lifecycle(object@.versions),
{
    let versions = object.versions();
    let ghost s = object@.versions;
    let mut n_complete: usize = 0;
    let mut live = false;
    let mut j: usize = 0;
    assert(s.take(0) =~= Seq::<VersionView>::empty());
    while j < versions.len()
        invariant
            views(versions@) == s,
            j <= s.len(),
            n_complete == completes(s.take(j as int)).len(),
            n_complete <= j,
            live == exists|i: int| 0 <= i < j && (is_data(#[trigger] s[i]) || is_uploading(s[i], None)),
        decreases s.len() - j,
    {
        assert(s.take(j + 1).drop_last() =~= s.take(j as int));
        assert(s.take(j + 1).last() == versions@[j as int]@);
        assert(s[j as int] == versions@[j as int]@);
        let v = &versions[j];
        if v.is_complete() {
            n_complete = n_complete + 1;
        }
        if v.is_data() || v.is_uploading(None) {
            live = true;
        }
        j = j + 1;
    }
    assert(s.take(j as int) =~= s);
    n_complete > 1 || live
}

/// Whether no rule of a list is enabled.
pub open spec fn all_disabled(rules: Seq<LifecycleRule>) -> bool {
    forall|i: int| 0 <= i < rules.len() ==> !(#[trigger] rules[i]).enabled
}

/// What the lifecycle rules of the bucket of an object do to it, and where
/// the worker goes next: the rest of the bucket is skipped if the bucket does
/// not exist or has no enabled rule.
pub fn lifecycle_plan(object: &Object, bucket: Option<&Bucket>, now_date: Date, now_ms: u64) -> (r: (
    Skip,
    Vec<LifecycleAction>,
))
    requires
        object.wf(),
        dated(object@.versions),
        bucket matches Some(b) ==> forall|i: int|
            0 <= i < bucket_rules(*b).len() ==> rule_in_range(#[trigger] bucket_rules(*b)[i]),
    ensures
        match bucket {
            None => r.0 == Skip::SkipBucket && r.1@.len() == 0,
            Some(b) => if all_disabled(bucket_rules(*b)) {
                r.0 == Skip::SkipBucket && r.1@.len() == 0
            } else {
                r.0 == Skip::NextObject && action_views(r.1@) == rules_actions(
                    bucket_rules(*b),
                    object@,
                    bucket_versioning(*b),
                    now_date,
                    now_ms,
                )
            },
        },
{
    let mut actions: Vec<LifecycleAction> = Vec::new();
    let b = match bucket {
        Some(b) => b,
        None => {
            return (Skip::SkipBucket, actions);
        },
    };
    let empty: Vec<LifecycleRule> = Vec::new();
    let rules: &Vec<LifecycleRule> = match &b.state {
        Some(p) => match &p.lifecycle_config {
            Some(rules) => rules,
            None => &empty,
        },
        None => &empty,
    };
    assert(rules@ == bucket_rules(*b));
    let versioning = match &b.state {
        Some(p) => p.versioning(),
        None => VersioningState::Disabled,
    };
    let mut any_enabled = false;
    let mut k: usize = 0;
    while k < rules.len()
        invariant
            k <= rules@.len(),
            any_enabled == exists|i: int| 0 <= i < k && (#[trigger] rules@[i]).enabled,
        decreases rules@.len() - k,
    {
        if rules[k].enabled {
            any_enabled = true;
        }
        k = k + 1;
    }
    if !any_enabled {
        return (Skip::SkipBucket, actions);
    }
    let ghost o = object@;
    let mut k: usize = 0;
    assert(rules@.take(0) =~= Seq::<LifecycleRule>::empty());
    assert(action_views(actions@) =~= Seq::<ActionView>::empty());
    while k < rules.len()
        invariant
            object.wf(),
            o == object@,
            dated(o.versions),
            forall|i: int| 0 <= i < rules@.len() ==> rule_in_range(#[trigger] rules@[i]),
            k <= rules@.len(),
            action_views(actions@) == rules_actions(
                rules@.take(k as int),
                o,
                versioning,
                now_date,
                now_ms,
            ),
        decreases rules@.len() - k,
    {
        let ghost before = action_views(actions@);
        let rule = &rules[k];
        assert(rules@.take(k + 1).drop_last() =~= rules@.take(k as int));
        assert(rules@.take(k + 1).last() == *rule);
        assert(rule_in_range(*rule));
        let mut mine: Vec<LifecycleAction> = Vec::new();
        rule_plan(object, rule, versioning, now_date, now_ms, &mut mine);
        let ghost added = action_views(mine@);
        actions.append(&mut mine);
        assert(action_views(actions@) =~= before + added);
        k = k + 1;
    }
    assert(rules@.take(k as int) =~= rules@);
    (Skip::NextObject, actions)
}

/// The actions of one rule on an object, pushed onto `actions`.
fn rule_plan(
    object: &Object,
    rule: &LifecycleRule,
    versioning: VersioningState,
    now_date: Date,
    now_ms: u64,
    actions: &mut Vec<LifecycleAction>,
)
    requires
        object.wf(),
        dated(object@.versions),
        rule_in_range(*rule),
        old(actions)@.len() == 0,
    ensures
        action_views(final(actions)@) == rule_actions(
            *rule,
            object@,
            versioning,
            now_date,
            now_ms,
        ),
{
    let ghost s = object@.versions;
    if !rule.enabled {
        assert(action_views(final(actions)@) =~= Seq::<ActionView>::empty());
        return ;
    }
    if let Some(pfx) = &rule.filter.prefix {
        if !crate::bytes::str_starts_with(object.key_str(), pfx.as_str()) {
            assert(action_views(final(actions)@) =~= Seq::<ActionView>::empty());
            return ;
        }
    }
    let ghost a1 = rule_actions(*rule, object@, versioning, now_date, now_ms);
    // Expiration of the current version
    if let Some(expire) = &rule.expiration {
        match object.current_version() {
            Some(current_version) => {
                if current_version.is_data() {
                    proof {
                        lemma_last_answer(s, true, None);
                    }
                    assert(current_version.timestamp < MAX_DATED_MSEC);
                    let version_date = next_date(current_version.timestamp);
                    let size_match = match &current_version.state {
                        ObjectVersionState::Complete(c) => check_size_filter(c, &rule.filter),
                        _ => false,
                    };
                    let date_match = match expire {
                        LifecycleExpiration::AfterDays(n_days) => elapsed(
                            now_date,
                            version_date,
                            *n_days,
                        ),
                        LifecycleExpiration::AtDate(exp_date) => {
                            match parse_lifecycle_date(exp_date.as_str()) {
                                Ok(exp_date) => now_date.day >= exp_date.day,
                                Err(_) => false,
                            }
                        },
                    };
                    if size_match && date_match {
                        let next = current_version.timestamp + 1;
                        let timestamp = if now_ms >= next {
                            now_ms
                        } else {
                            next
                        };
                        actions.push(
                            LifecycleAction::AddDeleteMarker {
                                timestamp,
                                kind: ObjectVersionKind::for_versioning_state(versioning),
                            },
                        );
                    }
                }
            },
            None => {},
        }
    }
    assert(current_expires(*rule, s, now_date) ==> actions@.len() == 1);
    let ghost after1 = action_views(actions@);
    // Expiration of noncurrent versions
    if let Some(nv_exp) = &rule.noncurrent_version_expiration {
        let expired = expired_noncurrent_versions(object, &rule.filter, nv_exp, now_date, now_ms);
        let ghost e = views(expired@);
        let mut gone: Vec<ObjectVersion> = Vec::new();
        let mut i: usize = 0;
        while i < expired.len()
            invariant
                e == views(expired@),
                i <= e.len(),
                views(gone@) == aborted_all(e.take(i as int)),
            decreases e.len() - i,
        {
            let v = &expired[i];
            let g = ObjectVersion {
                uuid: v.uuid,
                timestamp: v.timestamp,
                state: ObjectVersionState::Aborted,
                kind: v.kind,
                retention: v.retention,
                legal_hold: v.legal_hold,
            };
            assert(g@ == aborted(e[i as int]));
            let ghost before = views(gone@);
            let ghost gv = g@;
            gone.push(g);
            assert(views(gone@) =~= before.push(gv));
            assert(aborted_all(e.take(i + 1)) =~= aborted_all(e.take(i as int)).push(aborted(e[i as int])));
            assert(views(gone@) =~= aborted_all(e.take(i + 1)));
            i = i + 1;
        }
        assert(e.take(i as int) =~= e);
        if gone.len() > 0 {
            actions.push(LifecycleAction::ExpireVersions(gone));
        }
    }
    let ghost after2 = action_views(actions@);
    // Abort of incomplete uploads
    if let Some(abort_mpu_days) = &rule.abort_incomplete_mpu_days {
        let versions = object.versions();
        let mut gone: Vec<ObjectVersion> = Vec::new();
        let mut j: usize = 0;
        assert(s.take(0) =~= Seq::<VersionView>::empty());
        while j < versions.len()
            invariant
                views(versions@) == s,
                dated(s),
                rule_days_in_range(*abort_mpu_days),
                j <= s.len(),
                views(gone@) == uploads_to_abort(s.take(j as int), *abort_mpu_days, now_date),
            decreases s.len() - j,
        {
            let v = &versions[j];
            assert(s.take(j + 1).drop_last() =~= s.take(j as int));
            assert(s.take(j + 1).last() == v@);
            assert(s[j as int] == v@);
            let version_date = next_date(v.timestamp);
            if elapsed(now_date, version_date, *abort_mpu_days) && matches!(
                &v.state,
                ObjectVersionState::Uploading { .. }
            ) {
                let g = ObjectVersion {
                    uuid: v.uuid,
                    timestamp: v.timestamp,
                    state: ObjectVersionState::Aborted,
                    kind: v.kind,
                    retention: v.retention,
                    legal_hold: v.legal_hold,
                };
                let ghost before = views(gone@);
                gone.push(g);
                assert(views(gone@) =~= before.push(aborted(v@)));
            }
            j = j + 1;
        }
        assert(s.take(j as int) =~= s);
        if gone.len() > 0 {
            actions.push(LifecycleAction::AbortUploads(gone));
        }
    }
    proof {
        let r = rule_actions(*rule, object@, versioning, now_date, now_ms);
        assert(action_views(actions@) =~= r);
    }
}


// ---- The versions that actions hold are sorted ----

/// A noncurrent version expiration never expires the current version of an
/// object, only versions that are completely uploaded, and never one that
/// Object Lock protects at the time it runs.
pub proof fn lemma_noncurrent_expiration_spares(
    s: Seq<VersionView>,
    size_gt: Option<u64>,
    size_lt: Option<u64>,
    nv_exp: NoncurrentVersionExpiration,
    now_date: Date,
    now_ms: u64,
)
    requires
        sorted(s),
    ensures
        ({
            let e = expired_noncurrent(s, size_gt, size_lt, nv_exp, now_date, now_ms);
            forall|x: int|
                0 <= x < e.len() ==> {
                    &&& is_complete(#[trigger] e[x])
                    &&& delete_protection_at(e[x], now_ms) == DeleteProtection::Unprotected
                    &&& last_complete(s) >= 0
                    &&& !same_key(e[x], s[last_complete(s)])
                }
        }),
{
    let c = completes(s);
    lemma_completes_sorted(s);
    if c.len() > 0 {
        let k = c.len() - 1;
        lemma_expired_among_sorted(c, k, size_gt, size_lt, nv_exp, now_date, now_ms);
        let e = expired_noncurrent(s, size_gt, size_lt, nv_exp, now_date, now_ms);
        assert forall|x: int| 0 <= x < e.len() implies {
            &&& is_complete(#[trigger] e[x])
            &&& delete_protection_at(e[x], now_ms) == DeleteProtection::Unprotected
            &&& last_complete(s) >= 0
            &&& !same_key(e[x], s[last_complete(s)])
        } by {
            assert(expires_among(c, k, e[x], size_gt, size_lt, nv_exp, now_date, now_ms));
            let j = choose|j: int|
                0 <= j < k && e[x] == #[trigger] c[j] && noncurrent_expires(c, j, size_gt, size_lt, nv_exp, now_date, now_ms);
            assert(c[k] == c.last());
            assert(key_lt(c[j], c[k]));
            lemma_key_order(c[j], c[k], c[k]);
        }
    }
}

proof fn lemma_completes_sorted(s: Seq<VersionView>)
    ensures
        forall|k: int| 0 <= k < completes(s).len() ==> s.contains(#[trigger] completes(s)[k]),
        forall|k: int| 0 <= k < completes(s).len() ==> is_complete(#[trigger] completes(s)[k]),
        completes(s).len() > 0 <==> last_complete(s) >= 0,
        completes(s).len() > 0 ==> completes(s).last() == s[last_complete(s)],
        sorted(s) ==> sorted(completes(s)),
    decreases s.len(),
{
    if s.len() > 0 {
        let t = s.drop_last();
        lemma_completes_sorted(t);
        let r = completes(t);
        lemma_last_answer(t, true, None);
        if !is_complete(s.last()) && r.len() > 0 {
            assert(last_complete(s) == last_complete(t));
            assert(s[last_complete(t)] == t[last_complete(t)]);
        }
        assert forall|k: int| 0 <= k < completes(s).len() implies is_complete(#[trigger] completes(s)[k]) by {
            if k < r.len() {
                assert(completes(s)[k] == r[k]);
            }
        }
        assert forall|k: int| 0 <= k < r.len() implies s.contains(#[trigger] r[k]) by {
            let i = choose|i: int| 0 <= i < t.len() && t[i] == r[k];
            assert(s[i] == r[k]);
        }
        assert(s[s.len() - 1] == s.last());
        if sorted(s) {
            assert(sorted(t));
            assert forall|k: int| 0 <= k < r.len() implies crate::object_table::key_lt(#[trigger] r[k], s.last()) by {
                let i = choose|i: int| 0 <= i < t.len() && t[i] == r[k];
                assert(s[i] == r[k]);
            }
        }
    }
}

/// Whether `v` is one of `c[0..k]` that expires.
spec fn expires_among(
    c: Seq<VersionView>,
    k: int,
    v: VersionView,
    size_gt: Option<u64>,
    size_lt: Option<u64>,
    nv_exp: NoncurrentVersionExpiration,
    now_date: Date,
    now_ms: u64,
) -> bool {
    exists|j: int|
        0 <= j < k && v == #[trigger] c[j] && noncurrent_expires(
            c,
            j,
            size_gt,
            size_lt,
            nv_exp,
            now_date,
            now_ms,
        )
}

proof fn lemma_expired_among_sorted(
    c: Seq<VersionView>,
    k: int,
    size_gt: Option<u64>,
    size_lt: Option<u64>,
    nv_exp: NoncurrentVersionExpiration,
    now_date: Date,
    now_ms: u64,
)
    requires
        sorted(c),
        k <= c.len(),
    ensures
        ({
            let e = expired_among(c, k, size_gt, size_lt, nv_exp, now_date, now_ms);
            &&& sorted(e)
            &&& forall|x: int|
                0 <= x < e.len() ==> expires_among(
                    c,
                    k,
                    #[trigger] e[x],
                    size_gt,
                    size_lt,
                    nv_exp,
                    now_date,
                    now_ms,
                )
        }),
    decreases k,
{
    if k > 0 {
        lemma_expired_among_sorted(c, k - 1, size_gt, size_lt, nv_exp, now_date, now_ms);
        let r = expired_among(c, k - 1, size_gt, size_lt, nv_exp, now_date, now_ms);
        let e = expired_among(c, k, size_gt, size_lt, nv_exp, now_date, now_ms);
        assert forall|x: int| 0 <= x < r.len() implies expires_among(c, k, #[trigger] r[x], size_gt, size_lt, nv_exp, now_date, now_ms) by {
            assert(expires_among(c, k - 1, r[x], size_gt, size_lt, nv_exp, now_date, now_ms));
            let j = choose|j: int| 0 <= j < k - 1 && r[x] == #[trigger] c[j] && noncurrent_expires(c, j, size_gt, size_lt, nv_exp, now_date, now_ms);
            assert(0 <= j < k && r[x] == c[j]);
        }
        if noncurrent_expires(c, k - 1, size_gt, size_lt, nv_exp, now_date, now_ms) {
            assert(e == r.push(c[k - 1]));
            assert forall|x: int| 0 <= x < e.len() implies expires_among(c, k, #[trigger] e[x], size_gt, size_lt, nv_exp, now_date, now_ms) by {
                if x < r.len() {
                    assert(e[x] == r[x]);
                } else {
                    assert(e[x] == c[k - 1]);
                }
            }
            assert forall|a: int, b: int| 0 <= a < b < e.len() implies crate::object_table::key_lt(#[trigger] e[a], #[trigger] e[b]) by {
                assert(e[a] == r[a]);
                assert(expires_among(c, k - 1, r[a], size_gt, size_lt, nv_exp, now_date, now_ms));
                let ja = choose|j: int| 0 <= j < k - 1 && r[a] == #[trigger] c[j] && noncurrent_expires(c, j, size_gt, size_lt, nv_exp, now_date, now_ms);
                if b < r.len() {
                    assert(e[b] == r[b]);
                } else {
                    assert(e[b] == c[k - 1]);
                    assert(c[ja] == e[a]);
                }
            }
        } else {
            assert(e == r);
        }
    }
}

proof fn lemma_aborted_all_sorted(s: Seq<VersionView>)
    requires
        sorted(s),
    ensures
        sorted(aborted_all(s)),
{
    let t = aborted_all(s);
    assert forall|a: int, b: int| 0 <= a < b < t.len() implies crate::object_table::key_lt(#[trigger] t[a], #[trigger] t[b]) by {
        assert(t[a] == aborted(s[a]) && t[b] == aborted(s[b]));
    }
}

proof fn lemma_uploads_to_abort_sorted(s: Seq<VersionView>, days: usize, now_date: Date)
    requires
        sorted(s),
    ensures
        ({
            let u = uploads_to_abort(s, days, now_date);
            &&& sorted(u)
            &&& forall|x: int| 0 <= x < u.len() ==> exists|j: int| 0 <= j < s.len() && #[trigger] u[x] == aborted(s[j])
        }),
    decreases s.len(),
{
    if s.len() > 0 {
        let t = s.drop_last();
        assert(sorted(t));
        lemma_uploads_to_abort_sorted(t, days, now_date);
        let r = uploads_to_abort(t, days, now_date);
        let u = uploads_to_abort(s, days, now_date);
        assert forall|x: int| 0 <= x < r.len() implies exists|j: int| 0 <= j < s.len() && #[trigger] r[x] == aborted(s[j]) by {
            let j = choose|j: int| 0 <= j < t.len() && #[trigger] r[x] == aborted(t[j]);
            assert(s[j] == t[j]);
        }
        if u.len() > r.len() {
            assert(u[u.len() - 1] == aborted(s[s.len() - 1]));
            assert forall|a: int, b: int| 0 <= a < b < u.len() implies crate::object_table::key_lt(#[trigger] u[a], #[trigger] u[b]) by {
                if b < r.len() {
                    assert(u[a] == r[a] && u[b] == r[b]);
                } else {
                    let j = choose|j: int| 0 <= j < t.len() && #[trigger] r[a] == aborted(t[j]);
                    assert(u[a] == r[a]);
                    assert(s[j] == t[j]);
                }
            }
        }
    }
}

/// The versions that a lifecycle action holds are sorted, so that they make
/// an object.
pub proof fn lemma_rule_actions_sorted(
    rule: LifecycleRule,
    o: crate::object_table::ObjectView,
    versioning: VersioningState,
    now_date: Date,
    now_ms: u64,
)
    requires
        sorted(o.versions),
    ensures
        forall|i: int|
            0 <= i < rule_actions(rule, o, versioning, now_date, now_ms).len() ==> match #[trigger] rule_actions(
                rule,
                o,
                versioning,
                now_date,
                now_ms,
            )[i] {
                ActionView::ExpireVersions(v) => sorted(v),
                ActionView::AbortUploads(v) => sorted(v),
                _ => true,
            },
{
    lemma_completes_sorted(o.versions);
    let c = completes(o.versions);
    if let Some(nv) = rule.noncurrent_version_expiration {
        lemma_expired_among_sorted(
            c,
            if c.len() > 0 { c.len() - 1 } else { 0 },
            rule.filter.size_gt,
            rule.filter.size_lt,
            nv,
            now_date,
            now_ms,
        );
        lemma_aborted_all_sorted(
            expired_noncurrent(o.versions, rule.filter.size_gt, rule.filter.size_lt, nv, now_date, now_ms),
        );
    }
    if let Some(days) = rule.abort_incomplete_mpu_days {
        lemma_uploads_to_abort_sorted(o.versions, days, now_date);
    }
}

/// Whether the versions of an action are sorted.
pub open spec fn action_sorted(a: ActionView) -> bool {
    match a {
        ActionView::ExpireVersions(v) => sorted(v),
        ActionView::AbortUploads(v) => sorted(v),
        _ => true,
    }
}

/// The versions that the actions of lifecycle rules hold are sorted, so that
/// each makes an object.
pub proof fn lemma_rules_actions_sorted(
    rules: Seq<LifecycleRule>,
    o: crate::object_table::ObjectView,
    versioning: VersioningState,
    now_date: Date,
    now_ms: u64,
)
    requires
        sorted(o.versions),
    ensures
        forall|i: int|
            0 <= i < rules_actions(rules, o, versioning, now_date, now_ms).len() ==> action_sorted(
                #[trigger] rules_actions(rules, o, versioning, now_date, now_ms)[i],
            ),
    decreases rules.len(),
{
    if rules.len() > 0 {
        lemma_rules_actions_sorted(rules.drop_last(), o, versioning, now_date, now_ms);
        lemma_rule_actions_sorted(rules.last(), o, versioning, now_date, now_ms);
        let a = rules_actions(rules.drop_last(), o, versioning, now_date, now_ms);
        let b = rule_actions(rules.last(), o, versioning, now_date, now_ms);
        assert forall|i: int| 0 <= i < (a + b).len() implies action_sorted(#[trigger] (a + b)[i]) by {
            if i >= a.len() {
                assert((a + b)[i] == b[i - a.len()]);
            }
        }
    }
}

impl LifecycleAction {
    /// The versions of an action, as they are written to the object table
    /// under the bucket and key of `object`. A delete marker gets the uuid
    /// `marker_uuid`.
    pub fn to_object(&self, object: &Object, marker_uuid: Uuid) -> (r: Object)
        requires
            action_sorted(self@),
        ensures
            r.wf(),
            r@.bucket_id == object@.bucket_id,
            r@.key == object@.key,
            match self@ {
                ActionView::AddDeleteMarker { timestamp, kind } => r@.versions.len() == 1
                    && r@.versions[0] == ObjectVersion::new_view(
                    marker_uuid,
                    timestamp,
                    kind,
                    StateView::Complete(crate::version_data::DataView::DeleteMarker),
                ),
                ActionView::ExpireVersions(v) => r@.versions == v,
                ActionView::AbortUploads(v) => r@.versions == v,
            },
    {
        let mut versions: Vec<ObjectVersion> = Vec::new();
        match self {
            LifecycleAction::AddDeleteMarker { timestamp, kind } => {
                versions.push(
                    ObjectVersion::new(
                        marker_uuid,
                        *timestamp,
                        *kind,
                        ObjectVersionState::Complete(ObjectVersionData::DeleteMarker),
                    ),
                );
                assert(views(versions@).len() == 1);
            },
            LifecycleAction::ExpireVersions(v) | LifecycleAction::AbortUploads(v) => {
                let mut i: usize = 0;
                while i < v.len()
                    invariant
                        i <= v@.len(),
                        views(versions@) == views(v@).take(i as int),
                    decreases v@.len() - i,
                {
                    let ghost before = views(versions@);
                    let c = v[i].copy();
                    assert(c@ == views(v@)[i as int]);
                    versions.push(c);
                    assert(views(versions@) =~= before.push(views(v@)[i as int]));
                    assert(views(versions@) =~= views(v@).take(i + 1));
                    i = i + 1;
                }
                assert(views(v@).take(i as int) =~= views(v@));
            },
        }
        Object::from_sorted(object.bucket(), object.key_string(), versions)
    }
}

} // verus!

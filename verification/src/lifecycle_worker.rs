//! The progress of the worker that applies lifecycle rules to all objects,
//! once a day.
use vstd::prelude::*;

use crate::bucket_table::{Bucket, Date};
use crate::bytes::{bytes_order, compare_bytes, lemma_bytes_order_antisym, Uuid};
use crate::lifecycle::{may_need_lifecycle, needs_lifecycle_check, ActionView, LifecycleAction, Skip, MAX_DAY, MIN_DAY};
use crate::object_table::Object;

verus! {

broadcast use vstd::std_specs::vec::group_vec_axioms, vstd::array::group_array_axioms;

/// Where the lifecycle worker stands
pub enum State {
    /// All objects were processed for this day
    Completed(Date),
    /// Objects are being processed for this day
    Running {
        date: Date,
        /// The position in the object table after the last processed object
        pos: Vec<u8>,
        /// The number of objects processed
        counter: usize,
        objects_expired: usize,
        versions_expired: usize,
        mpu_aborted: usize,
        /// The bucket of the last processed object
        last_bucket: Option<Bucket>,
    },
}

/// The number of delete markers that a list of actions adds.
pub open spec fn markers_added(a: Seq<ActionView>) -> int
    decreases a.len(),
{
    if a.len() == 0 {
        0
    } else {
        markers_added(a.drop_last()) + match a.last() {
            ActionView::AddDeleteMarker { .. } => 1int,
            _ => 0int,
        }
    }
}

/// The number of noncurrent versions that a list of actions expires.
pub open spec fn versions_expired_by(a: Seq<ActionView>) -> int
    decreases a.len(),
{
    if a.len() == 0 {
        0
    } else {
        versions_expired_by(a.drop_last()) + match a.last() {
            ActionView::ExpireVersions(v) => v.len() as int,
            _ => 0int,
        }
    }
}

/// The number of uploads that a list of actions aborts.
pub open spec fn uploads_aborted_by(a: Seq<ActionView>) -> int
    decreases a.len(),
{
    if a.len() == 0 {
        0
    } else {
        uploads_aborted_by(a.drop_last()) + match a.last() {
            ActionView::AbortUploads(v) => v.len() as int,
            _ => 0int,
        }
    }
}

/// The day, counted from the first day of the common era, that a text
/// remembered by the worker stands for, if it is a date.
pub uninterp spec fn remembered_day(text: Seq<char>) -> Option<i32>;

/// `<chrono::NaiveDate as FromStr>::from_str` on the text, the date being
/// counted from the first day of the common era
/// (`Datelike::num_days_from_ce`); `None` where the text is not a date. The
/// result is named, not stated.
#[verifier::external_body]
fn parse_remembered_date(text: &str) -> (r: Option<Date>)
    ensures
        r is Some <==> remembered_day(text@) is Some,
        r matches Some(d) ==> remembered_day(text@) == Some(d.day),
{
    match text.parse::<chrono::NaiveDate>() {
        Ok(d) => Some(Date { day: chrono::Datelike::num_days_from_ce(&d) }),
        Err(_) => None,
    }
}

/// The date that a worker remembers as the last day it completed, if it
/// remembers one that is a date.
pub open spec fn remembered_date(last_completed: Option<&str>) -> Option<Date> {
    match last_completed {
        Some(t) => match remembered_day(t@) {
            Some(d) => Some(Date { day: d }),
            None => None,
        },
        None => None,
    }
}

/// The text that the worker remembers for a day: the date of that day,
/// counted from the first day of the common era.
pub uninterp spec fn remembered_text_of(day: i32) -> Seq<char>;

/// `chrono::NaiveDate::from_num_days_from_ce_opt(day)`, written by its
/// `Display` impl (`YYYY-MM-DD`); every day of the admitted range is a date
/// that `NaiveDate` holds. The text is named, not stated.
#[verifier::external_body]
fn format_remembered_date(day: i32) -> (r: String)
    requires
        MIN_DAY <= day <= MAX_DAY,
    ensures
        r@ == remembered_text_of(day),
{
    match chrono::NaiveDate::from_num_days_from_ce_opt(day) {
        Some(d) => d.to_string(),
        None => String::new(),
    }
}

/// The text under which the worker remembers that it completed a day.
pub fn remembered_text(d: Date) -> (r: String)
    requires
        MIN_DAY <= d.day <= MAX_DAY,
    ensures
        r@ == remembered_text_of(d.day),
{
    format_remembered_date(d.day)
}

/// Whether two identifiers are the same.
fn same_id(a: &Uuid, b: &Uuid) -> (r: bool)
    ensures
        r == (*a == *b),
{
    let c = compare_bytes(a.as_slice(), b.as_slice());
    proof {
        lemma_bytes_order_antisym(a.bytes@, b.bytes@);
        if a.bytes@ == b.bytes@ {
            vstd::array::axiom_array_ext_equal(a.bytes, b.bytes);
        }
    }
    c == 0
}

/// Where the lifecycle rules of an object are read from
pub enum BucketChoice {
    /// Nothing of the object is for lifecycle rules: its bucket is not read
    NotNeeded,
    /// The bucket of the previous object, which is the bucket of this one
    Cached(Bucket),
    /// The bucket must be read from the bucket table
    Fetch,
}

/// Where the worker goes after an object, when the key that follows it in
/// the table is `next_pos`: there, or past all keys of the bucket of the
/// object if the rest of it is skipped.
pub open spec fn position_after(next_pos: Seq<u8>, skip: Skip) -> Seq<u8> {
    if skip == Skip::SkipBucket {
        let last_bucket_pos = next_pos.take(32).push(0xFFu8);
        if bytes_order(next_pos, last_bucket_pos) > 0 {
            next_pos
        } else {
            last_bucket_pos
        }
    } else {
        next_pos
    }
}

/// Comparing two byte strings that start alike compares what follows.
proof fn lemma_bytes_order_common_prefix(p: Seq<u8>, a: Seq<u8>, b: Seq<u8>)
    ensures
        bytes_order(p + a, p + b) == bytes_order(a, b),
    decreases p.len(),
{
    if p.len() > 0 {
        lemma_bytes_order_common_prefix(p.drop_first(), a, b);
        assert((p + a).drop_first() =~= p.drop_first() + a);
        assert((p + b).drop_first() =~= p.drop_first() + b);
    } else {
        assert(p + a =~= a);
        assert(p + b =~= b);
    }
}

/// Once the worker skips the rest of a bucket, it goes on from a position
/// past every object of that bucket: objects are stored under their bucket
/// id followed by their key, and a key, in UTF-8, never holds the byte 0xFF.
pub proof fn lemma_skipped_bucket_is_passed(next_pos: Seq<u8>, key: Seq<char>)
    requires
        next_pos.len() >= 32,
    ensures
        bytes_order(
            next_pos.take(32) + vstd::utf8::encode_utf8(key),
            position_after(next_pos, Skip::SkipBucket),
        ) < 0,
{
    let p = next_pos.take(32);
    let e = vstd::utf8::encode_utf8(key);
    let last = p.push(0xFFu8);
    assert(last =~= p + seq![0xFFu8]);
    lemma_bytes_order_common_prefix(p, e, seq![0xFFu8]);
    if e.len() > 0 {
        vstd::utf8::encode_utf8_valid_utf8(key);
        assert(vstd::utf8::valid_first_scalar(e));
        assert(e[0] < 0xFF);
    }
    assert(bytes_order(e, seq![0xFFu8]) < 0);
    if bytes_order(next_pos, last) > 0 {
        crate::bytes::lemma_bytes_order_antisym(next_pos, last);
        crate::bytes::lemma_bytes_order_trans(p + e, last, next_pos);
    }
}

/// Where the worker goes after an object of bucket `bucket_id`, when the key
/// that follows the object in the table is `next_pos`, which starts with the
/// bucket id.
pub fn next_position(next_pos: Vec<u8>, bucket_id: &Uuid, skip: Skip) -> (r: Vec<u8>)
    requires
        next_pos@.len() >= 32,
        next_pos@.take(32) == bucket_id.bytes@,
    ensures
        r@ == position_after(next_pos@, skip),
{
    if skip == Skip::SkipBucket {
        let mut last_bucket_pos: Vec<u8> = Vec::new();
        let mut i: usize = 0;
        while i < 32
            invariant
                i <= 32,
                next_pos@.len() >= 32,
                last_bucket_pos@ == next_pos@.take(i as int),
            decreases 32 - i,
        {
            last_bucket_pos.push(next_pos[i]);
            assert(last_bucket_pos@ =~= next_pos@.take(i + 1));
            i = i + 1;
        }
        last_bucket_pos.push(0xFF);
        if compare_bytes(next_pos.as_slice(), last_bucket_pos.as_slice()) > 0 {
            next_pos
        } else {
            last_bucket_pos
        }
    } else {
        next_pos
    }
}

proof fn lemma_counts_grow(a: Seq<ActionView>, n: int)
    requires
        0 <= n <= a.len(),
    ensures
        0 <= markers_added(a.take(n)) <= markers_added(a),
        0 <= versions_expired_by(a.take(n)) <= versions_expired_by(a),
        0 <= uploads_aborted_by(a.take(n)) <= uploads_aborted_by(a),
    decreases a.len() - n,
{
    if n < a.len() {
        lemma_counts_grow(a, n + 1);
        assert(a.take(n + 1).drop_last() =~= a.take(n));
        lemma_counts_nonneg(a.take(n));
        assert(a.take(n + 1).last() == a[n]);
    } else {
        assert(a.take(n) =~= a);
        lemma_counts_nonneg(a);
    }
}

proof fn lemma_counts_nonneg(a: Seq<ActionView>)
    ensures
        markers_added(a) >= 0,
        versions_expired_by(a) >= 0,
        uploads_aborted_by(a) >= 0,
    decreases a.len(),
{
    if a.len() > 0 {
        lemma_counts_nonneg(a.drop_last());
    }
}

/// The views of a list of actions.
pub open spec fn actions_view(a: Seq<LifecycleAction>) -> Seq<ActionView> {
    crate::lifecycle::action_views(a)
}

impl State {
    /// Start processing all objects for a day
    pub fn start(date: Date) -> (r: State)
        ensures
            r matches State::Running {
                date: d,
                pos,
                counter,
                objects_expired,
                versions_expired,
                mpu_aborted,
                last_bucket,
            } && d == date && pos@.len() == 0 && counter == 0 && objects_expired == 0
                && versions_expired == 0 && mpu_aborted == 0 && last_bucket is None,
    {
        State::Running {
            date,
            pos: Vec::new(),
            counter: 0,
            objects_expired: 0,
            versions_expired: 0,
            mpu_aborted: 0,
            last_bucket: None,
        }
    }

    /// The state of a worker that starts on day `today` and last completed
    /// its work on `last_completed`: done if that is today or later, and
    /// starting today's work otherwise.
    pub fn initial(last_completed: Option<Date>, today: Date) -> (r: State)
        ensures
            match last_completed {
                Some(d) if d.day >= today.day => r matches State::Completed(x) && x == d,
                _ => r matches State::Running { date, pos, counter, .. } && date == today
                    && pos@.len() == 0 && counter == 0,
            },
    {
        match last_completed {
            Some(d) => {
                if d.day >= today.day {
                    return State::Completed(d);
                }
                State::start(today)
            },
            None => State::start(today),
        }
    }

    /// The state of a worker that starts on day `today` and remembers the
    /// text `last_completed` for the last day it completed: as
    /// [`State::initial`] with the date of that text, if it is one.
    pub fn from_remembered(last_completed: Option<&str>, today: Date) -> (r: State)
        ensures
            match remembered_date(last_completed) {
                Some(d) if d.day >= today.day => r matches State::Completed(x) && x == d,
                _ => r matches State::Running { date, pos, counter, .. } && date == today
                    && pos@.len() == 0 && counter == 0,
            },
    {
        let last = match last_completed {
            Some(t) => parse_remembered_date(t),
            None => None,
        };
        assert(last == remembered_date(last_completed));
        State::initial(last, today)
    }

    /// Where the lifecycle rules of an object are read from: nowhere for an
    /// object that they cannot act on; otherwise the bucket kept from the
    /// previous object, which is given up, if it is the bucket of this one,
    /// and else the bucket table.
    pub fn choose_bucket(&mut self, object: &Object) -> (r: BucketChoice)
        ensures
            !may_need_lifecycle(object@.versions) ==> r is NotNeeded && *final(self) == *old(self),
            may_need_lifecycle(object@.versions) ==> match *old(self) {
                State::Running {
                    date,
                    pos,
                    counter,
                    objects_expired,
                    versions_expired,
                    mpu_aborted,
                    last_bucket,
                } => (*final(self) == (State::Running {
                    date,
                    pos,
                    counter,
                    objects_expired,
                    versions_expired,
                    mpu_aborted,
                    last_bucket: None,
                })) && match last_bucket {
                    Some(b) => if b.id == object@.bucket_id {
                        r matches BucketChoice::Cached(c) && c == b
                    } else {
                        r is Fetch
                    },
                    None => r is Fetch,
                },
                State::Completed(_) => r is Fetch && *final(self) == *old(self),
            },
    {
        if !needs_lifecycle_check(object) {
            return BucketChoice::NotNeeded;
        }
        match self {
            State::Running { last_bucket, .. } => {
                match last_bucket.take() {
                    Some(b) => {
                        let id = object.bucket();
                        if same_id(&b.id, &id) {
                            BucketChoice::Cached(b)
                        } else {
                            BucketChoice::Fetch
                        }
                    },
                    None => BucketChoice::Fetch,
                }
            },
            State::Completed(_) => BucketChoice::Fetch,
        }
    }

    /// Whether the counters of the worker can record an object and its
    /// actions.
    pub fn can_count(&self, actions: &Vec<LifecycleAction>) -> (r: bool)
        ensures
            r == (*self matches State::Running {
                counter,
                objects_expired,
                versions_expired,
                mpu_aborted,
                ..
            } && counter < usize::MAX && objects_expired + markers_added(actions_view(actions@))
                <= usize::MAX && versions_expired + versions_expired_by(actions_view(actions@))
                <= usize::MAX && mpu_aborted + uploads_aborted_by(actions_view(actions@))
                <= usize::MAX),
    {
        let (counter, o, v, m) = match self {
            State::Running { counter, objects_expired, versions_expired, mpu_aborted, .. } => (
                *counter,
                *objects_expired,
                *versions_expired,
                *mpu_aborted,
            ),
            State::Completed(_) => {
                return false;
            },
        };
        if counter == usize::MAX {
            return false;
        }
        let ghost a = actions_view(actions@);
        let mut o: usize = o;
        let mut v: usize = v;
        let mut m: usize = m;
        let ghost o0 = o;
        let ghost v0 = v;
        let ghost m0 = m;
        let mut i: usize = 0;
        assert(a.take(0) =~= Seq::<ActionView>::empty());
        while i < actions.len()
            invariant
                a == actions_view(actions@),
                *self matches State::Running {
                    counter: c,
                    objects_expired,
                    versions_expired,
                    mpu_aborted,
                    ..
                } && c < usize::MAX && objects_expired == o0 && versions_expired == v0
                    && mpu_aborted == m0,
                i <= a.len(),
                o == o0 + markers_added(a.take(i as int)),
                v == v0 + versions_expired_by(a.take(i as int)),
                m == m0 + uploads_aborted_by(a.take(i as int)),
            decreases a.len() - i,
        {
            assert(a.take(i + 1).drop_last() =~= a.take(i as int));
            assert(a.take(i + 1).last() == actions@[i as int]@);
            proof {
                lemma_counts_grow(a, i + 1);
            }
            match &actions[i] {
                LifecycleAction::AddDeleteMarker { .. } => {
                    if o == usize::MAX {
                        return false;
                    }
                    o = o + 1;
                },
                LifecycleAction::ExpireVersions(x) => {
                    if x.len() > usize::MAX - v {
                        return false;
                    }
                    v = v + x.len();
                },
                LifecycleAction::AbortUploads(x) => {
                    if x.len() > usize::MAX - m {
                        return false;
                    }
                    m = m + x.len();
                },
            }
            i = i + 1;
        }
        assert(a.take(i as int) =~= a);
        true
    }

    /// The work of the day after `completed` starts, or today's if it is
    /// later.
    pub fn restart(completed: Date, today: Date) -> (r: State)
        requires
            completed.day < MAX_DAY,
        ensures
            r matches State::Running { date, pos, counter, .. } && date.day == if completed.day
                + 1 >= today.day {
                completed.day + 1
            } else {
                today.day as int
            } && pos@.len() == 0 && counter == 0,
    {
        let next_day = Date { day: completed.day + 1 };
        let date = if next_day.day >= today.day {
            next_day
        } else {
            today
        };
        State::start(date)
    }

    /// The worker got to the end of the object table: the day is completed,
    /// and its date is returned to be remembered.
    pub fn finish(&mut self) -> (r: Option<Date>)
        ensures
            match *old(self) {
                State::Running { date, .. } => r == Some(date) && (*final(self) matches State::Completed(
                    d,
                ) && d == date),
                State::Completed(d) => r is None && (*final(self) matches State::Completed(x) && x
                    == d),
            },
    {
        match self {
            State::Running { date, .. } => {
                let d = *date;
                *self = State::Completed(d);
                Some(d)
            },
            State::Completed(d) => {
                let d = *d;
                *self = State::Completed(d);
                None
            },
        }
    }

    /// Record that an object of bucket `bucket_id` was processed: one more
    /// object, the expirations and aborts of its actions, the position after
    /// it, and the bucket it was read from, kept for the next object unless
    /// the rest of the bucket is skipped.
    pub fn object_processed(
        &mut self,
        next_pos: Vec<u8>,
        bucket_id: &Uuid,
        skip: Skip,
        actions: &Vec<LifecycleAction>,
        bucket: Option<Bucket>,
    )
        requires
            next_pos@.len() >= 32,
            next_pos@.take(32) == bucket_id.bytes@,
            *old(self) matches State::Running {
                counter,
                objects_expired,
                versions_expired,
                mpu_aborted,
                ..
            } && counter < usize::MAX && objects_expired + markers_added(actions_view(actions@))
                <= usize::MAX && versions_expired + versions_expired_by(actions_view(actions@))
                <= usize::MAX && mpu_aborted + uploads_aborted_by(actions_view(actions@))
                <= usize::MAX,
        ensures
            match (*old(self), *final(self)) {
                (
                    State::Running {
                        date: d0,
                        counter: c0,
                        objects_expired: o0,
                        versions_expired: v0,
                        mpu_aborted: m0,
                        last_bucket: b0,
                        ..
                    },
                    State::Running {
                        date: d1,
                        pos: p1,
                        counter: c1,
                        objects_expired: o1,
                        versions_expired: v1,
                        mpu_aborted: m1,
                        last_bucket: b1,
                    },
                ) => d1 == d0 && p1@ == position_after(next_pos@, skip) && c1 == c0 + 1 && o1
                    == o0 + markers_added(actions_view(actions@)) && v1 == v0
                    + versions_expired_by(actions_view(actions@)) && m1 == m0
                    + uploads_aborted_by(actions_view(actions@)) && b1 == match bucket {
                    Some(b) => if skip == Skip::NextObject {
                        Some(b)
                    } else {
                        b0
                    },
                    None => b0,
                },
                _ => false,
            },
    {
        let ghost a = actions_view(actions@);
        let new_pos = next_position(next_pos, bucket_id, skip);
        if let State::Running {
            date,
            pos,
            counter,
            objects_expired,
            versions_expired,
            mpu_aborted,
            last_bucket,
        } = self {
            let ghost o0 = *objects_expired;
            let ghost v0 = *versions_expired;
            let ghost m0 = *mpu_aborted;
            let mut i: usize = 0;
            assert(a.take(0) =~= Seq::<ActionView>::empty());
            while i < actions.len()
                invariant
                    a == actions_view(actions@),
                    i <= a.len(),
                    o0 + markers_added(a) <= usize::MAX,
                    v0 + versions_expired_by(a) <= usize::MAX,
                    m0 + uploads_aborted_by(a) <= usize::MAX,
                    *objects_expired == o0 + markers_added(a.take(i as int)),
                    *versions_expired == v0 + versions_expired_by(a.take(i as int)),
                    *mpu_aborted == m0 + uploads_aborted_by(a.take(i as int)),
                decreases a.len() - i,
            {
                assert(a.take(i + 1).drop_last() =~= a.take(i as int));
                assert(a.take(i + 1).last() == actions@[i as int]@);
                proof {
                    lemma_counts_grow(a, i + 1);
                }
                match &actions[i] {
                    LifecycleAction::AddDeleteMarker { .. } => {
                        *objects_expired = *objects_expired + 1;
                    },
                    LifecycleAction::ExpireVersions(x) => {
                        *versions_expired = *versions_expired + x.len();
                    },
                    LifecycleAction::AbortUploads(x) => {
                        *mpu_aborted = *mpu_aborted + x.len();
                    },
                }
                i = i + 1;
            }
            assert(a.take(i as int) =~= a);
            *counter = *counter + 1;
            *pos = new_pos;
            if let Some(b) = bucket {
                if skip == Skip::NextObject {
                    *last_bucket = Some(b);
                }
            }
        }
    }
}

} // verus!

//! The clock, and the last-write-wins registers that it timestamps.
use vstd::prelude::*;

verus! {

/// `std::time::SystemTime::now()`, as whole milliseconds since the UNIX epoch
/// (`SystemTime::duration_since(UNIX_EPOCH)` and `Duration::as_millis`), or
/// `None` for a clock set before the epoch. Nothing is stated of the result:
/// it is the time at which the call is made.
#[verifier::external_body]
fn clock_millis_since_epoch() -> (r: Option<u128>) {
    match std::time::SystemTime::now().duration_since(std::time::UNIX_EPOCH) {
        Ok(d) => Some(d.as_millis()),
        Err(_) => None,
    }
}

/// The current time, in milliseconds since the UNIX epoch: 0 for a clock set
/// before it, and at most `i64::MAX`. What the clock says is not stated.
pub fn now_msec() -> (r: u64)
    ensures
        r <= i64::MAX,
{
    match clock_millis_since_epoch() {
        None => 0,
        Some(ms) => {
            if ms > 0x7fff_ffff_ffff_ffffu128 {
                0x7fff_ffff_ffff_ffffu64
            } else {
                ms as u64
            }
        },
    }
}

/// A last-write-wins register: a value with the timestamp of its last update.
#[derive(Clone, Copy, Debug, PartialEq, Eq)]
pub struct Lww<T> {
    pub ts: u64,
    pub v: T,
}

impl<T: Copy> Lww<T> {
    /// A register holding `v`, written at `ts`.
    pub fn raw(ts: u64, v: T) -> (r: Self)
        ensures
            r.ts == ts,
            r.v == v,
    {
        Lww { ts, v }
    }

    /// A register holding `v`, written now.
    pub fn new(v: T) -> (r: Self)
        ensures
            r.v == v,
    {
        Lww { ts: now_msec(), v }
    }

    /// The value of the register.
    pub fn get(&self) -> (r: &T)
        ensures
            *r == self.v,
    {
        &self.v
    }

    /// Write `v` at `now`: the register's timestamp always moves forward, so
    /// that this write wins over the one it replaces.
    pub fn update_at(&mut self, v: T, now: u64)
        requires
            old(self).ts < u64::MAX,
        ensures
            final(self).v == v,
            final(self).ts == if old(self).ts + 1 >= now {
                old(self).ts + 1
            } else {
                now as int
            },
    {
        let next = self.ts + 1;
        self.ts = if next >= now {
            next
        } else {
            now
        };
        self.v = v;
    }

    /// Write `v` now: the timestamp becomes the later of the clock, which
    /// reads at most `i64::MAX`, and the old timestamp plus one.
    pub fn update(&mut self, v: T)
        requires
            old(self).ts < u64::MAX,
        ensures
            final(self).v == v,
            final(self).ts == old(self).ts + 1 || old(self).ts + 1 < final(self).ts <= i64::MAX,
    {
        let now = now_msec();
        self.update_at(v, now);
    }
}

/// The register that results of merging two registers: the most recent write
/// wins, and of two writes made at the same time, `tie` chooses.
pub open spec fn lww_merge<T>(a: Lww<T>, b: Lww<T>, tie: T) -> Lww<T> {
    if b.ts > a.ts {
        b
    } else if b.ts == a.ts {
        Lww { ts: a.ts, v: tie }
    } else {
        a
    }
}

/// Boolean registers break ties in favour of `true`.
pub open spec fn lww_bool_merge(a: Lww<bool>, b: Lww<bool>) -> Lww<bool> {
    lww_merge(a, b, a.v || b.v)
}

impl Lww<bool> {
    /// Merge another replica of this register into this one.
    pub fn merge(&mut self, other: &Self)
        ensures
            *final(self) == lww_bool_merge(*old(self), *other),
    {
        if other.ts > self.ts {
            self.ts = other.ts;
            self.v = other.v;
        } else if other.ts == self.ts {
            self.v = self.v || other.v;
        }
    }
}

/// Merging boolean registers is commutative, associative and idempotent.
pub proof fn lemma_lww_bool_merge_laws(a: Lww<bool>, b: Lww<bool>, c: Lww<bool>)
    ensures
        lww_bool_merge(a, b) == lww_bool_merge(b, a),
        lww_bool_merge(lww_bool_merge(a, b), c) == lww_bool_merge(a, lww_bool_merge(b, c)),
        lww_bool_merge(a, a) == a,
{
}

} // verus!

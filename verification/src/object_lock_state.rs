//! The Object Lock settings of an object version: its retention and what
//! protects it from being deleted.
use vstd::prelude::*;

use crate::time::now_msec;

verus! {

/// The mode of an Object Lock retention setting. The strictest mode is the
/// greatest one.
#[derive(Clone, Copy, Debug, PartialEq, Eq, Structural)]
pub enum ObjectLockMode {
    /// The version can be deleted before `retain_until` by a caller that has
    /// the permission to bypass governance retention
    Governance,
    /// The version cannot be deleted by anyone before `retain_until`
    Compliance,
}

/// An Object Lock retention setting
#[derive(Clone, Copy, Debug, PartialEq, Eq, Structural)]
pub struct Retention {
    pub mode: ObjectLockMode,
    /// Date until which the version is retained, in milliseconds since the
    /// UNIX epoch
    pub retain_until: u64,
}

impl Retention {
    /// Is this retention setting still in effect at the given date
    pub fn is_active_at(&self, timestamp: u64) -> (r: bool)
        ensures
            r == (self.retain_until > timestamp),
    {
        self.retain_until > timestamp
    }
}

/// The Object Lock retention setting of an object version
///
/// This is a last-write-wins register with an additional rule: a retention in
/// compliance mode can never be lost, downgraded to governance mode, nor
/// shortened, even by a concurrent write on another node.
#[derive(Clone, Copy, Debug, PartialEq, Eq, Structural)]
pub struct ObjectLockRetention {
    /// Timestamp of the last update, used for LWW reconciliation
    pub ts: u64,
    /// The retention setting, if any
    pub retention: Option<Retention>,
}

/// Retention settings ordered from the weakest to the strictest: no
/// retention, then governance before compliance, then by date.
pub open spec fn retention_order(a: Option<Retention>, b: Option<Retention>) -> int {
    match (a, b) {
        (None, None) => 0,
        (None, Some(_)) => -1,
        (Some(_), None) => 1,
        (Some(x), Some(y)) => {
            if x.mode != y.mode {
                if x.mode == ObjectLockMode::Governance {
                    -1
                } else {
                    1
                }
            } else if x.retain_until < y.retain_until {
                -1
            } else if x.retain_until > y.retain_until {
                1
            } else {
                0
            }
        },
    }
}

/// The date until which a retention setting holds in compliance mode, if it
/// is in that mode.
pub open spec fn compliance_until(r: ObjectLockRetention) -> Option<u64> {
    match r.retention {
        Some(Retention { mode: ObjectLockMode::Compliance, retain_until }) => Some(retain_until),
        _ => None,
    }
}

/// The later of two optional dates, no date coming first.
pub open spec fn later(a: Option<u64>, b: Option<u64>) -> Option<u64> {
    match (a, b) {
        (None, _) => b,
        (_, None) => a,
        (Some(x), Some(y)) => if x >= y {
            a
        } else {
            b
        },
    }
}

/// The retention setting that results of merging two replicas of it: the
/// strictest compliance retention if either replica has one, and otherwise
/// the most recent write, ties going to the strictest setting.
pub open spec fn retention_merge(a: ObjectLockRetention, b: ObjectLockRetention) -> ObjectLockRetention {
    let c = later(compliance_until(a), compliance_until(b));
    if c is Some {
        ObjectLockRetention {
            ts: if a.ts >= b.ts {
                a.ts
            } else {
                b.ts
            },
            retention: Some(Retention { mode: ObjectLockMode::Compliance, retain_until: c->0 }),
        }
    } else if a.ts < b.ts {
        b
    } else if a.ts > b.ts {
        a
    } else {
        ObjectLockRetention {
            ts: a.ts,
            retention: if retention_order(b.retention, a.retention) > 0 {
                b.retention
            } else {
                a.retention
            },
        }
    }
}

impl ObjectLockRetention {
    /// A retention setting that is updated at `ts`.
    pub fn raw(ts: u64, retention: Option<Retention>) -> (r: Self)
        ensures
            r.ts == ts,
            r.retention == retention,
    {
        ObjectLockRetention { ts, retention }
    }

    /// No retention, never written.
    pub fn none() -> (r: Self)
        ensures
            r.ts == 0,
            r.retention is None,
    {
        ObjectLockRetention { ts: 0, retention: None }
    }

    /// A retention setting that is updated now
    pub fn new(retention: Option<Retention>) -> (r: Self)
        ensures
            r.retention == retention,
    {
        ObjectLockRetention { ts: now_msec(), retention }
    }

    /// The retention setting, if any
    pub fn get(&self) -> (r: Option<&Retention>)
        ensures
            r == match self.retention {
                Some(x) => Some(&x),
                None => None::<&Retention>,
            },
    {
        match &self.retention {
            Some(r) => Some(r),
            None => None,
        }
    }

    /// Update the retention setting at `now`, moving the timestamp forward so
    /// that this write wins over the one it replaces
    pub fn update_at(&mut self, retention: Option<Retention>, now: u64)
        requires
            old(self).ts < u64::MAX,
        ensures
            final(self).retention == retention,
            final(self).ts == if old(self).ts + 1 >= now {
                old(self).ts + 1
            } else {
                now as int
            },
    {
        let next = self.ts + 1;
        self.ts = if next >= now {
            next
        } else {
            now
        };
        self.retention = retention;
    }

    /// Update the retention setting now, keeping causal ordering: the
    /// timestamp becomes the later of the clock, which reads at most
    /// `i64::MAX`, and the old timestamp plus one.
    pub fn update(&mut self, retention: Option<Retention>)
        requires
            old(self).ts < u64::MAX,
        ensures
            final(self).retention == retention,
            final(self).ts == old(self).ts + 1 || old(self).ts + 1 < final(self).ts <= i64::MAX,
    {
        let now = now_msec();
        self.update_at(retention, now);
    }

    /// The date until which this version is retained in compliance mode, if it is
    fn compliance_retain_until(&self) -> (r: Option<u64>)
        ensures
            r == compliance_until(*self),
    {
        match self.retention {
            Some(Retention { mode: ObjectLockMode::Compliance, retain_until }) => Some(
                retain_until,
            ),
            _ => None,
        }
    }

    /// Merge another replica of this setting into this one.
    pub fn merge(&mut self, other: &Self)
        ensures
            *final(self) == retention_merge(*old(self), *other),
    {
        let mine = self.compliance_retain_until();
        let theirs = other.compliance_retain_until();
        let compliance = match (mine, theirs) {
            (None, _) => theirs,
            (_, None) => mine,
            (Some(x), Some(y)) => if x >= y {
                mine
            } else {
                theirs
            },
        };
        if let Some(retain_until) = compliance {
            let ts = if self.ts >= other.ts {
                self.ts
            } else {
                other.ts
            };
            *self = ObjectLockRetention {
                ts,
                retention: Some(Retention { mode: ObjectLockMode::Compliance, retain_until }),
            };
            return ;
        }
        if self.ts < other.ts {
            *self = *other;
        } else if self.ts == other.ts {
            if stricter(&other.retention, &self.retention) {
                self.retention = other.retention;
            }
        }
    }
}

fn stricter(a: &Option<Retention>, b: &Option<Retention>) -> (r: bool)
    ensures
        r == (retention_order(*a, *b) > 0),
{
    match (a, b) {
        (None, _) => false,
        (Some(_), None) => true,
        (Some(x), Some(y)) => {
            if x.mode != y.mode {
                x.mode == ObjectLockMode::Compliance
            } else {
                x.retain_until > y.retain_until
            }
        },
    }
}

/// Merging retention settings is commutative, associative and idempotent, so
/// that all replicas end up with the same setting whatever the order in which
/// they receive the writes.
pub proof fn lemma_retention_merge_laws(
    a: ObjectLockRetention,
    b: ObjectLockRetention,
    c: ObjectLockRetention,
)
    ensures
        retention_merge(a, b) == retention_merge(b, a),
        retention_merge(retention_merge(a, b), c) == retention_merge(a, retention_merge(b, c)),
        retention_merge(a, a) == a,
{
}

/// A retention in compliance mode is never lost, downgraded to governance
/// mode, nor shortened by a merge, whatever the other replica holds.
pub proof fn lemma_compliance_retention_survives_merge(
    a: ObjectLockRetention,
    b: ObjectLockRetention,
)
    requires
        compliance_until(a) is Some,
    ensures
        compliance_until(retention_merge(a, b)) is Some,
        compliance_until(retention_merge(a, b))->0 >= compliance_until(a)->0,
        compliance_until(retention_merge(b, a)) is Some,
        compliance_until(retention_merge(b, a))->0 >= compliance_until(a)->0,
{
}

/// What prevents an object version from being permanently deleted
#[derive(Clone, Copy, Debug, PartialEq, Eq, Structural)]
pub enum DeleteProtection {
    /// Nothing: the version can be deleted
    Unprotected,
    /// The version is under a legal hold, and cannot be deleted by anyone
    /// until the hold is lifted
    LegalHold,
    /// The version is retained in governance mode, and can only be deleted by
    /// a caller that is allowed to bypass governance retention
    Governance { retain_until: u64 },
    /// The version is retained in compliance mode, and cannot be deleted by
    /// anyone before `retain_until`
    Compliance { retain_until: u64 },
}

impl DeleteProtection {
    /// Is the version protected against a caller that does not bypass
    /// governance retention
    pub fn is_protected(&self) -> (r: bool)
        ensures
            r == !(*self is Unprotected),
    {
        !matches!(self, DeleteProtection::Unprotected)
    }

    /// Is the version protected even against a caller that bypasses governance
    /// retention
    pub fn is_protected_from_bypass(&self) -> (r: bool)
        ensures
            r == (*self is LegalHold || *self is Compliance),
    {
        match self {
            DeleteProtection::Unprotected | DeleteProtection::Governance { .. } => false,
            DeleteProtection::LegalHold | DeleteProtection::Compliance { .. } => true,
        }
    }
}

/// What protects a version with the given legal hold and retention from
/// being deleted at `timestamp`.
pub open spec fn protection(legal_hold: bool, retention: Option<Retention>, timestamp: u64) -> DeleteProtection {
    if legal_hold {
        DeleteProtection::LegalHold
    } else {
        match retention {
            Some(r) => if r.retain_until > timestamp {
                match r.mode {
                    ObjectLockMode::Governance => DeleteProtection::Governance {
                        retain_until: r.retain_until,
                    },
                    ObjectLockMode::Compliance => DeleteProtection::Compliance {
                        retain_until: r.retain_until,
                    },
                }
            } else {
                DeleteProtection::Unprotected
            },
            None => DeleteProtection::Unprotected,
        }
    }
}

} // verus!

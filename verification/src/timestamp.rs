//! Points in time, counted from the Unix epoch, and the age of one at another.

use vstd::prelude::*;

verus! {

/// Nanoseconds in one second.
pub const NANOS_PER_SECOND: u32 = 1_000_000_000;

/// A point in time: whole seconds since 1970-01-01T00:00:00 UTC (negative
/// before it) and the nanoseconds into that second.
#[derive(Clone, Copy, Debug, PartialEq, Eq, Structural)]
pub struct Timestamp {
    pub secs: i64,
    pub nanos: u32,
}

/// Whole seconds from `then` to `now`, and 0 where `then` is not before
/// `now`: a clock that runs behind gives no negative age.
pub open spec fn age_between(now: Timestamp, then: Timestamp) -> int {
    if now.as_nanos() <= then.as_nanos() {
        0
    } else {
        (now.as_nanos() - then.as_nanos()) / 1_000_000_000
    }
}

impl Timestamp {
    /// The nanosecond part stays below one second.
    pub open spec fn wf(self) -> bool {
        self.nanos < NANOS_PER_SECOND
    }

    /// The point in time as nanoseconds since the epoch.
    pub open spec fn as_nanos(self) -> int {
        self.secs * 1_000_000_000 + self.nanos
    }

    /// Whether `self` is strictly before `other`.
    pub open spec fn before(self, other: Timestamp) -> bool {
        self.as_nanos() < other.as_nanos()
    }

    /// A timestamp from its two parts; `None` where `nanos` is a second or more.
    pub fn new(secs: i64, nanos: u32) -> (r: Option<Timestamp>)
        ensures
            r == if nanos < NANOS_PER_SECOND {
                Some(Timestamp { secs, nanos })
            } else {
                None
            },
    {
        if nanos < NANOS_PER_SECOND {
            Some(Timestamp { secs, nanos })
        } else {
            None
        }
    }

    /// The point in time that lies `secs` seconds and `nanos` nanoseconds
    /// after the epoch; `None` where `nanos` is a second or more, or the
    /// seconds do not fit.
    pub fn after_epoch(secs: u64, nanos: u32) -> (r: Option<Timestamp>)
        ensures
            r is Some <==> nanos < NANOS_PER_SECOND && secs <= i64::MAX,
            r matches Some(t) ==> t.wf() && t.as_nanos() == secs * 1_000_000_000 + nanos,
    {
        if nanos < NANOS_PER_SECOND && secs <= i64::MAX as u64 {
            Some(Timestamp { secs: secs as i64, nanos })
        } else {
            None
        }
    }

    /// The point in time that lies `secs` seconds and `nanos` nanoseconds
    /// before the epoch; `None` where `nanos` is a second or more, or the
    /// seconds do not fit.
    pub fn before_epoch(secs: u64, nanos: u32) -> (r: Option<Timestamp>)
        ensures
            r is Some <==> nanos < NANOS_PER_SECOND && secs * 1_000_000_000 + nanos
                <= 9_223_372_036_854_775_808 * 1_000_000_000,
            r matches Some(t) ==> t.wf() && t.as_nanos() == -(secs * 1_000_000_000 + nanos),
    {
        if nanos >= NANOS_PER_SECOND {
            return None;
        }
        let borrow: i128 = if nanos > 0 {
            1
        } else {
            0
        };
        let whole: i128 = -(secs as i128) - borrow;
        if whole < i64::MIN as i128 {
            return None;
        }
        let rest: u32 = if nanos > 0 {
            NANOS_PER_SECOND - nanos
        } else {
            0
        };
        Some(Timestamp { secs: whole as i64, nanos: rest })
    }

    /// The timestamp of a whole second.
    pub fn from_secs(secs: i64) -> (r: Timestamp)
        ensures
            r == (Timestamp { secs, nanos: 0 }),
            r.wf(),
    {
        Timestamp { secs, nanos: 0 }
    }

    /// The point in time as nanoseconds since the epoch.
    pub fn nanos_since_epoch(&self) -> (r: i128)
        ensures
            r == self.as_nanos(),
    {
        (self.secs as i128) * 1_000_000_000 + (self.nanos as i128)
    }

    /// Whether `self` is strictly before `other`.
    pub fn is_before(&self, other: &Timestamp) -> (r: bool)
        ensures
            r == self.before(*other),
    {
        self.nanos_since_epoch() < other.nanos_since_epoch()
    }

    /// How old `self` is at `now`, in whole seconds; 0 where `self` is not
    /// before `now`.
    pub fn age_at(&self, now: &Timestamp) -> (age: u64)
        requires
            self.wf(),
            now.wf(),
        ensures
            age == age_between(*now, *self),
    {
        let end = now.nanos_since_epoch();
        let start = self.nanos_since_epoch();
        if end <= start {
            0
        } else {
            let seconds: i128 = (end - start) / 1_000_000_000;
            seconds as u64
        }
    }
}

/// Two well-formed timestamps at the same point in time are the same value.
pub proof fn lemma_same_instant(a: Timestamp, b: Timestamp)
    requires
        a.wf(),
        b.wf(),
        a.as_nanos() == b.as_nanos(),
    ensures
        a == b,
{
}

} // verus!

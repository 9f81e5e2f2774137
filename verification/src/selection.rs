//! Choosing the latest of a run of timestamps, some of which may be unknown.

use crate::timestamp::{lemma_same_instant, Timestamp};
use vstd::prelude::*;

verus! {

/// Whether `a` is at `b` or before it. An unknown timestamp is before every
/// known one.
pub open spec fn not_after(a: Option<Timestamp>, b: Option<Timestamp>) -> bool {
    match (a, b) {
        (None, _) => true,
        (Some(_), None) => false,
        (Some(x), Some(y)) => x.as_nanos() <= y.as_nanos(),
    }
}

/// The later of two timestamps; of two at the same point in time, the second.
pub open spec fn later_of(a: Option<Timestamp>, b: Option<Timestamp>) -> Option<Timestamp> {
    if not_after(a, b) {
        b
    } else {
        a
    }
}

/// The latest of `timestamps`: what stands last once they are put in
/// ascending order. `None` where there is none, or none is known.
pub open spec fn latest_of(timestamps: Seq<Option<Timestamp>>) -> Option<Timestamp>
    decreases timestamps.len(),
{
    if timestamps.len() == 0 {
        None
    } else {
        later_of(latest_of(timestamps.drop_last()), timestamps.last())
    }
}

/// Whether every known timestamp of the run is well formed.
pub open spec fn all_well_formed(timestamps: Seq<Option<Timestamp>>) -> bool {
    forall|i: int|
        0 <= i < timestamps.len() ==> (#[trigger] timestamps[i] matches Some(t) ==> t.wf())
}

/// The later of two timestamps.
pub fn later(a: Option<Timestamp>, b: Option<Timestamp>) -> (r: Option<Timestamp>)
    ensures
        r == later_of(a, b),
{
    match (a, b) {
        (None, _) => b,
        (Some(_), None) => a,
        (Some(x), Some(y)) => if y.is_before(&x) {
            a
        } else {
            b
        },
    }
}

/// The latest of a run is one of its timestamps, and none of them is after it.
pub proof fn lemma_latest_is_maximum(timestamps: Seq<Option<Timestamp>>)
    ensures
        timestamps.len() > 0 ==> timestamps.contains(latest_of(timestamps)),
        forall|i: int|
            0 <= i < timestamps.len() ==> not_after(#[trigger] timestamps[i], latest_of(timestamps)),
    decreases timestamps.len(),
{
    if timestamps.len() > 0 {
        let front = timestamps.drop_last();
        lemma_latest_is_maximum(front);
        let latest = latest_of(timestamps);
        if latest == timestamps.last() {
            assert(timestamps[timestamps.len() - 1] == latest);
        } else {
            assert(front.len() > 0);
            let k = choose|k: int| 0 <= k < front.len() && front[k] == latest_of(front);
            assert(timestamps[k] == latest);
        }
        assert forall|i: int| 0 <= i < timestamps.len() implies not_after(
            #[trigger] timestamps[i],
            latest,
        ) by {
            if i < front.len() {
                assert(front[i] == timestamps[i]);
                assert(not_after(front[i], latest_of(front)));
            }
        }
    }
}

/// No timestamp is known as the latest only where none of the run is known.
pub proof fn lemma_latest_unknown(timestamps: Seq<Option<Timestamp>>)
    ensures
        latest_of(timestamps) is None <==> forall|i: int|
            0 <= i < timestamps.len() ==> #[trigger] timestamps[i] is None,
{
    lemma_latest_is_maximum(timestamps);
    if latest_of(timestamps) is None {
        assert forall|i: int| 0 <= i < timestamps.len() implies #[trigger] timestamps[i] is None by {
            assert(not_after(timestamps[i], latest_of(timestamps)));
        }
    } else if timestamps.len() > 0 {
        let k = choose|k: int| 0 <= k < timestamps.len() && timestamps[k] == latest_of(timestamps);
        assert(timestamps[k] is Some);
    }
}

/// Two runs that hold the same well-formed timestamps have the same latest
/// one, in whatever order each run holds them.
pub proof fn lemma_latest_same_members(a: Seq<Option<Timestamp>>, b: Seq<Option<Timestamp>>)
    requires
        all_well_formed(a),
        forall|t: Option<Timestamp>| a.contains(t) <==> b.contains(t),
    ensures
        latest_of(a) == latest_of(b),
{
    lemma_latest_is_maximum(a);
    lemma_latest_is_maximum(b);
    if a.len() == 0 {
        if b.len() > 0 {
            assert(b.contains(b[0]));
            assert(a.contains(b[0]));
        }
    } else {
        let la = latest_of(a);
        let lb = latest_of(b);
        assert(a.contains(la));
        assert(b.contains(la));
        assert(b.len() > 0);
        assert(b.contains(lb));
        assert(a.contains(lb));
        let i = choose|i: int| 0 <= i < b.len() && b[i] == la;
        let j = choose|j: int| 0 <= j < a.len() && a[j] == lb;
        let k = choose|k: int| 0 <= k < a.len() && a[k] == la;
        assert(not_after(b[i], lb));
        assert(not_after(a[j], la));
        if la is Some && lb is Some {
            assert(a[k] matches Some(t) ==> t.wf());
            assert(a[j] matches Some(t) ==> t.wf());
            lemma_same_instant(la->0, lb->0);
        }
    }
}

/// The latest of a run does not depend on the order of the run: any
/// rearrangement of well-formed timestamps has the same latest one.
pub proof fn lemma_latest_order_independent(a: Seq<Option<Timestamp>>, b: Seq<Option<Timestamp>>)
    requires
        all_well_formed(a),
        a.to_multiset() == b.to_multiset(),
    ensures
        latest_of(a) == latest_of(b),
{
    a.to_multiset_ensures();
    b.to_multiset_ensures();
    assert forall|t: Option<Timestamp>| a.contains(t) <==> b.contains(t) by {
        assert(a.contains(t) <==> a.to_multiset().count(t) > 0);
        assert(b.contains(t) <==> b.to_multiset().count(t) > 0);
    }
    lemma_latest_same_members(a, b);
}

} // verus!

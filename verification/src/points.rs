//! Turning one channel's measurements into plot coordinates.
//!
//! A point is `(t, v)`: the time in timestamp units elapsed since the
//! channel's first measurement, and the reading's encoded value, unchanged.
//! Scaling the coordinates onto a chart's axes is the renderer's business.

use vstd::prelude::*;

use crate::store::Measurement;

verus! {

/// All timestamps lie at or after the first one, so every elapsed time is
/// defined. Appends stamped with a monotone receipt clock satisfy this.
pub open spec fn starts_at_first(ms: Seq<Measurement>) -> bool {
    forall|i: int| 0 <= i < ms.len() ==> #[trigger] ms[i].timestamp >= ms[0].timestamp
}

/// One plot point per measurement, in order: the elapsed time since the
/// channel's first measurement, paired with the reading's value.
pub fn mk_points(v: &Vec<Measurement>) -> (points: Vec<(u64, u32)>)
    requires
        starts_at_first(v@),
    ensures
        points@.len() == v@.len(),
        forall|i: int|
            0 <= i < v@.len() ==> #[trigger] points@[i] == (
                (v@[i].timestamp - v@[0].timestamp) as u64,
                v@[i].value,
            ),
{
    let mut points: Vec<(u64, u32)> = Vec::new();
    if v.len() > 0 {
        let t0 = v[0].timestamp;
        let mut k: usize = 0;
        while k < v.len()
            invariant
                k <= v@.len(),
                t0 == v@[0].timestamp,
                starts_at_first(v@),
                points@.len() == k,
                forall|i: int|
                    0 <= i < k ==> #[trigger] points@[i] == (
                        (v@[i].timestamp - v@[0].timestamp) as u64,
                        v@[i].value,
                    ),
            decreases v@.len() - k,
        {
            let m = v[k];
            points.push((m.timestamp - t0, m.value));
            k = k + 1;
        }
    }
    points
}

/// Whether `mk_points` is applicable: every timestamp lies at or after the
/// first. A caller with readings stamped out of order can test before
/// transforming.
pub fn check_starts_at_first(v: &Vec<Measurement>) -> (ok: bool)
    ensures
        ok == starts_at_first(v@),
{
    if v.len() == 0 {
        return true;
    }
    let t0 = v[0].timestamp;
    let mut k: usize = 0;
    while k < v.len()
        invariant
            k <= v@.len(),
            v@.len() > 0,
            t0 == v@[0].timestamp,
            forall|i: int| 0 <= i < k ==> #[trigger] v@[i].timestamp >= v@[0].timestamp,
        decreases v@.len() - k,
    {
        if v[k].timestamp < t0 {
            return false;
        }
        k = k + 1;
    }
    true
}

} // verus!

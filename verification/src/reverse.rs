//! The reverse-path transform: every timestamp is reassigned to its mirror
//! image within the path's time range, so that sorting the output by the new
//! timestamps yields the path played backward. Each keyframe's spatial data
//! stays under its own identifier; only its place in the temporal order
//! flips.

use vstd::prelude::*;
use crate::model::{CameraPath, Entry, Keyframe};
use crate::stats::{max_of, min_of, time_proj, timestamp_extrema};
use crate::units::{clamp_i32, clamp_i64, frame_for, frame_of};

verus! {

/// One keyframe reversed in time within the range `(lo, hi)`: the timestamp
/// becomes `hi - t + lo` and the frame index is resynchronised; everything
/// else is untouched.
pub open spec fn reversed(k: Keyframe, lo: int, hi: int) -> Keyframe {
    let t = clamp_i64(hi - k.timestamp + lo);
    Keyframe {
        fov: k.fov,
        frame: clamp_i32(frame_of(t as int)),
        position: k.position,
        rotation: k.rotation,
        timestamp: t,
        weight: k.weight,
    }
}

/// The whole collection reversed in time. The range is the path-wide
/// earliest and latest timestamp, `(0, 0)` for an empty collection;
/// identifiers and order are untouched. For timestamps within the range the
/// reassignment never saturates.
pub open spec fn reverse_spec(s: Seq<Entry>) -> Seq<Entry> {
    let lo = min_of(s, time_proj());
    let hi = max_of(s, time_proj());
    Seq::new(s.len(), |i: int| Entry { id: s[i].id, keyframe: reversed(s[i].keyframe, lo, hi) })
}

/// Reverses the path in time: each timestamp `t` becomes
/// `max_time - t + min_time`, and the frame index is recomputed from the new
/// timestamp at 30 frames per second.
pub fn reverse_path(path: &CameraPath) -> (out: CameraPath)
    ensures
        out@ == reverse_spec(path@),
        out@.len() == path@.len(),
        forall|i: int| 0 <= i < path@.len() ==> out@[i].id == path@[i].id,
{
    let (lo, hi) = timestamp_extrema(path);
    let ghost goal = reverse_spec(path@);
    let n = path.entries.len();
    let mut entries: Vec<Entry> = Vec::new();
    let mut i: usize = 0;
    while i < n
        invariant
            n == path@.len(),
            i <= n,
            entries@.len() == i,
            lo == min_of(path@, time_proj()),
            hi == max_of(path@, time_proj()),
            goal == reverse_spec(path@),
            forall|j: int| 0 <= j < i ==> entries@[j] == goal[j],
        decreases n - i,
    {
        let e = &path.entries[i];
        let k = e.keyframe;
        let q: i128 = hi as i128 - k.timestamp as i128 + lo as i128;
        let t: i64 = if q > i64::MAX as i128 {
            i64::MAX
        } else if q < i64::MIN as i128 {
            i64::MIN
        } else {
            q as i64
        };
        let new_k = Keyframe { timestamp: t, frame: frame_for(t), ..k };
        entries.push(Entry { id: e.id.clone(), keyframe: new_k });
        i += 1;
    }
    proof {
        assert(entries@ =~= goal);
    }
    CameraPath { entries }
}

} // verus!

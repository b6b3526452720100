//! The smoothing transform: a sliding-window average of position and field
//! of view over the path in temporal order. Rotation, timestamp, frame and
//! weight are left untouched; edge windows are shorter, not padded.

use vstd::prelude::*;
use crate::model::{CameraPath, Entry, Keyframe, Position};
use crate::sorting::{sort_by_time, sort_entries};
use crate::units::{clamp_i64, div_trunc, lemma_checked_div_is_div_trunc};

verus! {

/// The field of view, as a quantity windows are averaged over.
pub open spec fn fov_proj() -> spec_fn(Entry) -> int {
    |e: Entry| e.keyframe.fov as int
}

/// The x coordinate, as a quantity windows are averaged over.
pub open spec fn px_proj() -> spec_fn(Entry) -> int {
    |e: Entry| e.keyframe.position.x as int
}

/// The y coordinate, as a quantity windows are averaged over.
pub open spec fn py_proj() -> spec_fn(Entry) -> int {
    |e: Entry| e.keyframe.position.y as int
}

/// The z coordinate, as a quantity windows are averaged over.
pub open spec fn pz_proj() -> spec_fn(Entry) -> int {
    |e: Entry| e.keyframe.position.z as int
}

/// Where the centered window of a sorted position `i` starts: half the
/// window size (rounded down) before `i`, cut off at the path's start.
pub open spec fn win_start(i: int, w: int) -> int {
    if i - w / 2 < 0 {
        0
    } else {
        i - w / 2
    }
}

/// Where that window ends (exclusive): half the window size after `i`, cut
/// off at the path's end.
pub open spec fn win_end(i: int, w: int, n: int) -> int {
    if i + w / 2 + 1 > n {
        n
    } else {
        i + w / 2 + 1
    }
}

/// The sum of `f` over the sorted indices `[a, b)`.
pub open spec fn sum_over(s: Seq<Entry>, a: int, b: int, f: spec_fn(Entry) -> int) -> int
    decreases b - a,
{
    if b <= a {
        0
    } else {
        f(s[a]) + sum_over(s, a + 1, b, f)
    }
}

/// The average of `f` over the window of position `i`: the window sum
/// divided by the window's actual element count, truncated toward zero.
pub open spec fn window_avg(s: Seq<Entry>, w: int, i: int, f: spec_fn(Entry) -> int) -> int {
    let a = win_start(i, w);
    let b = win_end(i, w, s.len() as int);
    div_trunc(sum_over(s, a, b, f), b - a)
}

/// The keyframe at sorted position `i` with position and field of view
/// replaced by their window averages; rotation, timestamp, frame and weight
/// its own.
pub open spec fn smoothed_at(s: Seq<Entry>, w: int, i: int) -> Keyframe {
    let k = s[i].keyframe;
    Keyframe {
        fov: clamp_i64(window_avg(s, w, i, fov_proj())),
        frame: k.frame,
        position: Position {
            x: clamp_i64(window_avg(s, w, i, px_proj())),
            y: clamp_i64(window_avg(s, w, i, py_proj())),
            z: clamp_i64(window_avg(s, w, i, pz_proj())),
        },
        rotation: k.rotation,
        timestamp: k.timestamp,
        weight: k.weight,
    }
}

/// The sorted sequence smoothed, entry by entry, under its own identifiers.
pub open spec fn smooth_spec(s: Seq<Entry>, w: int) -> Seq<Entry> {
    Seq::new(s.len(), |i: int| Entry { id: s[i].id, keyframe: smoothed_at(s, w, i) })
}

/// A window sum over values from `i64` fields stays within `count` times the
/// `i64` range.
proof fn lemma_sum_over_bounds(s: Seq<Entry>, a: int, b: int, f: spec_fn(Entry) -> int)
    requires
        forall|e: Entry| -0x8000_0000_0000_0000 <= #[trigger] f(e) <= 0x7fff_ffff_ffff_ffff,
        a <= b,
    ensures
        -(b - a) * 0x8000_0000_0000_0000 <= sum_over(s, a, b, f) <= (b - a)
            * 0x7fff_ffff_ffff_ffff,
    decreases b - a,
{
    if a < b {
        lemma_sum_over_bounds(s, a + 1, b, f);
    }
}

/// Extending a window by one element adds that element's value to the sum.
proof fn lemma_sum_over_step(s: Seq<Entry>, a: int, j: int, f: spec_fn(Entry) -> int)
    requires
        a <= j,
    ensures
        sum_over(s, a, j + 1, f) == sum_over(s, a, j, f) + f(s[j]),
    decreases j - a,
{
    if a < j {
        lemma_sum_over_step(s, a + 1, j, f);
        assert(sum_over(s, a, j + 1, f) == f(s[a]) + sum_over(s, a + 1, j + 1, f));
        assert(sum_over(s, a, j, f) == f(s[a]) + sum_over(s, a + 1, j, f));
    } else {
        assert(sum_over(s, a, j + 1, f) == f(s[a]) + sum_over(s, a + 1, j + 1, f));
        assert(sum_over(s, a + 1, j + 1, f) == 0);
        assert(sum_over(s, a, j, f) == 0);
    }
}

/// The window sum of `f` over `[a, b)` of the sorted entries, as an `i128`,
/// which the bounds above show cannot overflow.
fn window_sum(sorted: &Vec<Entry>, a: usize, b: usize, f: Ghost<spec_fn(Entry) -> int>,
    read: impl Fn(&Entry) -> i64) -> (sum: i128)
    requires
        a <= b <= sorted@.len(),
        forall|e: Entry| #[trigger] read.requires((&e,)),
        forall|e: Entry, v: i64| read.ensures((&e,), v) ==> v == f@(e),
        forall|e: Entry| -0x8000_0000_0000_0000 <= #[trigger] f@(e) <= 0x7fff_ffff_ffff_ffff,
    ensures
        sum == sum_over(sorted@, a as int, b as int, f@),
        -(b - a) * 0x8000_0000_0000_0000 <= sum <= (b - a) * 0x7fff_ffff_ffff_ffff,
{
    let mut sum: i128 = 0;
    let mut j: usize = a;
    while j < b
        invariant
            a <= j <= b <= sorted@.len(),
            forall|e: Entry| #[trigger] read.requires((&e,)),
            forall|e: Entry, v: i64| read.ensures((&e,), v) ==> v == f@(e),
            forall|e: Entry|
                -0x8000_0000_0000_0000 <= #[trigger] f@(e) <= 0x7fff_ffff_ffff_ffff,
            sum == sum_over(sorted@, a as int, j as int, f@),
            -(j - a) * 0x8000_0000_0000_0000 <= sum <= (j - a) * 0x7fff_ffff_ffff_ffff,
        decreases b - j,
    {
        let v = read(&sorted[j]);
        proof {
            lemma_sum_over_step(sorted@, a as int, j as int, f@);
        }
        sum = sum + (v as i128);
        j += 1;
    }
    proof {
        lemma_sum_over_bounds(sorted@, a as int, b as int, f@);
    }
    sum
}

/// Divides a window sum by the window's element count, truncating toward
/// zero; the result of averaging `i64` values always fits `i64` again.
fn window_divide(sum: i128, count: usize) -> (avg: i64)
    requires
        count > 0,
        -(count as int) * 0x8000_0000_0000_0000 <= sum <= (count as int)
            * 0x7fff_ffff_ffff_ffff,
    ensures
        avg == clamp_i64(div_trunc(sum as int, count as int)),
{
    proof {
        lemma_checked_div_is_div_trunc(sum, count as i128);
    }
    let q = sum.checked_div(count as i128).unwrap();
    if q > i64::MAX as i128 {
        i64::MAX
    } else if q < i64::MIN as i128 {
        i64::MIN
    } else {
        q as i64
    }
}

/// Smooths the path: sorts the keyframes by timestamp, then replaces each
/// one's position and field of view by their averages over a centered window
/// of up to `window_size / 2` neighbours on each side (shorter at the
/// edges). Rotation, timestamp, frame and weight stay each keyframe's own;
/// the output holds the original keys in temporal order. A window size of 0
/// or 1 degenerates to a one-element window, the identity on position and
/// field of view.
pub fn smooth_path(path: &CameraPath, window_size: usize) -> (out: CameraPath)
    ensures
        out@ == smooth_spec(sort_by_time(path@), window_size as int),
        out@.len() == path@.len(),
{
    let sorted: Vec<Entry> = sort_entries(path);
    let ghost s = sorted@;
    let ghost w = window_size as int;
    let ghost goal = smooth_spec(s, w);
    let n = sorted.len();
    let half = window_size / 2;
    let mut entries: Vec<Entry> = Vec::new();
    let mut i: usize = 0;
    while i < n
        invariant
            n == s.len(),
            s == sorted@,
            w == window_size as int,
            half == window_size / 2,
            goal == smooth_spec(s, w),
            i <= n,
            entries@.len() == i,
            forall|j: int| 0 <= j < i ==> entries@[j] == goal[j],
        decreases n - i,
    {
        let start: usize = if i >= half {
            i - half
        } else {
            0
        };
        let end: usize = if n - i - 1 <= half {
            n
        } else {
            i + half + 1
        };
        proof {
            assert(start as int == win_start(i as int, w));
            assert(end as int == win_end(i as int, w, n as int));
            assert(start <= i < end);
        }
        let sum_fov = window_sum(&sorted, start, end, Ghost(fov_proj()), |e: &Entry| -> (v: i64)
            ensures v == e.keyframe.fov,
            { e.keyframe.fov });
        let sum_x = window_sum(&sorted, start, end, Ghost(px_proj()), |e: &Entry| -> (v: i64)
            ensures v == e.keyframe.position.x,
            { e.keyframe.position.x });
        let sum_y = window_sum(&sorted, start, end, Ghost(py_proj()), |e: &Entry| -> (v: i64)
            ensures v == e.keyframe.position.y,
            { e.keyframe.position.y });
        let sum_z = window_sum(&sorted, start, end, Ghost(pz_proj()), |e: &Entry| -> (v: i64)
            ensures v == e.keyframe.position.z,
            { e.keyframe.position.z });
        let count = end - start;
        let avg_fov = window_divide(sum_fov, count);
        let avg_x = window_divide(sum_x, count);
        let avg_y = window_divide(sum_y, count);
        let avg_z = window_divide(sum_z, count);
        let e = &sorted[i];
        let k = e.keyframe;
        let new_k = Keyframe {
            fov: avg_fov,
            position: Position { x: avg_x, y: avg_y, z: avg_z },
            ..k
        };
        proof {
            assert(new_k == smoothed_at(s, w, i as int));
        }
        entries.push(Entry { id: e.id.clone(), keyframe: new_k });
        i += 1;
    }
    proof {
        assert(entries@ =~= goal);
        crate::sorting::lemma_sort_by_time_len(path@);
    }
    CameraPath { entries }
}

} // verus!

//! Path-wide laws of the transform catalogue, each proved from the spec
//! functions the transforms' own contracts are stated over.

use vstd::prelude::*;
use crate::model::{Entry, Keyframe};
use crate::elementwise::{fov_added, fov_scaled, map_keyframes};
use crate::mirror::{axis_coord, axis_proj, mirror_spec, mirrored, with_axis_coord, Axis};
use crate::reverse::{reverse_spec, reversed};
use crate::smoothing::{smooth_spec, smoothed_at, sum_over, win_end, win_start, window_avg};
use crate::stats::{lemma_extrema_bound, max_of, min_of, time_proj};
use crate::units::{
    clamp_i32, clamp_i64, div_trunc, frame_of, wrap_add_i64, wrap_neg_i32, wrap_neg_i64,
};
use vstd::math::abs;
use vstd::arithmetic::div_mod::lemma_div_multiples_vanish;

verus! {

/// Elementwise transforms never add or remove keyframes: the identifiers of
/// the output are the identifiers of the input, place for place, so the key
/// set is unchanged and key uniqueness is preserved.
pub proof fn lemma_map_keyframes_preserves_keys(s: Seq<Entry>, f: spec_fn(Keyframe) -> Keyframe)
    ensures
        map_keyframes(s, f).len() == s.len(),
        forall|i: int| 0 <= i < s.len() ==> map_keyframes(s, f)[i].id == s[i].id,
        crate::model::unique_ids(s) ==> crate::model::unique_ids(map_keyframes(s, f)),
{
}

/// The mirror and reverse transforms keep the identifiers place for place as
/// well, whatever the axis, flips and boundedness.
pub proof fn lemma_mirror_reverse_preserve_keys(
    s: Seq<Entry>,
    a: Axis,
    flip_pitch: bool,
    flip_yaw: bool,
    flip_roll: bool,
    bounded: bool,
)
    ensures
        mirror_spec(s, a, flip_pitch, flip_yaw, flip_roll, bounded).len() == s.len(),
        forall|i: int|
            0 <= i < s.len() ==> mirror_spec(s, a, flip_pitch, flip_yaw, flip_roll, bounded)[i].id
                == s[i].id,
        reverse_spec(s).len() == s.len(),
        forall|i: int| 0 <= i < s.len() ==> reverse_spec(s)[i].id == s[i].id,
{
}

/// Wrapping addition of a value and then of its wrapping negation restores
/// the original, for every input.
proof fn lemma_wrap_add_neg_cancel(x: i64, a: i64)
    ensures
        wrap_add_i64(wrap_add_i64(x, a), wrap_neg_i64(a)) == x,
{
}

/// Wrapping negation is an involution.
proof fn lemma_wrap_neg_involution_i32(x: i32)
    ensures
        wrap_neg_i32(wrap_neg_i32(x)) == x,
{
}

/// Adding a field-of-view offset and then its wrapping negation restores the
/// original collection exactly — the additive round trip.
pub proof fn lemma_fov_add_round_trip(s: Seq<Entry>, a: i64)
    ensures
        map_keyframes(
            map_keyframes(s, |k: Keyframe| fov_added(k, a)),
            |k: Keyframe| fov_added(k, wrap_neg_i64(a)),
        ) == s,
{
    let s1 = map_keyframes(s, |k: Keyframe| fov_added(k, a));
    let s2 = map_keyframes(s1, |k: Keyframe| fov_added(k, wrap_neg_i64(a)));
    assert forall|i: int| 0 <= i < s.len() implies s2[i] == s[i] by {
        lemma_wrap_add_neg_cancel(s[i].keyframe.fov, a);
        assert(s2[i].keyframe == s[i].keyframe);
        assert(s2[i] == Entry { id: s[i].id, keyframe: s[i].keyframe });
    }
    assert(s2 =~= s);
}

/// The magnitude of a product is the product of the magnitudes.
proof fn lemma_abs_mul(v: int, b: int)
    ensures
        abs(v * b) == abs(v) * abs(b),
{
    if v >= 0 && b >= 0 {
        assert(v * b >= 0) by (nonlinear_arith)
            requires
                v >= 0,
                b >= 0,
        ;
    } else if v >= 0 && b < 0 {
        assert(v * b <= 0 && -(v * b) == v * -b) by (nonlinear_arith)
            requires
                v >= 0,
                b < 0,
        ;
    } else if v < 0 && b >= 0 {
        assert(v * b <= 0 && -(v * b) == -v * b) by (nonlinear_arith)
            requires
                v < 0,
                b >= 0,
        ;
    } else {
        assert(v * b >= 0 && v * b == -v * -b) by (nonlinear_arith)
            requires
                v < 0,
                b < 0,
        ;
    }
}

/// Truncated division of an exact multiple recovers the factor.
proof fn lemma_div_trunc_multiple(v: int, b: int)
    requires
        b != 0,
    ensures
        div_trunc(v * b, b) == v,
{
    let a = v * b;
    lemma_abs_mul(v, b);
    lemma_div_multiples_vanish(abs(v) as int, abs(b) as int);
    assert(abs(b) as int * abs(v) as int == abs(a)) by (nonlinear_arith)
        requires
            abs(a) == abs(v) * abs(b),
    ;
    assert((abs(a) as int) / (abs(b) as int) == abs(v));
    if v == 0 {
        assert(a == 0) by (nonlinear_arith)
            requires
                a == v * b,
                v == 0,
        ;
    } else if v > 0 && b > 0 {
        assert(a > 0) by (nonlinear_arith)
            requires
                a == v * b,
                v > 0,
                b > 0,
        ;
    } else if v > 0 && b < 0 {
        assert(a < 0) by (nonlinear_arith)
            requires
                a == v * b,
                v > 0,
                b < 0,
        ;
    } else if v < 0 && b > 0 {
        assert(a < 0) by (nonlinear_arith)
            requires
                a == v * b,
                v < 0,
                b > 0,
        ;
    } else {
        assert(a > 0) by (nonlinear_arith)
            requires
                a == v * b,
                v < 0,
                b < 0,
        ;
    }
}

/// Multiplying every field of view by `num / den` and then by `den / num`
/// restores the original collection, wherever the first scaling is exact
/// (the denominator divides the scaled value) and does not saturate. A field
/// of view of one unit scaled by one third, for instance, is not restored.
pub proof fn lemma_fov_multiply_round_trip(s: Seq<Entry>, num: i64, den: i64)
    requires
        num != 0,
        den != 0,
        forall|i: int|
            0 <= i < s.len() ==> (den as int) * #[trigger] div_trunc(
                s[i].keyframe.fov as int * num as int,
                den as int,
            ) == s[i].keyframe.fov as int * num as int,
        forall|i: int|
            0 <= i < s.len() ==> i64::MIN <= #[trigger] div_trunc(
                s[i].keyframe.fov as int * num as int,
                den as int,
            ) <= i64::MAX,
    ensures
        map_keyframes(
            map_keyframes(s, |k: Keyframe| fov_scaled(k, num, den)),
            |k: Keyframe| fov_scaled(k, den, num),
        ) == s,
{
    let s1 = map_keyframes(s, |k: Keyframe| fov_scaled(k, num, den));
    let s2 = map_keyframes(s1, |k: Keyframe| fov_scaled(k, den, num));
    assert forall|i: int| 0 <= i < s.len() implies s2[i] == s[i] by {
        let v = s[i].keyframe.fov as int;
        let q = div_trunc(v * num, den as int);
        assert(s1[i].keyframe.fov == clamp_i64(q));
        assert(clamp_i64(q) as int == q);
        assert(q * den == v * num) by (nonlinear_arith)
            requires
                den as int * q == v * num,
        ;
        assert(v * num == num * v) by (nonlinear_arith);
        lemma_div_trunc_multiple(v, num as int);
        assert(div_trunc(q * den, num as int) == v);
        assert(s2[i].keyframe.fov == clamp_i64(v));
        assert(s2[i].keyframe == s[i].keyframe);
        assert(s2[i] == Entry { id: s[i].id, keyframe: s[i].keyframe });
    }
    assert(s2 =~= s);
}

/// A mapped collection whose chosen quantity is the reflection `c - q` of
/// the original's has its extrema reflected: its least value is `c` less the
/// original's greatest, its greatest is `c` less the original's least.
proof fn lemma_extrema_affine(s: Seq<Entry>, m: Seq<Entry>, c: int, f: spec_fn(Entry) -> int)
    requires
        m.len() == s.len(),
        s.len() > 0,
        forall|i: int| 0 <= i < s.len() ==> #[trigger] f(m[i]) == c - f(s[i]),
    ensures
        min_of(m, f) == c - max_of(s, f),
        max_of(m, f) == c - min_of(s, f),
    decreases s.len(),
{
    if s.len() == 1 {
        assert(f(m[0]) == c - f(s[0]));
    } else {
        assert forall|i: int|
            0 <= i < s.drop_last().len() implies #[trigger] f(m.drop_last()[i]) == c - f(
            s.drop_last()[i],
        ) by {
            assert(m.drop_last()[i] == m[i]);
            assert(s.drop_last()[i] == s[i]);
        }
        lemma_extrema_affine(s.drop_last(), m.drop_last(), c, f);
        assert(f(m.last()) == c - f(s.last()));
    }
}

/// Reversing the path twice restores every timestamp exactly, and with it
/// every identifier, position, rotation and weight; both passes leave the
/// frame index derived from the keyframe's own timestamp, so a collection
/// whose frames satisfy the 30 frames-per-second contract is restored whole.
pub proof fn lemma_reverse_involution(s: Seq<Entry>)
    ensures
        reverse_spec(reverse_spec(s)).len() == s.len(),
        forall|i: int|
            0 <= i < s.len() ==> #[trigger] reverse_spec(reverse_spec(s))[i].id == s[i].id,
        forall|i: int|
            0 <= i < s.len() ==> #[trigger] reverse_spec(reverse_spec(s))[i].keyframe.timestamp
                == s[i].keyframe.timestamp,
        forall|i: int|
            0 <= i < s.len() ==> #[trigger] reverse_spec(reverse_spec(s))[i].keyframe.position
                == s[i].keyframe.position,
        forall|i: int|
            0 <= i < s.len() ==> #[trigger] reverse_spec(reverse_spec(s))[i].keyframe.rotation
                == s[i].keyframe.rotation,
        forall|i: int|
            0 <= i < s.len() ==> #[trigger] reverse_spec(reverse_spec(s))[i].keyframe.weight
                == s[i].keyframe.weight,
        forall|i: int|
            0 <= i < s.len() ==> #[trigger] reverse_spec(reverse_spec(s))[i].keyframe.fov
                == s[i].keyframe.fov,
        forall|i: int|
            0 <= i < s.len() ==> #[trigger] reverse_spec(reverse_spec(s))[i].keyframe.frame
                == clamp_i32(frame_of(s[i].keyframe.timestamp as int)),
        forall|i: int|
            0 <= i < s.len() && s[i].keyframe.frame == clamp_i32(
                frame_of(s[i].keyframe.timestamp as int),
            ) ==> #[trigger] reverse_spec(reverse_spec(s))[i] == s[i],
{
    let tp = time_proj();
    let lo = min_of(s, tp);
    let hi = max_of(s, tp);
    let r1 = reverse_spec(s);
    let r2 = reverse_spec(r1);
    if s.len() > 0 {
        assert forall|j: int| 0 <= j < s.len() implies i64::MIN <= #[trigger] tp(s[j])
            <= i64::MAX by {
            assert(tp(s[j]) == s[j].keyframe.timestamp as int);
        }
        crate::stats::lemma_extrema_within(s, tp, i64::MIN as int, i64::MAX as int);
        assert forall|i: int| 0 <= i < s.len() implies #[trigger] tp(r1[i]) == (hi + lo) - tp(
            s[i],
        ) by {
            lemma_extrema_bound(s, tp, i);
            let t = s[i].keyframe.timestamp as int;
            assert(tp(s[i]) == t);
            assert(r1[i].keyframe == reversed(s[i].keyframe, lo, hi));
            assert(lo <= t <= hi);
            assert(lo <= hi - t + lo <= hi);
            assert(clamp_i64(hi - t + lo) as int == hi - t + lo);
            assert(tp(r1[i]) == r1[i].keyframe.timestamp as int);
        }
        lemma_extrema_affine(s, r1, hi + lo, tp);
        assert(min_of(r1, tp) == lo);
        assert(max_of(r1, tp) == hi);
        assert forall|i: int| 0 <= i < s.len() implies #[trigger] r2[i].keyframe.timestamp
            == s[i].keyframe.timestamp by {
            lemma_extrema_bound(s, tp, i);
            let t = s[i].keyframe.timestamp as int;
            assert(tp(s[i]) == t);
            assert(lo <= t <= hi);
            assert(r1[i].keyframe == reversed(s[i].keyframe, lo, hi));
            assert(r1[i].keyframe.timestamp as int == hi - t + lo);
            assert(r2[i].keyframe == reversed(r1[i].keyframe, lo, hi));
            assert(hi - (hi - t + lo) + lo == t);
            assert(clamp_i64(t) as int == t);
        }
        assert forall|i: int| 0 <= i < s.len() implies #[trigger] r2[i].keyframe.frame
            == clamp_i32(frame_of(s[i].keyframe.timestamp as int)) by {
            lemma_extrema_bound(s, tp, i);
            let k = s[i].keyframe;
            let t = k.timestamp as int;
            assert(tp(s[i]) == t);
            assert(lo <= t <= hi);
            assert(r1[i].keyframe == reversed(k, lo, hi));
            assert(r1[i].keyframe.timestamp as int == hi - t + lo);
            assert(r2[i].keyframe == reversed(r1[i].keyframe, lo, hi));
            assert(clamp_i64(hi - (hi - t + lo) + lo) == k.timestamp);
        }
        assert forall|i: int|
            0 <= i < s.len() && s[i].keyframe.frame == clamp_i32(
            frame_of(s[i].keyframe.timestamp as int),
        ) implies #[trigger] r2[i] == s[i] by {
            lemma_extrema_bound(s, tp, i);
            let k = s[i].keyframe;
            let t = k.timestamp as int;
            assert(tp(s[i]) == t);
            assert(lo <= t <= hi);
            assert(r1[i].keyframe == reversed(k, lo, hi));
            assert(r1[i].keyframe.timestamp as int == hi - t + lo);
            assert(r2[i].keyframe == reversed(r1[i].keyframe, lo, hi));
            assert(clamp_i64(hi - (hi - t + lo) + lo) == k.timestamp);
            assert(r2[i].keyframe == k);
            assert(r2[i] == Entry { id: s[i].id, keyframe: k });
        }
    }
}

/// On a collection whose frame indices already satisfy the 30
/// frames-per-second contract, reversing the path twice restores it whole.
pub proof fn lemma_reverse_involution_synchronised(s: Seq<Entry>)
    requires
        forall|i: int|
            0 <= i < s.len() ==> #[trigger] s[i].keyframe.frame == clamp_i32(
                frame_of(s[i].keyframe.timestamp as int),
            ),
    ensures
        reverse_spec(reverse_spec(s)) == s,
{
    lemma_reverse_involution(s);
    let r2 = reverse_spec(reverse_spec(s));
    assert(r2 =~= s);
}

/// Smoothing keeps the sorted collection's identifiers, place for place.
pub proof fn lemma_smooth_preserves_keys(s: Seq<Entry>, w: int)
    ensures
        smooth_spec(s, w).len() == s.len(),
        forall|i: int| 0 <= i < s.len() ==> smooth_spec(s, w)[i].id == s[i].id,
{
}

/// A bounded mirror is an involution: mirroring the same axis about its
/// path-wide bounds twice restores the original collection exactly, flips
/// included.
pub proof fn lemma_mirror_bounded_involution(
    s: Seq<Entry>,
    a: Axis,
    flip_pitch: bool,
    flip_yaw: bool,
    flip_roll: bool,
)
    ensures
        mirror_spec(
            mirror_spec(s, a, flip_pitch, flip_yaw, flip_roll, true),
            a,
            flip_pitch,
            flip_yaw,
            flip_roll,
            true,
        ) == s,
{
    let f = axis_proj(a);
    let lo = min_of(s, f);
    let hi = max_of(s, f);
    let m1 = mirror_spec(s, a, flip_pitch, flip_yaw, flip_roll, true);
    let m2 = mirror_spec(m1, a, flip_pitch, flip_yaw, flip_roll, true);
    if s.len() > 0 {
        assert forall|j: int| 0 <= j < s.len() implies i64::MIN <= #[trigger] f(s[j])
            <= i64::MAX by {
            lemma_axis_field(s[j], a);
        }
        crate::stats::lemma_extrema_within(s, f, i64::MIN as int, i64::MAX as int);
        assert forall|i: int| 0 <= i < s.len() implies #[trigger] f(m1[i]) == (hi + lo) - f(
            s[i],
        ) by {
            lemma_extrema_bound(s, f, i);
            lemma_axis_field(s[i], a);
            lemma_axis_field(m1[i], a);
            let k = s[i].keyframe;
            let c = axis_coord(k.position, a) as int;
            assert(f(s[i]) == c);
            assert(lo <= c <= hi);
            assert(m1[i].keyframe == mirrored(k, a, flip_pitch, flip_yaw, flip_roll, true, lo, hi));
            assert(clamp_i64(lo + hi - c) as int == lo + hi - c);
            lemma_axis_slot(k.position, a, clamp_i64(lo + hi - c));
        }
        lemma_extrema_affine(s, m1, hi + lo, f);
        assert(min_of(m1, f) == lo);
        assert(max_of(m1, f) == hi);
        assert forall|i: int| 0 <= i < s.len() implies m2[i] == s[i] by {
            lemma_extrema_bound(s, f, i);
            lemma_axis_field(s[i], a);
            let k = s[i].keyframe;
            let c = axis_coord(k.position, a);
            assert(lo <= c as int <= hi);
            let k1 = mirrored(k, a, flip_pitch, flip_yaw, flip_roll, true, lo, hi);
            let k2 = mirrored(k1, a, flip_pitch, flip_yaw, flip_roll, true, lo, hi);
            assert(m1[i].keyframe == k1);
            assert(m2[i].keyframe == k2);
            lemma_wrap_neg_involution_i32(k.rotation.pitch);
            lemma_wrap_neg_involution_i32(k.rotation.roll);
            lemma_wrap_neg_involution_i32(k.rotation.yaw);
            let nc = clamp_i64(lo + hi - c);
            assert(nc as int == lo + hi - c);
            lemma_axis_slot(k.position, a, nc);
            assert(axis_coord(k1.position, a) == nc);
            assert(clamp_i64(lo + hi - nc) == c);
            lemma_axis_slot(k1.position, a, c);
            assert(k2.position == with_axis_coord(k1.position, a, c));
            lemma_axis_double(k.position, a, nc);
            assert(k2.position == k.position);
            assert(k2 == k);
            assert(m2[i] == Entry { id: s[i].id, keyframe: k });
        }
    }
    assert(m2 =~= s);
}

/// The axis projection of an entry is its keyframe's chosen coordinate.
proof fn lemma_axis_field(e: Entry, a: Axis)
    ensures
        axis_proj(a)(e) == axis_coord(e.keyframe.position, a) as int,
{
    match a {
        Axis::X => assert(axis_proj(a)(e) == e.keyframe.position.x as int),
        Axis::Y => assert(axis_proj(a)(e) == e.keyframe.position.y as int),
        Axis::Z => assert(axis_proj(a)(e) == e.keyframe.position.z as int),
    }
}

/// Replacing the chosen coordinate sets exactly that coordinate.
proof fn lemma_axis_slot(p: crate::model::Position, a: Axis, c: i64)
    ensures
        axis_coord(with_axis_coord(p, a, c), a) == c,
{
}

/// Replacing the chosen coordinate twice, the second time with the original
/// value, restores the position.
proof fn lemma_axis_double(p: crate::model::Position, a: Axis, c1: i64)
    ensures
        with_axis_coord(with_axis_coord(p, a, c1), a, axis_coord(p, a)) == p,
{
}

/// Smoothing with a window size of one or zero is the identity: every window
/// is the keyframe itself, so position and field of view are unchanged.
pub proof fn lemma_smoothing_identity(s: Seq<Entry>, w: int)
    requires
        0 <= w <= 1,
    ensures
        smooth_spec(s, w) == s,
{
    let out = smooth_spec(s, w);
    assert forall|i: int| 0 <= i < s.len() implies out[i] == s[i] by {
        assert(w / 2 == 0);
        assert(win_start(i, w) == i);
        assert(win_end(i, w, s.len() as int) == i + 1);
        lemma_window_of_one(s, i, w);
        assert(out[i] == Entry { id: s[i].id, keyframe: s[i].keyframe });
    }
    assert(out =~= s);
}

/// A one-element window averages to the element itself, in every quantity.
proof fn lemma_window_of_one(s: Seq<Entry>, i: int, w: int)
    requires
        0 <= i < s.len(),
        w / 2 == 0,
        0 <= w,
    ensures
        smoothed_at(s, w, i) == s[i].keyframe,
{
    let n = s.len() as int;
    assert(win_start(i, w) == i);
    assert(win_end(i, w, n) == i + 1);
    lemma_avg_of_single(s, i, w, crate::smoothing::fov_proj());
    lemma_avg_of_single(s, i, w, crate::smoothing::px_proj());
    lemma_avg_of_single(s, i, w, crate::smoothing::py_proj());
    lemma_avg_of_single(s, i, w, crate::smoothing::pz_proj());
    assert(crate::smoothing::fov_proj()(s[i]) == s[i].keyframe.fov as int);
    assert(clamp_i64(s[i].keyframe.fov as int) == s[i].keyframe.fov);
    assert(clamp_i64(s[i].keyframe.position.x as int) == s[i].keyframe.position.x);
    assert(clamp_i64(s[i].keyframe.position.y as int) == s[i].keyframe.position.y);
    assert(clamp_i64(s[i].keyframe.position.z as int) == s[i].keyframe.position.z);
}

/// The average over a single element is the element's own value.
proof fn lemma_avg_of_single(s: Seq<Entry>, i: int, w: int, f: spec_fn(Entry) -> int)
    requires
        0 <= i < s.len(),
        w / 2 == 0,
        0 <= w,
    ensures
        window_avg(s, w, i, f) == f(s[i]),
{
    let n = s.len() as int;
    assert(win_start(i, w) == i);
    assert(win_end(i, w, n) == i + 1);
    assert(sum_over(s, i, i + 1, f) == f(s[i]) + sum_over(s, i + 1, i + 1, f));
    assert(sum_over(s, i + 1, i + 1, f) == 0);
    lemma_div_trunc_multiple(f(s[i]), 1);
    assert(f(s[i]) * 1 == f(s[i]));
}

} // verus!

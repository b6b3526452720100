//! The mirror transform: reflection of one position axis, either about zero
//! or about the midpoint of that axis's observed range across the whole
//! path, with independent rotation-component flips.

use vstd::prelude::*;
use vstd::string::StringExecFns;
use crate::model::{CameraPath, Entry, Keyframe, Position, Rotation, TransformError};
use crate::stats::{extrema, max_of, min_of};
use crate::units::{clamp_i64, neg_i32, neg_i64, wrap_neg_i32, wrap_neg_i64};

verus! {

/// The position axis a mirror reflects.
#[derive(Clone, Copy, PartialEq, Eq, Structural, Debug)]
pub enum Axis {
    X,
    Y,
    Z,
}

/// Which axis an axis-name argument denotes, if any.
pub open spec fn axis_of(s: Seq<char>) -> Option<Axis> {
    if s == "x"@ {
        Some(Axis::X)
    } else if s == "y"@ {
        Some(Axis::Y)
    } else if s == "z"@ {
        Some(Axis::Z)
    } else {
        None
    }
}

/// The chosen axis's coordinate, as the quantity extrema are taken over.
pub open spec fn axis_proj(a: Axis) -> spec_fn(Entry) -> int {
    match a {
        Axis::X => |e: Entry| e.keyframe.position.x as int,
        Axis::Y => |e: Entry| e.keyframe.position.y as int,
        Axis::Z => |e: Entry| e.keyframe.position.z as int,
    }
}

/// The chosen axis's coordinate of a position.
pub open spec fn axis_coord(p: Position, a: Axis) -> i64 {
    match a {
        Axis::X => p.x,
        Axis::Y => p.y,
        Axis::Z => p.z,
    }
}

/// The keyframe's position with the chosen axis's coordinate replaced.
pub open spec fn with_axis_coord(p: Position, a: Axis, c: i64) -> Position {
    match a {
        Axis::X => Position { x: c, y: p.y, z: p.z },
        Axis::Y => Position { x: p.x, y: c, z: p.z },
        Axis::Z => Position { x: p.x, y: p.y, z: c },
    }
}

/// One keyframe mirrored: the chosen coordinate reflected about the midpoint
/// of `(lo, hi)` when `bounded` (as `lo + hi - c`, which is `2 * center - c`
/// exactly), negated otherwise; each flagged rotation component negated,
/// unconditionally on the axis and boundedness choice.
pub open spec fn mirrored(
    k: Keyframe,
    a: Axis,
    flip_pitch: bool,
    flip_yaw: bool,
    flip_roll: bool,
    bounded: bool,
    lo: int,
    hi: int,
) -> Keyframe {
    let c = axis_coord(k.position, a);
    let nc = if bounded {
        clamp_i64(lo + hi - c)
    } else {
        wrap_neg_i64(c)
    };
    Keyframe {
        fov: k.fov,
        frame: k.frame,
        position: with_axis_coord(k.position, a, nc),
        rotation: Rotation {
            pitch: if flip_pitch {
                wrap_neg_i32(k.rotation.pitch)
            } else {
                k.rotation.pitch
            },
            roll: if flip_roll {
                wrap_neg_i32(k.rotation.roll)
            } else {
                k.rotation.roll
            },
            yaw: if flip_yaw {
                wrap_neg_i32(k.rotation.yaw)
            } else {
                k.rotation.yaw
            },
        },
        timestamp: k.timestamp,
        weight: k.weight,
    }
}

/// The whole collection mirrored. When `bounded`, the reflection bounds are
/// the path-wide extrema of the chosen axis's coordinate, `(0, 0)` for an
/// empty collection; identifiers and order are untouched.
pub open spec fn mirror_spec(
    s: Seq<Entry>,
    a: Axis,
    flip_pitch: bool,
    flip_yaw: bool,
    flip_roll: bool,
    bounded: bool,
) -> Seq<Entry> {
    let lo = if bounded {
        min_of(s, axis_proj(a))
    } else {
        0
    };
    let hi = if bounded {
        max_of(s, axis_proj(a))
    } else {
        0
    };
    Seq::new(
        s.len(),
        |i: int|
            Entry {
                id: s[i].id,
                keyframe: mirrored(s[i].keyframe, a, flip_pitch, flip_yaw, flip_roll, bounded, lo, hi),
            },
    )
}

/// Reads an axis name: `"x"`, `"y"` or `"z"`. Any other value fails with
/// `InvalidParameter`, naming the offending value.
pub fn parse_axis(axis: &String) -> (r: Result<Axis, TransformError>)
    ensures
        axis_of(axis@) matches Some(a) ==> r == Ok::<Axis, TransformError>(a),
        axis_of(axis@) is None ==> (r matches Err(TransformError::InvalidParameter(m)) && m@
            == axis@),
{
    let xs = String::from_str("x");
    let ys = String::from_str("y");
    let zs = String::from_str("z");
    if *axis == xs {
        Ok(Axis::X)
    } else if *axis == ys {
        Ok(Axis::Y)
    } else if *axis == zs {
        Ok(Axis::Z)
    } else {
        Err(TransformError::InvalidParameter(axis.clone()))
    }
}

/// The path-wide least and greatest coordinate of the chosen axis, `(0, 0)`
/// for an empty collection.
fn axis_extrema(path: &CameraPath, a: Axis) -> (r: (i64, i64))
    ensures
        r.0 == min_of(path@, axis_proj(a)),
        r.1 == max_of(path@, axis_proj(a)),
{
    match a {
        Axis::X => extrema(path, Ghost(axis_proj(Axis::X)), |e: &Entry| -> (v: i64)
            ensures v == e.keyframe.position.x,
            { e.keyframe.position.x }),
        Axis::Y => extrema(path, Ghost(axis_proj(Axis::Y)), |e: &Entry| -> (v: i64)
            ensures v == e.keyframe.position.y,
            { e.keyframe.position.y }),
        Axis::Z => extrema(path, Ghost(axis_proj(Axis::Z)), |e: &Entry| -> (v: i64)
            ensures v == e.keyframe.position.z,
            { e.keyframe.position.z }),
    }
}

/// Mirrors the path. The chosen axis's coordinate is reflected about the
/// midpoint of its path-wide range when `bounded`, about zero otherwise;
/// each flagged rotation component is negated in every keyframe. An axis
/// name outside `x`/`y`/`z` fails with `InvalidParameter`, naming the value.
pub fn transform_mirror(
    path: &CameraPath,
    axis: &String,
    flip_pitch: bool,
    flip_yaw: bool,
    flip_roll: bool,
    bounded: bool,
) -> (out: Result<CameraPath, TransformError>)
    ensures
        axis_of(axis@) matches Some(a) ==> (out matches Ok(p) && p@ == mirror_spec(
            path@,
            a,
            flip_pitch,
            flip_yaw,
            flip_roll,
            bounded,
        )),
        axis_of(axis@) is None ==> (out matches Err(TransformError::InvalidParameter(m)) && m@
            == axis@),
{
    let a = match parse_axis(axis) {
        Ok(a) => a,
        Err(e) => {
            return Err(e);
        },
    };
    let (lo, hi) = if bounded {
        axis_extrema(path, a)
    } else {
        (0i64, 0i64)
    };
    let ghost goal = mirror_spec(path@, a, flip_pitch, flip_yaw, flip_roll, bounded);
    let n = path.entries.len();
    let mut entries: Vec<Entry> = Vec::new();
    let mut i: usize = 0;
    while i < n
        invariant
            n == path@.len(),
            i <= n,
            entries@.len() == i,
            lo as int == if bounded { min_of(path@, axis_proj(a)) } else { 0 },
            hi as int == if bounded { max_of(path@, axis_proj(a)) } else { 0 },
            goal == mirror_spec(path@, a, flip_pitch, flip_yaw, flip_roll, bounded),
            forall|j: int| 0 <= j < i ==> entries@[j] == goal[j],
        decreases n - i,
    {
        let e = &path.entries[i];
        let k = e.keyframe;
        let c: i64 = match a {
            Axis::X => k.position.x,
            Axis::Y => k.position.y,
            Axis::Z => k.position.z,
        };
        let nc: i64 = if bounded {
            let q: i128 = lo as i128 + hi as i128 - c as i128;
            if q > i64::MAX as i128 {
                i64::MAX
            } else if q < i64::MIN as i128 {
                i64::MIN
            } else {
                q as i64
            }
        } else {
            neg_i64(c)
        };
        let pos = match a {
            Axis::X => Position { x: nc, y: k.position.y, z: k.position.z },
            Axis::Y => Position { x: k.position.x, y: nc, z: k.position.z },
            Axis::Z => Position { x: k.position.x, y: k.position.y, z: nc },
        };
        let rot = Rotation {
            pitch: if flip_pitch {
                neg_i32(k.rotation.pitch)
            } else {
                k.rotation.pitch
            },
            roll: if flip_roll {
                neg_i32(k.rotation.roll)
            } else {
                k.rotation.roll
            },
            yaw: if flip_yaw {
                neg_i32(k.rotation.yaw)
            } else {
                k.rotation.yaw
            },
        };
        let new_k = Keyframe { position: pos, rotation: rot, ..k };
        proof {
            assert(new_k == mirrored(
                k,
                a,
                flip_pitch,
                flip_yaw,
                flip_roll,
                bounded,
                if bounded { min_of(path@, axis_proj(a)) } else { 0 },
                if bounded { max_of(path@, axis_proj(a)) } else { 0 },
            ));
        }
        entries.push(Entry { id: e.id.clone(), keyframe: new_k });
        i += 1;
    }
    proof {
        assert(entries@ =~= goal);
    }
    Ok(CameraPath { entries })
}

} // verus!

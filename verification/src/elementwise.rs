//! Elementwise transforms: field-of-view add/multiply/set, position
//! offset/scale, rotation offset, speed and time offset. Each visits every
//! keyframe independently and returns a new collection with the same
//! identifiers in the same order.

use vstd::prelude::*;
use vstd::string::StringExecFns;
use crate::model::{CameraPath, Entry, Keyframe, Position, Ratio, Rotation, TransformError};
use crate::units::{
    add_i32, add_i64, clamp_i32, clamp_i64, degrees_to_engine_units, div_trunc, engine_units_of,
    frame_for, frame_of, scale_value, wrap_add_i32, wrap_add_i64,
};

verus! {

/// Payload of the error raised when a ratio parameter has a zero denominator.
pub open spec fn msg_zero_denominator() -> Seq<char> {
    "zero denominator"@
}

/// Payload of the error raised when the speed multiplier is zero.
pub open spec fn msg_zero_multiplier() -> Seq<char> {
    "zero multiplier"@
}

/// The keyframe with `a` added (wrapping) to its field of view.
pub open spec fn fov_added(k: Keyframe, a: i64) -> Keyframe {
    Keyframe {
        fov: wrap_add_i64(k.fov, a),
        frame: k.frame,
        position: k.position,
        rotation: k.rotation,
        timestamp: k.timestamp,
        weight: k.weight,
    }
}

/// The keyframe with its field of view multiplied by `num / den`
/// (truncated toward zero, saturated).
pub open spec fn fov_scaled(k: Keyframe, num: i64, den: i64) -> Keyframe {
    Keyframe {
        fov: clamp_i64(div_trunc(k.fov as int * num as int, den as int)),
        frame: k.frame,
        position: k.position,
        rotation: k.rotation,
        timestamp: k.timestamp,
        weight: k.weight,
    }
}

/// The keyframe with its field of view replaced by `v`.
pub open spec fn fov_set_to(k: Keyframe, v: i64) -> Keyframe {
    Keyframe {
        fov: v,
        frame: k.frame,
        position: k.position,
        rotation: k.rotation,
        timestamp: k.timestamp,
        weight: k.weight,
    }
}

/// The keyframe moved componentwise (wrapping) by `(dx, dy, dz)`.
pub open spec fn position_moved(k: Keyframe, dx: i64, dy: i64, dz: i64) -> Keyframe {
    Keyframe {
        fov: k.fov,
        frame: k.frame,
        position: Position {
            x: wrap_add_i64(k.position.x, dx),
            y: wrap_add_i64(k.position.y, dy),
            z: wrap_add_i64(k.position.z, dz),
        },
        rotation: k.rotation,
        timestamp: k.timestamp,
        weight: k.weight,
    }
}

/// The keyframe with each position coordinate multiplied by its ratio
/// (truncated toward zero, saturated). Negative factors mirror the path
/// around the origin on that axis, intentionally.
pub open spec fn position_scaled(k: Keyframe, sx: Ratio, sy: Ratio, sz: Ratio) -> Keyframe {
    Keyframe {
        fov: k.fov,
        frame: k.frame,
        position: Position {
            x: clamp_i64(div_trunc(k.position.x as int * sx.num as int, sx.den as int)),
            y: clamp_i64(div_trunc(k.position.y as int * sy.num as int, sy.den as int)),
            z: clamp_i64(div_trunc(k.position.z as int * sz.num as int, sz.den as int)),
        },
        rotation: k.rotation,
        timestamp: k.timestamp,
        weight: k.weight,
    }
}

/// The keyframe rotated (wrapping, never normalised) by the given deltas in
/// engine angular units.
pub open spec fn rotation_shifted(k: Keyframe, dp: i32, dy: i32, dr: i32) -> Keyframe {
    Keyframe {
        fov: k.fov,
        frame: k.frame,
        position: k.position,
        rotation: Rotation {
            pitch: wrap_add_i32(k.rotation.pitch, dp),
            roll: wrap_add_i32(k.rotation.roll, dr),
            yaw: wrap_add_i32(k.rotation.yaw, dy),
        },
        timestamp: k.timestamp,
        weight: k.weight,
    }
}

/// The keyframe with its timestamp divided by `num / den` (that is,
/// multiplied by `den / num`), the frame index resynchronised.
pub open spec fn speed_scaled(k: Keyframe, num: i64, den: i64) -> Keyframe {
    let t = clamp_i64(div_trunc(k.timestamp as int * den as int, num as int));
    Keyframe {
        fov: k.fov,
        frame: clamp_i32(frame_of(t as int)),
        position: k.position,
        rotation: k.rotation,
        timestamp: t,
        weight: k.weight,
    }
}

/// The keyframe shifted in time (wrapping) by `offset` microseconds, the
/// frame index resynchronised.
pub open spec fn time_shifted(k: Keyframe, offset: i64) -> Keyframe {
    let t = wrap_add_i64(k.timestamp, offset);
    Keyframe {
        fov: k.fov,
        frame: clamp_i32(frame_of(t as int)),
        position: k.position,
        rotation: k.rotation,
        timestamp: t,
        weight: k.weight,
    }
}

/// The collection with `f` applied to each keyframe, identifiers untouched.
pub open spec fn map_keyframes(s: Seq<Entry>, f: spec_fn(Keyframe) -> Keyframe) -> Seq<Entry> {
    Seq::new(s.len(), |i: int| Entry { id: s[i].id, keyframe: f(s[i].keyframe) })
}

/// Adds `add_value` to every keyframe's field of view.
pub fn transform_fov_add(path: &CameraPath, add_value: i64) -> (out: CameraPath)
    ensures
        out@ == map_keyframes(path@, |k: Keyframe| fov_added(k, add_value)),
        out@.len() == path@.len(),
        forall|i: int| 0 <= i < path@.len() ==> out@[i].id == path@[i].id,
{
    let ghost goal = map_keyframes(path@, |k: Keyframe| fov_added(k, add_value));
    let n = path.entries.len();
    let mut entries: Vec<Entry> = Vec::new();
    let mut i: usize = 0;
    while i < n
        invariant
            n == path@.len(),
            i <= n,
            entries@.len() == i,
            goal == map_keyframes(path@, |k: Keyframe| fov_added(k, add_value)),
            forall|j: int| 0 <= j < i ==> entries@[j] == goal[j],
        decreases n - i,
    {
        let e = &path.entries[i];
        let k = e.keyframe;
        let new_k = Keyframe { fov: add_i64(k.fov, add_value), ..k };
        entries.push(Entry { id: e.id.clone(), keyframe: new_k });
        i += 1;
    }
    proof {
        assert(entries@ =~= goal);
    }
    CameraPath { entries }
}

/// Multiplies every keyframe's field of view by the ratio. Fails with
/// `InvalidParameter` exactly when the ratio has a zero denominator.
pub fn transform_fov_multiply(path: &CameraPath, multiplier: Ratio) -> (out: Result<
    CameraPath,
    TransformError,
>)
    ensures
        multiplier.is_valid() ==> (out matches Ok(p) && p@ == map_keyframes(
            path@,
            |k: Keyframe| fov_scaled(k, multiplier.num, multiplier.den),
        )),
        !multiplier.is_valid() ==> (out matches Err(TransformError::InvalidParameter(m))
            && m@ == msg_zero_denominator()),
{
    if multiplier.den == 0 {
        return Err(TransformError::InvalidParameter(String::from_str("zero denominator")));
    }
    let ghost goal = map_keyframes(path@, |k: Keyframe| fov_scaled(k, multiplier.num, multiplier.den));
    let n = path.entries.len();
    let mut entries: Vec<Entry> = Vec::new();
    let mut i: usize = 0;
    while i < n
        invariant
            n == path@.len(),
            i <= n,
            entries@.len() == i,
            multiplier.den != 0,
            goal == map_keyframes(path@, |k: Keyframe| fov_scaled(k, multiplier.num, multiplier.den)),
            forall|j: int| 0 <= j < i ==> entries@[j] == goal[j],
        decreases n - i,
    {
        let e = &path.entries[i];
        let k = e.keyframe;
        let new_k = Keyframe { fov: scale_value(k.fov, multiplier.num, multiplier.den), ..k };
        entries.push(Entry { id: e.id.clone(), keyframe: new_k });
        i += 1;
    }
    proof {
        assert(entries@ =~= goal);
    }
    Ok(CameraPath { entries })
}

/// Sets every keyframe's field of view to `fov_value`.
pub fn transform_fov_set(path: &CameraPath, fov_value: i64) -> (out: CameraPath)
    ensures
        out@ == map_keyframes(path@, |k: Keyframe| fov_set_to(k, fov_value)),
        out@.len() == path@.len(),
        forall|i: int| 0 <= i < path@.len() ==> out@[i].id == path@[i].id,
{
    let ghost goal = map_keyframes(path@, |k: Keyframe| fov_set_to(k, fov_value));
    let n = path.entries.len();
    let mut entries: Vec<Entry> = Vec::new();
    let mut i: usize = 0;
    while i < n
        invariant
            n == path@.len(),
            i <= n,
            entries@.len() == i,
            goal == map_keyframes(path@, |k: Keyframe| fov_set_to(k, fov_value)),
            forall|j: int| 0 <= j < i ==> entries@[j] == goal[j],
        decreases n - i,
    {
        let e = &path.entries[i];
        let k = e.keyframe;
        let new_k = Keyframe { fov: fov_value, ..k };
        entries.push(Entry { id: e.id.clone(), keyframe: new_k });
        i += 1;
    }
    proof {
        assert(entries@ =~= goal);
    }
    CameraPath { entries }
}

/// Moves every keyframe's position componentwise by `(x, y, z)`.
pub fn transform_position_offset(path: &CameraPath, x: i64, y: i64, z: i64) -> (out: CameraPath)
    ensures
        out@ == map_keyframes(path@, |k: Keyframe| position_moved(k, x, y, z)),
        out@.len() == path@.len(),
        forall|i: int| 0 <= i < path@.len() ==> out@[i].id == path@[i].id,
{
    let ghost goal = map_keyframes(path@, |k: Keyframe| position_moved(k, x, y, z));
    let n = path.entries.len();
    let mut entries: Vec<Entry> = Vec::new();
    let mut i: usize = 0;
    while i < n
        invariant
            n == path@.len(),
            i <= n,
            entries@.len() == i,
            goal == map_keyframes(path@, |k: Keyframe| position_moved(k, x, y, z)),
            forall|j: int| 0 <= j < i ==> entries@[j] == goal[j],
        decreases n - i,
    {
        let e = &path.entries[i];
        let k = e.keyframe;
        let new_k = Keyframe {
            position: Position {
                x: add_i64(k.position.x, x),
                y: add_i64(k.position.y, y),
                z: add_i64(k.position.z, z),
            },
            ..k
        };
        entries.push(Entry { id: e.id.clone(), keyframe: new_k });
        i += 1;
    }
    proof {
        assert(entries@ =~= goal);
    }
    CameraPath { entries }
}

/// Multiplies every keyframe's position componentwise by the three ratios.
/// Fails with `InvalidParameter` exactly when a ratio has a zero denominator.
pub fn transform_position_scale(path: &CameraPath, x: Ratio, y: Ratio, z: Ratio) -> (out: Result<
    CameraPath,
    TransformError,
>)
    ensures
        x.is_valid() && y.is_valid() && z.is_valid() ==> (out matches Ok(p) && p@ == map_keyframes(
            path@,
            |k: Keyframe| position_scaled(k, x, y, z),
        )),
        !(x.is_valid() && y.is_valid() && z.is_valid()) ==> (out matches Err(
            TransformError::InvalidParameter(m),
        ) && m@ == msg_zero_denominator()),
{
    if x.den == 0 || y.den == 0 || z.den == 0 {
        return Err(TransformError::InvalidParameter(String::from_str("zero denominator")));
    }
    let ghost goal = map_keyframes(path@, |k: Keyframe| position_scaled(k, x, y, z));
    let n = path.entries.len();
    let mut entries: Vec<Entry> = Vec::new();
    let mut i: usize = 0;
    while i < n
        invariant
            n == path@.len(),
            i <= n,
            entries@.len() == i,
            x.den != 0 && y.den != 0 && z.den != 0,
            goal == map_keyframes(path@, |k: Keyframe| position_scaled(k, x, y, z)),
            forall|j: int| 0 <= j < i ==> entries@[j] == goal[j],
        decreases n - i,
    {
        let e = &path.entries[i];
        let k = e.keyframe;
        let new_k = Keyframe {
            position: Position {
                x: scale_value(k.position.x, x.num, x.den),
                y: scale_value(k.position.y, y.num, y.den),
                z: scale_value(k.position.z, z.num, z.den),
            },
            ..k
        };
        entries.push(Entry { id: e.id.clone(), keyframe: new_k });
        i += 1;
    }
    proof {
        assert(entries@ =~= goal);
    }
    Ok(CameraPath { entries })
}

/// The pitch/yaw/roll deltas actually applied by a rotation offset: the
/// arguments as given, or converted from degrees to engine angular units.
pub open spec fn rotation_deltas(pitch: i32, yaw: i32, roll: i32, use_degrees: bool) -> (i32, i32, i32) {
    if use_degrees {
        (
            clamp_i32(engine_units_of(pitch as int)),
            clamp_i32(engine_units_of(yaw as int)),
            clamp_i32(engine_units_of(roll as int)),
        )
    } else {
        (pitch, yaw, roll)
    }
}

/// Adds the same rotation deltas to every keyframe, wrapping, without
/// normalisation. When `use_degrees` is set, the deltas are first converted
/// from degrees to engine angular units (182.04 units per degree, truncated
/// toward zero).
pub fn transform_rotation_offset(
    path: &CameraPath,
    pitch: i32,
    yaw: i32,
    roll: i32,
    use_degrees: bool,
) -> (out: CameraPath)
    ensures
        out@ == map_keyframes(
            path@,
            |k: Keyframe|
                rotation_shifted(
                    k,
                    rotation_deltas(pitch, yaw, roll, use_degrees).0,
                    rotation_deltas(pitch, yaw, roll, use_degrees).1,
                    rotation_deltas(pitch, yaw, roll, use_degrees).2,
                ),
        ),
        out@.len() == path@.len(),
        forall|i: int| 0 <= i < path@.len() ==> out@[i].id == path@[i].id,
{
    let (dp, dy, dr): (i32, i32, i32) = if use_degrees {
        (degrees_to_engine_units(pitch), degrees_to_engine_units(yaw), degrees_to_engine_units(roll))
    } else {
        (pitch, yaw, roll)
    };
    proof {
        assert((dp, dy, dr) == rotation_deltas(pitch, yaw, roll, use_degrees));
    }
    let ghost goal = map_keyframes(path@, |k: Keyframe| rotation_shifted(k, dp, dy, dr));
    let n = path.entries.len();
    let mut entries: Vec<Entry> = Vec::new();
    let mut i: usize = 0;
    while i < n
        invariant
            n == path@.len(),
            i <= n,
            entries@.len() == i,
            goal == map_keyframes(path@, |k: Keyframe| rotation_shifted(k, dp, dy, dr)),
            forall|j: int| 0 <= j < i ==> entries@[j] == goal[j],
        decreases n - i,
    {
        let e = &path.entries[i];
        let k = e.keyframe;
        let new_k = Keyframe {
            rotation: Rotation {
                pitch: add_i32(k.rotation.pitch, dp),
                roll: add_i32(k.rotation.roll, dr),
                yaw: add_i32(k.rotation.yaw, dy),
            },
            ..k
        };
        entries.push(Entry { id: e.id.clone(), keyframe: new_k });
        i += 1;
    }
    proof {
        assert(entries@ =~= goal);
    }
    CameraPath { entries }
}

/// Divides every keyframe's timestamp by the speed multiplier and
/// resynchronises the frame index. Fails with `InvalidParameter` exactly
/// when the multiplier is zero or has a zero denominator.
pub fn transform_speed(path: &CameraPath, multiplier: Ratio) -> (out: Result<
    CameraPath,
    TransformError,
>)
    ensures
        multiplier.den == 0 ==> (out matches Err(TransformError::InvalidParameter(m)) && m@
            == msg_zero_denominator()),
        multiplier.den != 0 && multiplier.num == 0 ==> (out matches Err(
            TransformError::InvalidParameter(m),
        ) && m@ == msg_zero_multiplier()),
        multiplier.den != 0 && multiplier.num != 0 ==> (out matches Ok(p) && p@ == map_keyframes(
            path@,
            |k: Keyframe| speed_scaled(k, multiplier.num, multiplier.den),
        )),
{
    if multiplier.den == 0 {
        return Err(TransformError::InvalidParameter(String::from_str("zero denominator")));
    }
    if multiplier.num == 0 {
        return Err(TransformError::InvalidParameter(String::from_str("zero multiplier")));
    }
    let ghost goal = map_keyframes(path@, |k: Keyframe| speed_scaled(k, multiplier.num, multiplier.den));
    let n = path.entries.len();
    let mut entries: Vec<Entry> = Vec::new();
    let mut i: usize = 0;
    while i < n
        invariant
            n == path@.len(),
            i <= n,
            entries@.len() == i,
            multiplier.num != 0 && multiplier.den != 0,
            goal == map_keyframes(path@, |k: Keyframe| speed_scaled(k, multiplier.num, multiplier.den)),
            forall|j: int| 0 <= j < i ==> entries@[j] == goal[j],
        decreases n - i,
    {
        let e = &path.entries[i];
        let k = e.keyframe;
        let t = scale_value(k.timestamp, multiplier.den, multiplier.num);
        let new_k = Keyframe { timestamp: t, frame: frame_for(t), ..k };
        entries.push(Entry { id: e.id.clone(), keyframe: new_k });
        i += 1;
    }
    proof {
        assert(entries@ =~= goal);
    }
    Ok(CameraPath { entries })
}

/// Shifts every keyframe's timestamp by `offset_micros` (which may be
/// negative; negative timestamps are not rejected) and resynchronises the
/// frame index.
pub fn transform_time_offset(path: &CameraPath, offset_micros: i64) -> (out: CameraPath)
    ensures
        out@ == map_keyframes(path@, |k: Keyframe| time_shifted(k, offset_micros)),
        out@.len() == path@.len(),
        forall|i: int| 0 <= i < path@.len() ==> out@[i].id == path@[i].id,
{
    let ghost goal = map_keyframes(path@, |k: Keyframe| time_shifted(k, offset_micros));
    let n = path.entries.len();
    let mut entries: Vec<Entry> = Vec::new();
    let mut i: usize = 0;
    while i < n
        invariant
            n == path@.len(),
            i <= n,
            entries@.len() == i,
            goal == map_keyframes(path@, |k: Keyframe| time_shifted(k, offset_micros)),
            forall|j: int| 0 <= j < i ==> entries@[j] == goal[j],
        decreases n - i,
    {
        let e = &path.entries[i];
        let k = e.keyframe;
        let t = add_i64(k.timestamp, offset_micros);
        let new_k = Keyframe { timestamp: t, frame: frame_for(t), ..k };
        entries.push(Entry { id: e.id.clone(), keyframe: new_k });
        i += 1;
    }
    proof {
        assert(entries@ =~= goal);
    }
    CameraPath { entries }
}

} // verus!

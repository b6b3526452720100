//! Unit and time utilities: the fixed-point arithmetic the transforms are
//! built from, degree-to-engine-unit conversion, and the timestamp-to-frame
//! synchronisation at a fixed 30 frames per second.

use vstd::prelude::*;
use vstd::math::abs;

verus! {

/// Frames per second of the frame index contract.
pub const FRAMES_PER_SECOND: i64 = 30;

/// Timestamps are fixed-point integers in microseconds.
pub const MICROS_PER_SECOND: i64 = 1_000_000;

/// One degree is 182.04 engine angular units, that is 4551/25 exactly.
pub const ENGINE_UNITS_PER_DEGREE_NUM: i64 = 4551;

/// Denominator of the engine-units-per-degree ratio.
pub const ENGINE_UNITS_PER_DEGREE_DEN: i64 = 25;

/// Integer division truncated toward zero, the policy of every fixed-point
/// scaling operation in this library.
pub open spec fn div_trunc(a: int, b: int) -> int
    recommends
        b != 0,
{
    let m = (abs(a) / abs(b)) as int;
    if (a < 0) <==> (b < 0) {
        m
    } else {
        -m
    }
}

/// Saturation at the `i64` range, the fixed-point analogue of a float
/// running off toward infinity.
pub open spec fn clamp_i64(v: int) -> i64 {
    if v > i64::MAX {
        i64::MAX
    } else if v < i64::MIN {
        i64::MIN
    } else {
        v as i64
    }
}

/// Saturation at the `i32` range, as a float-to-`i32` cast saturates.
pub open spec fn clamp_i32(v: int) -> i32 {
    if v > i32::MAX {
        i32::MAX
    } else if v < i32::MIN {
        i32::MIN
    } else {
        v as i32
    }
}

/// Two's-complement wrapping addition on `i64`.
pub open spec fn wrap_add_i64(a: i64, b: i64) -> i64 {
    if a + b > i64::MAX {
        (a + b - 0x1_0000_0000_0000_0000) as i64
    } else if a + b < i64::MIN {
        (a + b + 0x1_0000_0000_0000_0000) as i64
    } else {
        (a + b) as i64
    }
}

/// Two's-complement wrapping negation on `i64`.
pub open spec fn wrap_neg_i64(a: i64) -> i64 {
    if a == i64::MIN {
        i64::MIN
    } else {
        (0 - a) as i64
    }
}

/// Two's-complement wrapping addition on `i32`.
pub open spec fn wrap_add_i32(a: i32, b: i32) -> i32 {
    if a + b > i32::MAX {
        (a + b - 0x1_0000_0000) as i32
    } else if a + b < i32::MIN {
        (a + b + 0x1_0000_0000) as i32
    } else {
        (a + b) as i32
    }
}

/// Two's-complement wrapping negation on `i32`.
pub open spec fn wrap_neg_i32(a: i32) -> i32 {
    if a == i32::MIN {
        i32::MIN
    } else {
        (0 - a) as i32
    }
}

/// The frame index derived from a timestamp in microseconds: the timestamp
/// times 30 frames per second, rounded to the nearest frame with halves away
/// from zero, before saturation at the `i32` range.
pub open spec fn frame_of(t: int) -> int {
    if t >= 0 {
        (t * 30 + 500_000) / 1_000_000
    } else {
        -((-t * 30 + 500_000) / 1_000_000)
    }
}

/// A rotation offset given in whole degrees, taken to engine angular units:
/// the degree count times 4551/25, truncated toward zero, before saturation
/// at the `i32` range.
pub open spec fn engine_units_of(d: int) -> int {
    div_trunc(d * 4551, 25)
}

pub fn add_i64(a: i64, b: i64) -> (r: i64)
    ensures
        r == wrap_add_i64(a, b),
{
    a.wrapping_add(b)
}

pub fn neg_i64(a: i64) -> (r: i64)
    ensures
        r == wrap_neg_i64(a),
{
    (0i64).wrapping_sub(a)
}

pub fn add_i32(a: i32, b: i32) -> (r: i32)
    ensures
        r == wrap_add_i32(a, b),
{
    a.wrapping_add(b)
}

pub fn neg_i32(a: i32) -> (r: i32)
    ensures
        r == wrap_neg_i32(a),
{
    (0i32).wrapping_sub(a)
}

/// Truncated division under saturation: `v` times `num / den`, truncated
/// toward zero, saturated at the `i64` range.
pub fn scale_value(v: i64, num: i64, den: i64) -> (r: i64)
    requires
        den != 0,
    ensures
        r == clamp_i64(div_trunc(v as int * num as int, den as int)),
{
    proof {
        lemma_i64_mul_fits(v, num);
    }
    let p: i128 = (v as i128) * (num as i128);
    let d: i128 = den as i128;
    let q_opt = p.checked_div(d);
    proof {
        assert(p != i128::MIN && d != 0);
        assert(q_opt is Some && q_opt->0 == div_trunc(p as int, d as int)) by {
            lemma_checked_div_is_div_trunc(p, d);
        }
    }
    let q = q_opt.unwrap();
    if q > i64::MAX as i128 {
        i64::MAX
    } else if q < i64::MIN as i128 {
        i64::MIN
    } else {
        q as i64
    }
}

/// The product of two `i64` values stays well inside the `i128` range.
proof fn lemma_i64_mul_fits(x: i64, y: i64)
    ensures
        -0x4000_0000_0000_0000_0000_0000_0000_0000 <= (x as int) * (y as int)
            <= 0x4000_0000_0000_0000_0000_0000_0000_0000,
{
    let a = x as int;
    let b = y as int;
    assert(-0x4000_0000_0000_0000_0000_0000_0000_0000 <= a * b
        <= 0x4000_0000_0000_0000_0000_0000_0000_0000) by (nonlinear_arith)
        requires
            -0x8000_0000_0000_0000 <= a <= 0x7fff_ffff_ffff_ffff,
            -0x8000_0000_0000_0000 <= b <= 0x7fff_ffff_ffff_ffff,
    ;
}

/// `checked_div` on `i128` computes division truncated toward zero, and
/// succeeds whenever the dividend is above `i128::MIN` and the divisor is
/// nonzero.
pub proof fn lemma_checked_div_is_div_trunc(p: i128, d: i128)
    requires
        d != 0,
        p != i128::MIN,
    ensures
        i128::MIN <= div_trunc(p as int, d as int) <= i128::MAX,
        p.checked_div(d) == Some(div_trunc(p as int, d as int) as i128),
{
    let a = p as int;
    let b = d as int;
    let m = (abs(a) / abs(b)) as int;
    assert(abs(b) >= 1);
    assert(abs(a) / abs(b) <= abs(a)) by {
        vstd::arithmetic::div_mod::lemma_div_nonincreasing(abs(a) as int, abs(b) as int);
    }
    assert(0 <= m <= abs(a));
    if a > 0 && b > 0 {
        assert(a / b == m);
    } else if a < 0 && b < 0 {
        assert((a * -1) / (b * -1) == m);
    } else if a < 0 && b > 0 {
        assert(((a * -1) / b) * -1 == -m);
    } else if a > 0 && b < 0 {
        assert((a / (b * -1)) * -1 == -m);
    }
}

/// The frame index for a timestamp in microseconds, per the fixed
/// 30 frames-per-second contract.
pub fn frame_for(t: i64) -> (f: i32)
    ensures
        f == clamp_i32(frame_of(t as int)),
{
    if t >= 0 {
        let q: u128 = (t as u128) * 30 + 500_000;
        let f: u128 = q / 1_000_000;
        proof {
            assert(f == (t as int * 30 + 500_000) / 1_000_000);
        }
        if f > i32::MAX as u128 {
            i32::MAX
        } else {
            f as i32
        }
    } else {
        let m: u128 = (-(t as i128)) as u128;
        let q: u128 = m * 30 + 500_000;
        let f: u128 = q / 1_000_000;
        proof {
            assert(f == (-(t as int) * 30 + 500_000) / 1_000_000);
            assert(q < 0x1_0000_0000_0000_0000_0000);
            assert(f <= q) by {
                vstd::arithmetic::div_mod::lemma_div_nonincreasing(q as int, 1_000_000);
            }
        }
        if f >= 2_147_483_648u128 {
            i32::MIN
        } else {
            -(f as i32)
        }
    }
}

/// Degrees to engine angular units: the degree count times 4551/25 (that is
/// 182.04), truncated toward zero, saturated at the `i32` range.
pub fn degrees_to_engine_units(d: i32) -> (r: i32)
    ensures
        r == clamp_i32(engine_units_of(d as int)),
{
    let a: i64 = (d as i64) * 4551;
    let m: u64 = if a >= 0 {
        (a as u64) / 25
    } else {
        ((-a) as u64) / 25
    };
    proof {
        assert(m == abs(a as int) / abs(25));
    }
    if d >= 0 {
        if m > i32::MAX as u64 {
            i32::MAX
        } else {
            m as i32
        }
    } else {
        if m > 2_147_483_648u64 {
            i32::MIN
        } else if m == 2_147_483_648u64 {
            i32::MIN
        } else {
            -(m as i32)
        }
    }
}

} // verus!

//! Fixed-point trigonometry on micro-radian angles.
//!
//! Angles are `i64` micro-radians.  `sin_fix` and `cos_fix` reduce the angle
//! to a quarter-period around zero and evaluate a Taylor polynomial there;
//! `atan2_fix` uses an octant reduction and a cubic approximation.  Results
//! are clamped into `[-SCALE, SCALE]` (respectively `[-PI_FIX, PI_FIX]`), and
//! every function returns exactly the value of its spec-level mirror, so the
//! whole library is deterministic down to the last micro-unit.

use vstd::prelude::*;
use crate::fixed::{SCALE, fabs, fadd, fdiv, fmul, fmuldiv, fsub, emod};
use crate::fixed::{fneg, spec_abs, spec_add, spec_div, spec_mul, spec_muldiv, spec_neg, spec_sub, tdiv};

verus! {

/// One half turn, in micro-radians.
pub const PI_FIX: i64 = 3_141_593;

/// One quarter turn, in micro-radians.
pub const HALF_PI_FIX: i64 = 1_570_796;

/// One full turn, in micro-radians (kept equal to `2 * PI_FIX`).
pub const TWO_PI_FIX: i64 = 6_283_186;

/// Saturation of a value into the range of a unit quantity.
pub open spec fn clamp_unit(x: int) -> int {
    if x > SCALE as int {
        SCALE as int
    } else if x < -(SCALE as int) {
        -(SCALE as int)
    } else {
        x
    }
}

/// Quadrant index of the reduced angle: `0`, `1`, `2` or `3`.
pub open spec fn spec_quadrant(a: int) -> int {
    let m = a % (TWO_PI_FIX as int);
    let k = (m + (HALF_PI_FIX as int) / 2) / (HALF_PI_FIX as int);
    if k == 4 { 0 } else { k }
}

/// Residual angle once whole quarter turns are removed.
pub open spec fn spec_residual(a: int) -> int {
    let m = a % (TWO_PI_FIX as int);
    let k = (m + (HALF_PI_FIX as int) / 2) / (HALF_PI_FIX as int);
    m - k * (HALF_PI_FIX as int)
}

/// Taylor polynomial for the sine of a residual angle.
pub open spec fn spec_sin_poly(x: int) -> int {
    let x2 = spec_mul(x, x);
    let x3 = spec_mul(x2, x);
    let x5 = spec_mul(x3, x2);
    let x7 = spec_mul(x5, x2);
    clamp_unit(spec_sub(
        spec_add(spec_sub(x, spec_muldiv(x3, 1, 6)), spec_muldiv(x5, 1, 120)),
        spec_muldiv(x7, 1, 5040),
    ))
}

/// Taylor polynomial for the cosine of a residual angle.
pub open spec fn spec_cos_poly(x: int) -> int {
    let x2 = spec_mul(x, x);
    let x4 = spec_mul(x2, x2);
    let x6 = spec_mul(x4, x2);
    clamp_unit(spec_sub(
        spec_add(spec_sub(SCALE as int, spec_muldiv(x2, 1, 2)), spec_muldiv(x4, 1, 24)),
        spec_muldiv(x6, 1, 720),
    ))
}

/// Fixed-point sine of a micro-radian angle.
#[verifier::opaque]
pub open spec fn spec_sin(a: int) -> int {
    let k = spec_quadrant(a);
    let x = spec_residual(a);
    if k == 0 {
        spec_sin_poly(x)
    } else if k == 1 {
        spec_cos_poly(x)
    } else if k == 2 {
        -spec_sin_poly(x)
    } else {
        -spec_cos_poly(x)
    }
}

/// Fixed-point cosine of a micro-radian angle.
#[verifier::opaque]
pub open spec fn spec_cos(a: int) -> int {
    let k = spec_quadrant(a);
    let x = spec_residual(a);
    if k == 0 {
        spec_cos_poly(x)
    } else if k == 1 {
        -spec_sin_poly(x)
    } else if k == 2 {
        -spec_cos_poly(x)
    } else {
        spec_sin_poly(x)
    }
}

/// Cubic approximation of the arctangent of `z` for `z` in `[0, SCALE]`.
pub open spec fn spec_atan_unit(z: int) -> int {
    spec_add(
        spec_mul(z, 785_398),
        spec_mul(spec_mul(z, spec_sub(SCALE as int, z)), spec_add(244_700, spec_mul(66_300, z))),
    )
}

/// Fixed-point two-argument arctangent, in `[-PI_FIX, PI_FIX]` micro-radians.
#[verifier::opaque]
pub open spec fn spec_atan2(y: int, x: int) -> int {
    let ax = spec_abs(x);
    let ay = spec_abs(y);
    if ax == 0 && ay == 0 {
        0
    } else {
        let r0 = if ax >= ay {
            spec_atan_unit(spec_div(ay, ax))
        } else {
            spec_sub(HALF_PI_FIX as int, spec_atan_unit(spec_div(ax, ay)))
        };
        let r1 = if x < 0 { spec_sub(PI_FIX as int, r0) } else { r0 };
        let r2 = if y < 0 { spec_neg(r1) } else { r1 };
        if r2 > PI_FIX as int {
            PI_FIX as int
        } else if r2 < -(PI_FIX as int) {
            -(PI_FIX as int)
        } else {
            r2
        }
    }
}

/// Saturates a value into the range of a unit quantity.
fn unit_sat(x: i64) -> (r: i64)
    ensures
        r == clamp_unit(x as int),
{
    if x > SCALE {
        SCALE
    } else if x < -SCALE {
        -SCALE
    } else {
        x
    }
}

/// The residual left by the quarter-turn reduction stays within half a
/// quarter turn of zero.
pub proof fn lemma_residual_bounds(a: int)
    ensures
        -785_398 <= spec_residual(a) <= 785_397,
{
    let m = a % (TWO_PI_FIX as int);
    vstd::arithmetic::div_mod::lemma_mod_bound(a, TWO_PI_FIX as int);
    let k = (m + 785_398) / (HALF_PI_FIX as int);
    vstd::arithmetic::div_mod::lemma_fundamental_div_mod(m + 785_398, HALF_PI_FIX as int);
    vstd::arithmetic::div_mod::lemma_mod_bound(m + 785_398, HALF_PI_FIX as int);
    assert(m - k * (HALF_PI_FIX as int) == (m + 785_398) % (HALF_PI_FIX as int) - 785_398);
}

/// Quadrant and residual of an angle, mirroring the two reduction specs.
fn reduce(a: i64) -> (r: (i64, i64))
    ensures
        r.0 == spec_quadrant(a as int),
        r.1 == spec_residual(a as int),
        0 <= r.0 <= 3,
        -785_398 <= r.1 <= 785_397,
{
    let m = emod(a, TWO_PI_FIX);
    let q: u64 = (m as u64 + (HALF_PI_FIX as u64) / 2) / (HALF_PI_FIX as u64);
    proof {
        vstd::arithmetic::div_mod::lemma_div_is_ordered(
            m as int + (HALF_PI_FIX as int) / 2,
            7_068_583,
            HALF_PI_FIX as int,
        );
        assert(7_068_583int / 1_570_796int == 4);
        lemma_residual_bounds(a as int);
    }
    let k = q as i64;
    let x = m - k * HALF_PI_FIX;
    if k == 4 {
        (0, x)
    } else {
        (k, x)
    }
}

/// Fixed-point sine; the result equals `spec_sin` exactly and lies in
/// `[-SCALE, SCALE]`.
pub fn sin_fix(a: i64) -> (r: i64)
    ensures
        r == spec_sin(a as int),
        -SCALE <= r <= SCALE,
{
    proof {
        reveal(spec_sin);
    }
    let (k, x) = reduce(a);
    if k == 0 {
        sin_poly(x)
    } else if k == 1 {
        cos_poly(x)
    } else if k == 2 {
        -sin_poly(x)
    } else {
        -cos_poly(x)
    }
}

/// Fixed-point cosine; the result equals `spec_cos` exactly and lies in
/// `[-SCALE, SCALE]`.
pub fn cos_fix(a: i64) -> (r: i64)
    ensures
        r == spec_cos(a as int),
        -SCALE <= r <= SCALE,
{
    proof {
        reveal(spec_cos);
    }
    let (k, x) = reduce(a);
    if k == 0 {
        cos_poly(x)
    } else if k == 1 {
        -sin_poly(x)
    } else if k == 2 {
        -cos_poly(x)
    } else {
        sin_poly(x)
    }
}

/// Taylor polynomial for the sine of a residual angle.
fn sin_poly(x: i64) -> (r: i64)
    ensures
        r == spec_sin_poly(x as int),
        -SCALE <= r <= SCALE,
{
    let x2 = fmul(x, x);
    let x3 = fmul(x2, x);
    let x5 = fmul(x3, x2);
    let x7 = fmul(x5, x2);
    unit_sat(fsub(fadd(fsub(x, fmuldiv(x3, 1, 6)), fmuldiv(x5, 1, 120)), fmuldiv(x7, 1, 5040)))
}

/// Taylor polynomial for the cosine of a residual angle.
fn cos_poly(x: i64) -> (r: i64)
    ensures
        r == spec_cos_poly(x as int),
        -SCALE <= r <= SCALE,
{
    let x2 = fmul(x, x);
    let x4 = fmul(x2, x2);
    let x6 = fmul(x4, x2);
    unit_sat(fsub(fadd(fsub(SCALE, fmuldiv(x2, 1, 2)), fmuldiv(x4, 1, 24)), fmuldiv(x6, 1, 720)))
}

/// Cubic approximation of the arctangent on `[0, SCALE]`.
fn atan_unit(z: i64) -> (r: i64)
    ensures
        r == spec_atan_unit(z as int),
{
    fadd(
        fmul(z, 785_398),
        fmul(fmul(z, fsub(SCALE, z)), fadd(244_700, fmul(66_300, z))),
    )
}

/// Fixed-point two-argument arctangent; the result equals `spec_atan2`
/// exactly and lies in `[-PI_FIX, PI_FIX]`.
pub fn atan2_fix(y: i64, x: i64) -> (r: i64)
    ensures
        r == spec_atan2(y as int, x as int),
        -PI_FIX <= r <= PI_FIX,
{
    proof {
        reveal(spec_atan2);
    }
    let ax = fabs(x);
    let ay = fabs(y);
    if ax == 0 && ay == 0 {
        return 0;
    }
    let r0 = if ax >= ay {
        atan_unit(fdiv(ay, ax))
    } else {
        fsub(HALF_PI_FIX, atan_unit(fdiv(ax, ay)))
    };
    let r1 = if x < 0 { fsub(PI_FIX, r0) } else { r0 };
    let r2 = if y < 0 { fneg(r1) } else { r1 };
    if r2 > PI_FIX {
        PI_FIX
    } else if r2 < -PI_FIX {
        -PI_FIX
    } else {
        r2
    }
}


/// For a nonnegative value under a cap, the truncated quotient stays under
/// the cap's quotient.
proof fn lemma_tdiv_le(p: int, cap: int, q: int)
    requires
        0 <= p <= cap,
        q >= 1,
    ensures
        0 <= tdiv(p, q) <= cap / q,
{
    vstd::arithmetic::div_mod::lemma_div_is_ordered(p, cap, q);
    vstd::arithmetic::div_mod::lemma_div_pos_is_pos(p, q);
}

/// Over the whole reduction range the cosine polynomial stays above 0.69:
/// the quadratic term takes at most 0.3085 and the sixth-order term at
/// most 326 micro-units off the leading one.
proof fn lemma_cos_poly_lower(x: int)
    requires
        -785_398 <= x <= 785_398,
    ensures
        691_000 <= spec_cos_poly(x) <= SCALE,
{
    let p = x * x;
    assert(0 <= p <= 617_000_000_000) by (nonlinear_arith)
        requires p == x * x, -785_398 <= x <= 785_398,
    ;
    lemma_tdiv_le(p, 617_000_000_000, SCALE as int);
    assert(617_000_000_000int / 1_000_000int == 617_000);
    let x2 = spec_mul(x, x);
    assert(0 <= x2 <= 617_000);
    lemma_tdiv_le(x2, 617_000, 2);
    let t2 = spec_muldiv(x2, 1, 2);
    assert(0 <= t2 <= 308_500);
    let p4 = x2 * x2;
    assert(0 <= p4 <= 380_689_000_000) by (nonlinear_arith)
        requires p4 == x2 * x2, 0 <= x2 <= 617_000,
    ;
    lemma_tdiv_le(p4, 380_689_000_000, SCALE as int);
    assert(380_689_000_000int / 1_000_000int == 380_689);
    let x4 = spec_mul(x2, x2);
    assert(0 <= x4 <= 380_689);
    lemma_tdiv_le(x4, 380_689, 24);
    let t4 = spec_muldiv(x4, 1, 24);
    assert(0 <= t4);
    let p6 = x4 * x2;
    assert(0 <= p6 <= 234_886_000_000) by (nonlinear_arith)
        requires p6 == x4 * x2, 0 <= x4 <= 380_689, 0 <= x2 <= 617_000,
    ;
    lemma_tdiv_le(p6, 234_886_000_000, SCALE as int);
    assert(234_886_000_000int / 1_000_000int == 234_886);
    let x6 = spec_mul(x4, x2);
    assert(0 <= x6 <= 234_886);
    lemma_tdiv_le(x6, 234_886, 720);
    let t6 = spec_muldiv(x6, 1, 720);
    assert(0 <= t6 <= 326);
}

/// Norm bracket of the trig pair: for any angle, the squared sine and
/// cosine sum to at least `477_000_000_000` (a norm of about 0.69) and at
/// most `2_000_000_000_000` (a norm of about 1.42).  An exact unit norm is
/// impossible in fixed point.
pub proof fn lemma_trig_norm_bracket(a: int)
    ensures
        477_000_000_000 <= spec_sin(a) * spec_sin(a) + spec_cos(a) * spec_cos(a),
        spec_sin(a) * spec_sin(a) + spec_cos(a) * spec_cos(a) <= 2_000_000_000_000,
{
    reveal(spec_sin);
    reveal(spec_cos);
    lemma_residual_bounds(a);
    let x = spec_residual(a);
    lemma_cos_poly_lower(x);
    let sp = spec_sin_poly(x);
    let cp = spec_cos_poly(x);
    assert(-(SCALE as int) <= sp <= SCALE as int);
    assert(cp * cp >= 477_000_000_000) by (nonlinear_arith)
        requires cp >= 691_000,
    ;
    assert(0 <= sp * sp <= 1_000_000_000_000 && 0 <= cp * cp <= 1_000_000_000_000)
        by (nonlinear_arith)
        requires
            -1_000_000 <= sp <= 1_000_000,
            -1_000_000 <= cp <= 1_000_000,
    ;
    assert((-sp) * (-sp) == sp * sp && (-cp) * (-cp) == cp * cp) by (nonlinear_arith);
}


/// Exact trig-pair values at the quarter-turn angles: multiples of a
/// quarter turn reduce to residuals of at most two micro-radians, where
/// the polynomials are exact.
pub proof fn lemma_trig_quarter_values()
    ensures
        spec_sin(0) == 0,
        spec_cos(0) == SCALE,
        spec_sin(HALF_PI_FIX as int) == SCALE,
        spec_cos(HALF_PI_FIX as int) == 0,
        spec_sin(-(HALF_PI_FIX as int)) == -(SCALE as int),
        spec_cos(-(HALF_PI_FIX as int)) == 2,
        spec_sin(PI_FIX as int + HALF_PI_FIX as int) == -(SCALE as int),
        spec_cos(PI_FIX as int + HALF_PI_FIX as int) == 1,
{
    reveal(spec_sin);
    reveal(spec_cos);
    assert(spec_quadrant(0) == 0);
    assert(spec_residual(0) == 0);
    assert(spec_sin_poly(0) == 0);
    assert(spec_cos_poly(0) == SCALE);
    assert(spec_quadrant(1_570_796) == 1);
    assert(spec_residual(1_570_796) == 0);
    assert(spec_quadrant(-1_570_796) == 3);
    assert(spec_residual(-1_570_796) == 2);
    assert(spec_sin_poly(2) == 2);
    assert(spec_cos_poly(2) == SCALE);
    assert(spec_quadrant(4_712_389) == 3);
    assert(spec_residual(4_712_389) == 1);
    assert(spec_sin_poly(1) == 1);
    assert(spec_cos_poly(1) == SCALE);
}

} // verus!

//! Saturating fixed-point arithmetic on `i64` micro-units.
//!
//! A scalar quantity `q` is represented by the integer `q * SCALE` (rounded),
//! and every operation clamps its result into `[-FIX_MAX, FIX_MAX]`, so that
//! no operation can overflow whatever its inputs.  Each executable operation
//! returns exactly the value of its spec-level counterpart.

use vstd::prelude::*;

verus! {

/// Number of micro-units in one unit.
pub const SCALE: i64 = 1_000_000;

/// Saturation bound: every fixed-point result lies in `[-FIX_MAX, FIX_MAX]`.
pub const FIX_MAX: i64 = 2_000_000_000_000_000;

/// Absolute value over the mathematical integers.
pub open spec fn abs_int(x: int) -> int {
    if x < 0 { -x } else { x }
}

/// Saturation of a mathematical integer into the representable range.
pub open spec fn clamp(x: int) -> int {
    if x > FIX_MAX as int {
        FIX_MAX as int
    } else if x < -(FIX_MAX as int) {
        -(FIX_MAX as int)
    } else {
        x
    }
}

/// Truncating division (the quotient is rounded toward zero); `b != 0`.
pub open spec fn tdiv(a: int, b: int) -> int {
    let q = abs_int(a) / abs_int(b);
    if (a < 0) != (b < 0) { -q } else { q }
}

/// Saturating sum.
pub open spec fn spec_add(a: int, b: int) -> int {
    clamp(a + b)
}

/// Saturating difference.
pub open spec fn spec_sub(a: int, b: int) -> int {
    clamp(a - b)
}

/// Saturating negation.
pub open spec fn spec_neg(a: int) -> int {
    clamp(-a)
}

/// Saturating absolute value.
pub open spec fn spec_abs(a: int) -> int {
    clamp(abs_int(a))
}

/// Saturating fixed-point product: `a * b` rescaled back to micro-units.
pub open spec fn spec_mul(a: int, b: int) -> int {
    clamp(tdiv(a * b, SCALE as int))
}

/// Saturating fused multiply-divide: `a * b / c` at full precision; `c != 0`.
pub open spec fn spec_muldiv(a: int, b: int, c: int) -> int {
    clamp(tdiv(a * b, c))
}

/// Saturating fixed-point quotient: `a / b` in micro-units; `b != 0`.
pub open spec fn spec_div(a: int, b: int) -> int {
    clamp(tdiv(a * SCALE as int, b))
}

/// Floor of the square root, defined recursively over the naturals.
pub open spec fn sqrt_floor(n: nat) -> nat
    decreases n,
{
    if n == 0 {
        0
    } else {
        let r = sqrt_floor((n - 1) as nat);
        if (r + 1) * (r + 1) <= n {
            r + 1
        } else {
            r
        }
    }
}

/// Saturating Euclidean distance between two points in micro-units.
/// Coordinates are first saturated into the representable range.
pub open spec fn spec_dist(x0: int, y0: int, x1: int, y1: int) -> int {
    let dx = clamp(x0) - clamp(x1);
    let dy = clamp(y0) - clamp(y1);
    clamp(sqrt_floor((dx * dx + dy * dy) as nat) as int)
}

/// `sqrt_floor(n)` is the unique natural `r` with `r * r <= n < (r + 1) * (r + 1)`.
pub proof fn lemma_sqrt_floor_bounds(n: nat)
    ensures
        sqrt_floor(n) * sqrt_floor(n) <= n,
        n < (sqrt_floor(n) + 1) * (sqrt_floor(n) + 1),
    decreases n,
{
    if n == 0 {
        assert(sqrt_floor(0) == 0);
        assert((sqrt_floor(n) + 1) * (sqrt_floor(n) + 1) == 1) by (nonlinear_arith)
            requires sqrt_floor(n) == 0,
        ;
        assert(n < (sqrt_floor(n) + 1) * (sqrt_floor(n) + 1));
    } else {
        lemma_sqrt_floor_bounds((n - 1) as nat);
        let r = sqrt_floor((n - 1) as nat);
        assert(r * r <= n - 1 < (r + 1) * (r + 1));
        if (r + 1) * (r + 1) <= n {
            assert(sqrt_floor(n) == r + 1);
            assert(n == (r + 1) * (r + 1));
            assert(n < (r + 2) * (r + 2)) by (nonlinear_arith)
                requires n == (r + 1) * (r + 1),
            ;
            assert(sqrt_floor(n) + 1 == r + 2);
            assert(n < (sqrt_floor(n) + 1) * (sqrt_floor(n) + 1));
        } else {
            assert(sqrt_floor(n) == r);
            assert(r * r <= n);
            assert(n < (sqrt_floor(n) + 1) * (sqrt_floor(n) + 1));
        }
    }
}

/// Any natural `r` with `r * r <= n < (r + 1) * (r + 1)` equals `sqrt_floor(n)`.
pub proof fn lemma_sqrt_floor_unique(n: nat, r: nat)
    requires
        r * r <= n,
        n < (r + 1) * (r + 1),
    ensures
        sqrt_floor(n) == r,
{
    lemma_sqrt_floor_bounds(n);
    let s = sqrt_floor(n);
    if s < r {
        assert((s + 1) * (s + 1) <= r * r) by (nonlinear_arith)
            requires s + 1 <= r,
        ;
    }
    if r < s {
        assert((r + 1) * (r + 1) <= s * s) by (nonlinear_arith)
            requires r + 1 <= s,
        ;
    }
}

/// The saturating distance stays within the closure tolerance when the
/// squared coordinate differences do.
pub proof fn lemma_dist_le_eps(x0: int, y0: int, x1: int, y1: int)
    requires
        -(FIX_MAX as int) <= x0 <= FIX_MAX as int,
        -(FIX_MAX as int) <= y0 <= FIX_MAX as int,
        -(FIX_MAX as int) <= x1 <= FIX_MAX as int,
        -(FIX_MAX as int) <= y1 <= FIX_MAX as int,
        (x0 - x1) * (x0 - x1) + (y0 - y1) * (y0 - y1) <= 10_000,
    ensures
        spec_dist(x0, y0, x1, y1) <= 100,
{
    let dx = x0 - x1;
    let dy = y0 - y1;
    assert(dx * dx >= 0 && dy * dy >= 0) by (nonlinear_arith);
    lemma_sqrt_floor_bounds((dx * dx + dy * dy) as nat);
    let s = sqrt_floor((dx * dx + dy * dy) as nat);
    assert(s <= 100) by (nonlinear_arith)
        requires s * s <= dx * dx + dy * dy, dx * dx + dy * dy <= 10_000, s >= 0,
    ;
}

/// Saturates a wide intermediate into the fixed-point range.
fn clamp128(x: i128) -> (r: i64)
    ensures
        r == clamp(x as int),
{
    if x > FIX_MAX as i128 {
        FIX_MAX
    } else if x < -(FIX_MAX as i128) {
        -FIX_MAX
    } else {
        x as i64
    }
}

/// Truncating division on wide intermediates; the operands stay away from
/// the extreme value so that taking absolute values cannot overflow.
fn tdiv128(a: i128, b: i128) -> (r: i128)
    requires
        b != 0,
        a != i128::MIN,
        b != i128::MIN,
    ensures
        r == tdiv(a as int, b as int),
{
    let ua: u128 = if a < 0 { (-a) as u128 } else { a as u128 };
    let ub: u128 = if b < 0 { (-b) as u128 } else { b as u128 };
    let q: u128 = ua / ub;
    assert(q <= ua) by {
        assert(ua / ub <= ua) by (nonlinear_arith)
            requires ub >= 1,
        ;
    }
    if (a < 0) != (b < 0) {
        -(q as i128)
    } else {
        q as i128
    }
}

/// The product of two `i64` values fits comfortably inside `i128`.
proof fn lemma_i64_product_fits(a: int, b: int)
    requires
        i64::MIN <= a <= i64::MAX,
        i64::MIN <= b <= i64::MAX,
    ensures
        -0x4000_0000_0000_0000_0000_0000_0000_0000 <= a * b,
        a * b <= 0x4000_0000_0000_0000_0000_0000_0000_0000,
{
    assert(-0x4000_0000_0000_0000_0000_0000_0000_0000 <= a * b <= 0x4000_0000_0000_0000_0000_0000_0000_0000)
        by (nonlinear_arith)
        requires
            -0x8000_0000_0000_0000 <= a,
            a <= 0x7fff_ffff_ffff_ffff,
            -0x8000_0000_0000_0000 <= b,
            b <= 0x7fff_ffff_ffff_ffff,
    ;
}

/// Saturating sum of two fixed-point values.
pub fn fadd(a: i64, b: i64) -> (r: i64)
    ensures
        r == spec_add(a as int, b as int),
{
    clamp128(a as i128 + b as i128)
}

/// Saturating difference of two fixed-point values.
pub fn fsub(a: i64, b: i64) -> (r: i64)
    ensures
        r == spec_sub(a as int, b as int),
{
    clamp128(a as i128 - b as i128)
}

/// Saturating negation of a fixed-point value.
pub fn fneg(a: i64) -> (r: i64)
    ensures
        r == spec_neg(a as int),
{
    clamp128(-(a as i128))
}

/// Saturating absolute value of a fixed-point value.
pub fn fabs(a: i64) -> (r: i64)
    ensures
        r == spec_abs(a as int),
{
    if a < 0 {
        clamp128(-(a as i128))
    } else {
        clamp128(a as i128)
    }
}

/// Saturating fixed-point product.
pub fn fmul(a: i64, b: i64) -> (r: i64)
    ensures
        r == spec_mul(a as int, b as int),
{
    proof { lemma_i64_product_fits(a as int, b as int); }
    let p: i128 = (a as i128) * (b as i128);
    clamp128(tdiv128(p, SCALE as i128))
}

/// Saturating fused multiply-divide at full intermediate precision.
pub fn fmuldiv(a: i64, b: i64, c: i64) -> (r: i64)
    requires
        c != 0,
    ensures
        r == spec_muldiv(a as int, b as int, c as int),
{
    proof { lemma_i64_product_fits(a as int, b as int); }
    let p: i128 = (a as i128) * (b as i128);
    clamp128(tdiv128(p, c as i128))
}

/// Saturating fixed-point quotient.
pub fn fdiv(a: i64, b: i64) -> (r: i64)
    requires
        b != 0,
    ensures
        r == spec_div(a as int, b as int),
{
    proof { lemma_i64_product_fits(a as int, SCALE as int); }
    let p: i128 = (a as i128) * (SCALE as i128);
    clamp128(tdiv128(p, b as i128))
}

/// Euclidean remainder: the result is always in `[0, m)`.
pub fn emod(a: i64, m: i64) -> (r: i64)
    requires
        m > 0,
    ensures
        r == (a as int) % (m as int),
        0 <= r < m,
{
    if a >= 0 {
        let rr = (a as u64) % (m as u64);
        rr as i64
    } else {
        let na: u128 = (-(a as i128)) as u128;
        let mm: u128 = m as u128;
        let rr: u128 = na % mm;
        let ghost q1 = na as int / mm as int;
        proof {
            vstd::arithmetic::div_mod::lemma_fundamental_div_mod(na as int, mm as int);
            vstd::arithmetic::div_mod::lemma_mod_bound(na as int, mm as int);
            assert(na as int == mm as int * q1 + rr as int);
            assert(a as int == -(m as int * q1) - rr as int);
        }
        if rr == 0 {
            proof {
                assert(a as int == m as int * (-q1) + 0) by (nonlinear_arith)
                    requires a as int == -(m as int * q1),
                ;
                vstd::arithmetic::div_mod::lemma_fundamental_div_mod_converse(
                    a as int, m as int, -q1, 0);
            }
            0
        } else {
            let out = (mm - rr) as i64;
            proof {
                assert(a as int == m as int * (-q1 - 1) + (m as int - rr as int))
                    by (nonlinear_arith)
                    requires
                        a as int == -(m as int * q1) - rr as int,
                        mm as int == m as int,
                ;
                vstd::arithmetic::div_mod::lemma_fundamental_div_mod_converse(
                    a as int, m as int, -q1 - 1, m as int - rr as int);
            }
            out
        }
    }
}

/// Floor square root by bisection.
pub fn isqrt(n: u128) -> (r: u64)
    ensures
        (r as nat) * (r as nat) <= n,
        n < (r as nat + 1) * (r as nat + 1),
        r as nat == sqrt_floor(n as nat),
{
    let mut lo: u128 = 0;
    let mut hi: u128 = 18_446_744_073_709_551_616;
    proof {
        assert(n < hi * hi) by (nonlinear_arith)
            requires n <= u128::MAX, hi == 0x1_0000_0000_0000_0000,
        ;
    }
    while hi - lo > 1
        invariant
            lo < hi,
            hi <= 18_446_744_073_709_551_616,
            lo * lo <= n,
            n < hi * hi,
        decreases hi - lo,
    {
        let mid = lo + (hi - lo) / 2;
        assert(lo < mid < hi);
        assert(mid * mid <= 0xffff_ffff_ffff_ffff * 0xffff_ffff_ffff_ffff) by (nonlinear_arith)
            requires mid <= 0xffff_ffff_ffff_ffff,
        ;
        if mid * mid <= n {
            lo = mid;
        } else {
            hi = mid;
        }
    }
    proof {
        lemma_sqrt_floor_unique(n as nat, lo as nat);
    }
    lo as u64
}

/// Saturating Euclidean distance between `(x0, y0)` and `(x1, y1)`.
pub fn fdist(x0: i64, y0: i64, x1: i64, y1: i64) -> (r: i64)
    ensures
        r == spec_dist(x0 as int, y0 as int, x1 as int, y1 as int),
        r >= 0,
{
    let cx0 = clamp128(x0 as i128);
    let cy0 = clamp128(y0 as i128);
    let cx1 = clamp128(x1 as i128);
    let cy1 = clamp128(y1 as i128);
    let dx: i128 = cx0 as i128 - cx1 as i128;
    let dy: i128 = cy0 as i128 - cy1 as i128;
    assert(0 <= dx * dx <= 16_000_000_000_000_000_000_000_000_000_000) by (nonlinear_arith)
        requires
            -4_000_000_000_000_000 <= dx,
            dx <= 4_000_000_000_000_000,
    ;
    assert(0 <= dy * dy <= 16_000_000_000_000_000_000_000_000_000_000) by (nonlinear_arith)
        requires
            -4_000_000_000_000_000 <= dy,
            dy <= 4_000_000_000_000_000,
    ;
    let dd: u128 = (dx * dx) as u128 + (dy * dy) as u128;
    let s = isqrt(dd);
    if s > FIX_MAX as u64 {
        FIX_MAX
    } else {
        s as i64
    }
}

} // verus!

//! Small planar-vector helpers shared by the geometry code.

use vstd::prelude::*;
use crate::fixed::{fadd, fdist, fmul, fsub, spec_add, spec_dist, spec_mul, spec_sub};

verus! {

/// Fixed-point dot product of `(x_0, y_0)` and `(x_1, y_1)`.
pub open spec fn spec_dot(x_0: int, y_0: int, x_1: int, y_1: int) -> int {
    spec_add(spec_mul(x_0, x_1), spec_mul(y_0, y_1))
}

/// Fixed-point cross product of `(x_0, y_0)` and `(x_1, y_1)`: positive when
/// turning from the first vector to the second is counterclockwise.
pub open spec fn spec_cross(x_0: int, y_0: int, x_1: int, y_1: int) -> int {
    spec_sub(spec_mul(x_0, y_1), spec_mul(x_1, y_0))
}

/// Dot product of the vectors `(x_0, y_0)` and `(x_1, y_1)`.
pub fn dot_product(x_0: i64, y_0: i64, x_1: i64, y_1: i64) -> (r: i64)
    ensures
        r == spec_dot(x_0 as int, y_0 as int, x_1 as int, y_1 as int),
{
    fadd(fmul(x_0, x_1), fmul(y_0, y_1))
}

/// Cross product of the vectors `(x_0, y_0)` and `(x_1, y_1)`; its sign says
/// whether going from the first vector to the second turns counterclockwise
/// (positive) or clockwise (negative).
pub fn cross_product(x_0: i64, y_0: i64, x_1: i64, y_1: i64) -> (r: i64)
    ensures
        r == spec_cross(x_0 as int, y_0 as int, x_1 as int, y_1 as int),
{
    fsub(fmul(x_0, y_1), fmul(x_1, y_0))
}

/// Euclidean distance between the points `(x_0, y_0)` and `(x_1, y_1)`.
pub fn distance(x_0: i64, y_0: i64, x_1: i64, y_1: i64) -> (r: i64)
    ensures
        r == spec_dist(x_0 as int, y_0 as int, x_1 as int, y_1 as int),
        r >= 0,
{
    fdist(x_0, y_0, x_1, y_1)
}

} // verus!

//! Track geometry: line and arc segments, and closed paths built from them.
//!
//! Every scalar is a fixed-point micro-unit value and every angle a
//! micro-radian value.  A segment answers arc-length queries (`point_at`,
//! `tangent_at`, `length`) and signed-distance queries (`sdf`); a signed
//! distance is `None` when the segment does not claim the query point (an arc
//! only claims points inside its angular sector).  Sign conventions: for a
//! line from `(x_0, y_0)` to `(x_1, y_1)` a point to the left of travel gets
//! a positive distance; a counterclockwise (`Convex`) arc gives points
//! outside its circle a positive distance, and a clockwise (`Concave`) arc
//! flips that sign.

use vstd::prelude::*;
use crate::fixed::{FIX_MAX, SCALE, abs_int, emod, fabs, fadd, fdist, fdiv, fmul, fmuldiv, fsub};
use crate::fixed::{spec_abs, spec_add, spec_dist, spec_div, spec_mul, spec_muldiv, spec_sub, sqrt_floor, tdiv};
use crate::math_utils::{cross_product, dot_product, spec_cross, spec_dot};
use crate::trig::{PI_FIX, cos_fix, sin_fix, atan2_fix, spec_cos, spec_sin, spec_atan2};

verus! {

/// Largest coordinate, radius or angle magnitude a segment may be built
/// from; far below the saturation bound, so derived quantities stay exact.
pub const COORD_MAX: i64 = 1_000_000_000_000;

/// Largest angle magnitude (about twenty half-turns) accepted for an arc.
pub const THETA_MAX: i64 = 63_000_000;

/// Tolerance, in micro-units, for the endpoint-coincidence check of a
/// closed path: one hundred times the representation's resolution.
pub const EPS_FIX: i64 = 100;

/// Rotational sense of an arc: `Convex` turns counterclockwise (angles
/// increase), `Concave` turns clockwise (angles decrease).
#[derive(Clone, Copy, Debug, PartialEq, Eq, Structural)]
pub enum Direction {
    Convex,
    Concave,
}

/// Circular-arc segment: a circle of radius `r` around `(x_0, y_0)`,
/// traversed from angle `theta_0` to angle `theta_1`.
#[derive(Clone, Copy, Debug)]
pub struct ArcPath {
    pub x_0: i64,
    pub y_0: i64,
    pub r: i64,
    pub theta_0: i64,
    pub theta_1: i64,
    pub direction: Direction,
    pub extremal_0: (i64, i64),
    pub extremal_1: (i64, i64),
}

impl ArcPath {
    /// Well-formedness: bounded data, a proper angular span, a direction
    /// that agrees with the angle order, and endpoints derived from the
    /// construction formulas.
    pub open spec fn wf(self) -> bool {
        &&& 1 <= self.r <= COORD_MAX
        &&& -COORD_MAX <= self.x_0 <= COORD_MAX
        &&& -COORD_MAX <= self.y_0 <= COORD_MAX
        &&& -THETA_MAX <= self.theta_0 <= THETA_MAX
        &&& -THETA_MAX <= self.theta_1 <= THETA_MAX
        &&& self.theta_0 != self.theta_1
        &&& self.direction == (if self.theta_1 > self.theta_0 {
            Direction::Convex
        } else {
            Direction::Concave
        })
        &&& self.r * abs_int(self.theta_1 - self.theta_0) >= SCALE
        &&& self.extremal_0.0 == spec_add(self.x_0 as int, spec_mul(self.r as int, spec_cos(self.theta_0 as int)))
        &&& self.extremal_0.1 == spec_add(self.y_0 as int, spec_mul(self.r as int, spec_sin(self.theta_0 as int)))
        &&& self.extremal_1.0 == spec_add(self.x_0 as int, spec_mul(self.r as int, spec_cos(self.theta_1 as int)))
        &&& self.extremal_1.1 == spec_add(self.y_0 as int, spec_mul(self.r as int, spec_sin(self.theta_1 as int)))
    }

    /// Arc length: `r * |theta_1 - theta_0|`.
    pub open spec fn spec_length(self) -> int {
        spec_mul(self.r as int, spec_abs(self.theta_1 as int - self.theta_0 as int))
    }

    /// The signed micro-radian turn after travelling `d` from the start.
    pub open spec fn spec_turn(self, d: int) -> int {
        let th = spec_muldiv(d, SCALE as int, self.r as int);
        if self.direction is Concave {
            -th
        } else {
            th
        }
    }

    /// Point reached after travelling `d` along the arc.
    pub open spec fn spec_point_at(self, d: int) -> (int, int) {
        let ang = spec_add(self.theta_0 as int, self.spec_turn(d));
        (
            spec_add(self.x_0 as int, spec_mul(self.r as int, spec_cos(ang))),
            spec_add(self.y_0 as int, spec_mul(self.r as int, spec_sin(ang))),
        )
    }

    /// Unit tangent after travelling `d` along the arc.
    pub open spec fn spec_tangent_at(self, d: int) -> (int, int) {
        let ang = spec_add(self.theta_0 as int, self.spec_turn(d));
        let tx = -spec_sin(ang);
        let ty = spec_cos(ang);
        if self.direction is Concave {
            (-tx, -ty)
        } else {
            (tx, ty)
        }
    }

    /// Whether `(x, y)` lies inside the arc's angular sector: the query
    /// vector must lie on the travel side of both extremal radius vectors.
    /// For spans of at most a half turn the two conditions must both hold;
    /// for reflex spans the sector is everything but the complementary
    /// cone, so one of them suffices.
    pub open spec fn spec_within_bounds(self, x: int, y: int) -> bool {
        let vx = spec_sub(x, self.x_0 as int);
        let vy = spec_sub(y, self.y_0 as int);
        let e0x = spec_sub(self.extremal_0.0 as int, self.x_0 as int);
        let e0y = spec_sub(self.extremal_0.1 as int, self.y_0 as int);
        let e1x = spec_sub(self.extremal_1.0 as int, self.x_0 as int);
        let e1y = spec_sub(self.extremal_1.1 as int, self.y_0 as int);
        let ord0 = spec_cross(e0x, e0y, vx, vy);
        let ord1 = spec_cross(vx, vy, e1x, e1y);
        let reflex = abs_int(self.theta_1 as int - self.theta_0 as int) > PI_FIX as int;
        if self.direction is Convex {
            if reflex {
                ord0 >= 0 || ord1 >= 0
            } else {
                ord0 >= 0 && ord1 >= 0
            }
        } else {
            if reflex {
                ord0 <= 0 || ord1 <= 0
            } else {
                ord0 <= 0 && ord1 <= 0
            }
        }
    }

    /// Signed distance of `(x, y)`, or `None` outside the angular sector.
    pub open spec fn spec_sdf(self, x: int, y: int) -> Option<int> {
        if !self.spec_within_bounds(x, y) {
            None
        } else {
            let sd = spec_sub(spec_dist(x, y, self.x_0 as int, self.y_0 as int), self.r as int);
            if self.direction is Concave {
                Some(-sd)
            } else {
                Some(sd)
            }
        }
    }

    /// Arc-length position of the angular projection of `(x, y)`.
    pub open spec fn spec_point_projection_dist(self, x: int, y: int) -> int {
        let theta = spec_atan2(spec_sub(y, self.y_0 as int), spec_sub(x, self.x_0 as int));
        let delta = if self.direction is Convex {
            spec_sub(theta, self.theta_0 as int)
        } else {
            spec_sub(self.theta_0 as int, theta)
        };
        spec_mul(self.r as int, delta)
    }

    /// Tangent at the angular projection of `(x, y)`.
    pub open spec fn spec_point_projection_tangent(self, x: int, y: int) -> (int, int) {
        self.spec_tangent_at(self.spec_point_projection_dist(x, y))
    }

    /// The arc value `new` builds: the rotational sense derived from the
    /// angle order, the extremal points from the construction formulas.
    pub open spec fn spec_make_arc(x_0: int, y_0: int, r: int, theta_0: int, theta_1: int) -> ArcPath {
        ArcPath {
            x_0: x_0 as i64,
            y_0: y_0 as i64,
            r: r as i64,
            theta_0: theta_0 as i64,
            theta_1: theta_1 as i64,
            direction: if theta_1 > theta_0 {
                Direction::Convex
            } else {
                Direction::Concave
            },
            extremal_0: (
                spec_add(x_0, spec_mul(r, spec_cos(theta_0))) as i64,
                spec_add(y_0, spec_mul(r, spec_sin(theta_0))) as i64,
            ),
            extremal_1: (
                spec_add(x_0, spec_mul(r, spec_cos(theta_1))) as i64,
                spec_add(y_0, spec_mul(r, spec_sin(theta_1))) as i64,
            ),
        }
    }

    /// Builds the arc through angles `theta_0` to `theta_1` around
    /// `(x_0, y_0)`; the rotational sense is derived from the angle order.
    pub fn new(x_0: i64, y_0: i64, r: i64, theta_0: i64, theta_1: i64) -> (a: ArcPath)
        requires
            1 <= r <= COORD_MAX,
            -COORD_MAX <= x_0 <= COORD_MAX,
            -COORD_MAX <= y_0 <= COORD_MAX,
            -THETA_MAX <= theta_0 <= THETA_MAX,
            -THETA_MAX <= theta_1 <= THETA_MAX,
            theta_0 != theta_1,
            r * abs_int(theta_1 as int - theta_0 as int) >= SCALE,
        ensures
            a.wf(),
            a == Self::spec_make_arc(x_0 as int, y_0 as int, r as int, theta_0 as int, theta_1 as int),
            a.x_0 == x_0,
            a.y_0 == y_0,
            a.r == r,
            a.theta_0 == theta_0,
            a.theta_1 == theta_1,
    {
        let direction = if theta_1 > theta_0 {
            Direction::Convex
        } else {
            Direction::Concave
        };
        let e0 = (fadd(x_0, fmul(r, cos_fix(theta_0))), fadd(y_0, fmul(r, sin_fix(theta_0))));
        let e1 = (fadd(x_0, fmul(r, cos_fix(theta_1))), fadd(y_0, fmul(r, sin_fix(theta_1))));
        ArcPath {
            x_0,
            y_0,
            r,
            theta_0,
            theta_1,
            direction,
            extremal_0: e0,
            extremal_1: e1,
        }
    }

    /// Arc length `r * |theta_1 - theta_0|`; at least one micro-unit.
    pub fn length(&self) -> (r: i64)
        requires
            self.wf(),
        ensures
            r == self.spec_length(),
            1 <= r <= FIX_MAX,
    {
        proof {
            vstd::arithmetic::div_mod::lemma_div_is_ordered(
                SCALE as int,
                self.r * abs_int(self.theta_1 as int - self.theta_0 as int),
                SCALE as int,
            );
        }
        fmul(self.r, fabs(fsub(self.theta_1, self.theta_0)))
    }

    /// First point of the arc (at angle `theta_0`).
    pub fn first_point(&self) -> (p: (i64, i64))
        requires
            self.wf(),
        ensures
            p == self.extremal_0,
    {
        self.extremal_0
    }

    /// Last point of the arc (at angle `theta_1`).
    pub fn last_point(&self) -> (p: (i64, i64))
        requires
            self.wf(),
        ensures
            p == self.extremal_1,
    {
        self.extremal_1
    }

    /// Point reached after travelling `d` along the arc from its start.
    pub fn point_at(&self, d: i64) -> (p: (i64, i64))
        requires
            self.wf(),
            0 <= d <= self.spec_length(),
        ensures
            p.0 == self.spec_point_at(d as int).0,
            p.1 == self.spec_point_at(d as int).1,
    {
        let th = fmuldiv(d, SCALE, self.r);
        let th = match self.direction {
            Direction::Convex => th,
            Direction::Concave => -th,
        };
        let ang = fadd(self.theta_0, th);
        (fadd(self.x_0, fmul(self.r, cos_fix(ang))), fadd(self.y_0, fmul(self.r, sin_fix(ang))))
    }

    /// Unit tangent after travelling `d` along the arc from its start.
    pub fn tangent_at(&self, d: i64) -> (t: (i64, i64))
        requires
            self.wf(),
        ensures
            t.0 == self.spec_tangent_at(d as int).0,
            t.1 == self.spec_tangent_at(d as int).1,
            -SCALE <= t.0 <= SCALE,
            -SCALE <= t.1 <= SCALE,
    {
        let th = fmuldiv(d, SCALE, self.r);
        let th = match self.direction {
            Direction::Convex => th,
            Direction::Concave => -th,
        };
        let ang = fadd(self.theta_0, th);
        let tx = -sin_fix(ang);
        let ty = cos_fix(ang);
        match self.direction {
            Direction::Concave => (-tx, -ty),
            Direction::Convex => (tx, ty),
        }
    }

    /// Whether `(x, y)` lies inside the arc's angular sector, decided by the
    /// orientation of the query point against the two extremal radius
    /// vectors.
    pub fn within_bounds(&self, x: i64, y: i64) -> (b: bool)
        requires
            self.wf(),
        ensures
            b == self.spec_within_bounds(x as int, y as int),
    {
        let vx = fsub(x, self.x_0);
        let vy = fsub(y, self.y_0);
        let e0x = fsub(self.extremal_0.0, self.x_0);
        let e0y = fsub(self.extremal_0.1, self.y_0);
        let e1x = fsub(self.extremal_1.0, self.x_0);
        let e1y = fsub(self.extremal_1.1, self.y_0);
        let ord0 = cross_product(e0x, e0y, vx, vy);
        let ord1 = cross_product(vx, vy, e1x, e1y);
        let reflex = fabs(fsub(self.theta_1, self.theta_0)) > PI_FIX;
        match self.direction {
            Direction::Convex => if reflex {
                ord0 >= 0 || ord1 >= 0
            } else {
                ord0 >= 0 && ord1 >= 0
            },
            Direction::Concave => if reflex {
                ord0 <= 0 || ord1 <= 0
            } else {
                ord0 <= 0 && ord1 <= 0
            },
        }
    }

    /// Arc-length position of the angular projection of `(x, y)` onto the
    /// arc's circle; meaningful only as a heading estimate for points near
    /// the arc.
    pub fn point_projection_dist(&self, x: i64, y: i64) -> (r: i64)
        requires
            self.wf(),
        ensures
            r == self.spec_point_projection_dist(x as int, y as int),
    {
        let theta = atan2_fix(fsub(y, self.y_0), fsub(x, self.x_0));
        let delta = match self.direction {
            Direction::Convex => fsub(theta, self.theta_0),
            Direction::Concave => fsub(self.theta_0, theta),
        };
        fmul(self.r, delta)
    }

    /// Tangent of the arc at the angular projection of `(x, y)`.
    pub fn point_projection_tangent(&self, x: i64, y: i64) -> (t: (i64, i64))
        requires
            self.wf(),
        ensures
            t.0 == self.spec_point_projection_tangent(x as int, y as int).0,
            t.1 == self.spec_point_projection_tangent(x as int, y as int).1,
            -SCALE <= t.0 <= SCALE,
            -SCALE <= t.1 <= SCALE,
    {
        let d = self.point_projection_dist(x, y);
        self.tangent_at(d)
    }
}

/// Straight-line segment from `(x_0, y_0)` to `(x_1, y_1)`.
#[derive(Clone, Copy, Debug)]
pub struct LinePath {
    pub x_0: i64,
    pub y_0: i64,
    pub x_1: i64,
    pub y_1: i64,
    pub length: i64,
}

impl LinePath {
    /// Well-formedness: bounded distinct endpoints and a memoized length
    /// that equals the endpoint distance (so it is at least one micro-unit).
    pub open spec fn wf(self) -> bool {
        &&& -COORD_MAX <= self.x_0 <= COORD_MAX
        &&& -COORD_MAX <= self.y_0 <= COORD_MAX
        &&& -COORD_MAX <= self.x_1 <= COORD_MAX
        &&& -COORD_MAX <= self.y_1 <= COORD_MAX
        &&& !(self.x_0 == self.x_1 && self.y_0 == self.y_1)
        &&& self.length == spec_dist(self.x_0 as int, self.y_0 as int, self.x_1 as int, self.y_1 as int)
        &&& self.length >= 1
    }

    /// Point reached after travelling `d` along the line from its start.
    pub open spec fn spec_point_at(self, d: int) -> (int, int) {
        (
            spec_add(self.x_0 as int, spec_muldiv(d, self.x_1 - self.x_0, self.length as int)),
            spec_add(self.y_0 as int, spec_muldiv(d, self.y_1 - self.y_0, self.length as int)),
        )
    }

    /// Constant unit tangent of the line.
    pub open spec fn spec_tangent(self) -> (int, int) {
        (
            spec_div(self.x_1 - self.x_0, self.length as int),
            spec_div(self.y_1 - self.y_0, self.length as int),
        )
    }

    /// Arc-length position of the perpendicular projection of `(x, y)`.
    pub open spec fn spec_projection(self, x: int, y: int) -> int {
        spec_div(
            spec_dot(
                spec_sub(x, self.x_0 as int),
                spec_sub(y, self.y_0 as int),
                spec_sub(self.x_1 as int, self.x_0 as int),
                spec_sub(self.y_1 as int, self.y_0 as int),
            ),
            self.length as int,
        )
    }

    /// Perpendicular signed offset of `(x, y)` from the infinite line: a
    /// point to the left of the direction of travel gets a positive offset.
    pub open spec fn spec_perp_offset(self, x: int, y: int) -> int {
        spec_div(
            spec_cross(
                spec_sub(self.x_1 as int, self.x_0 as int),
                spec_sub(self.y_1 as int, self.y_0 as int),
                spec_sub(x, self.x_0 as int),
                spec_sub(y, self.y_0 as int),
            ),
            self.length as int,
        )
    }

    /// Signed distance of `(x, y)` from the segment: the perpendicular
    /// offset (left of travel positive) when the projection falls inside
    /// the segment, otherwise the distance to the nearer endpoint carrying
    /// the perpendicular sign (a zero offset counts as the negative side).
    pub open spec fn spec_sdf(self, x: int, y: int) -> int {
        let sd = self.spec_perp_offset(x, y);
        let t = self.spec_projection(x, y);
        if 0 <= t <= self.length as int {
            sd
        } else {
            let d0 = spec_dist(x, y, self.x_0 as int, self.y_0 as int);
            let d1 = spec_dist(x, y, self.x_1 as int, self.y_1 as int);
            let m = if d0 <= d1 { d0 } else { d1 };
            if sd > 0 { m } else { -m }
        }
    }

    /// Whether the perpendicular projection of `(x, y)` falls inside the
    /// segment.
    pub open spec fn spec_within_bounds(self, x: int, y: int) -> bool {
        0 <= self.spec_projection(x, y) <= self.length as int
    }

    /// The line value `new` builds, with its memoized length.
    pub open spec fn spec_make_line(x_0: int, y_0: int, x_1: int, y_1: int) -> LinePath {
        LinePath {
            x_0: x_0 as i64,
            y_0: y_0 as i64,
            x_1: x_1 as i64,
            y_1: y_1 as i64,
            length: spec_dist(x_0, y_0, x_1, y_1) as i64,
        }
    }

    /// Builds the segment between two distinct bounded points.
    pub fn new(x_0: i64, y_0: i64, x_1: i64, y_1: i64) -> (l: LinePath)
        requires
            -COORD_MAX <= x_0 <= COORD_MAX,
            -COORD_MAX <= y_0 <= COORD_MAX,
            -COORD_MAX <= x_1 <= COORD_MAX,
            -COORD_MAX <= y_1 <= COORD_MAX,
            !(x_0 == x_1 && y_0 == y_1),
        ensures
            l.wf(),
            l == Self::spec_make_line(x_0 as int, y_0 as int, x_1 as int, y_1 as int),
            l.x_0 == x_0,
            l.y_0 == y_0,
            l.x_1 == x_1,
            l.y_1 == y_1,
    {
        let length = fdist(x_0, y_0, x_1, y_1);
        proof {
            let dx = x_0 as int - x_1 as int;
            let dy = y_0 as int - y_1 as int;
            assert(1 <= dx * dx + dy * dy <= 8_000_000_000_000_000_000_000_000) by (nonlinear_arith)
                requires
                    dx != 0 || dy != 0,
                    -2_000_000_000_000 <= dx <= 2_000_000_000_000,
                    -2_000_000_000_000 <= dy <= 2_000_000_000_000,
            ;
            let dd = (dx * dx + dy * dy) as nat;
            crate::fixed::lemma_sqrt_floor_bounds(dd);
            let s = sqrt_floor(dd);
            assert(s >= 1) by (nonlinear_arith)
                requires dd >= 1, dd < (s + 1) * (s + 1),
            ;
            assert(s <= 3_000_000_000_000) by (nonlinear_arith)
                requires s * s <= dd, dd <= 8_000_000_000_000_000_000_000_000,
            ;
        }
        LinePath { x_0, y_0, x_1, y_1, length }
    }

    /// Memoized segment length; at least one micro-unit.
    pub fn length(&self) -> (r: i64)
        requires
            self.wf(),
        ensures
            r == self.length,
            r >= 1,
    {
        self.length
    }

    /// First endpoint.
    pub fn first_point(&self) -> (p: (i64, i64))
        ensures
            p == (self.x_0, self.y_0),
    {
        (self.x_0, self.y_0)
    }

    /// Last endpoint.
    pub fn last_point(&self) -> (p: (i64, i64))
        ensures
            p == (self.x_1, self.y_1),
    {
        (self.x_1, self.y_1)
    }

    /// Point reached after travelling `d` along the line from its start.
    pub fn point_at(&self, d: i64) -> (p: (i64, i64))
        requires
            self.wf(),
            0 <= d <= self.length,
        ensures
            p.0 == self.spec_point_at(d as int).0,
            p.1 == self.spec_point_at(d as int).1,
    {
        (
            fadd(self.x_0, fmuldiv(d, fsub(self.x_1, self.x_0), self.length)),
            fadd(self.y_0, fmuldiv(d, fsub(self.y_1, self.y_0), self.length)),
        )
    }

    /// Unit tangent of the line; the same for every arc-length position.
    pub fn tangent_at(&self, d: i64) -> (t: (i64, i64))
        requires
            self.wf(),
        ensures
            t.0 == self.spec_tangent().0,
            t.1 == self.spec_tangent().1,
    {
        let _ = d;
        (fdiv(fsub(self.x_1, self.x_0), self.length), fdiv(fsub(self.y_1, self.y_0), self.length))
    }

    /// Signed distance of `(x, y)` from the segment.
    pub fn sdf_value(&self, x: i64, y: i64) -> (r: i64)
        requires
            self.wf(),
        ensures
            r == self.spec_sdf(x as int, y as int),
    {
        let ux = fsub(x, self.x_0);
        let uy = fsub(y, self.y_0);
        let vx = fsub(self.x_1, self.x_0);
        let vy = fsub(self.y_1, self.y_0);
        let sd = fdiv(cross_product(vx, vy, ux, uy), self.length);
        let t = fdiv(dot_product(ux, uy, vx, vy), self.length);
        if !(0 <= t && t <= self.length) {
            let d0 = fdist(x, y, self.x_0, self.y_0);
            let d1 = fdist(x, y, self.x_1, self.y_1);
            let m = if d0 <= d1 { d0 } else { d1 };
            if sd > 0 { m } else { -m }
        } else {
            sd
        }
    }

    /// Arc-length position of the perpendicular projection of `(x, y)`
    /// onto the line's carrier.
    pub fn point_projection_distance(&self, x: i64, y: i64) -> (r: i64)
        requires
            self.wf(),
        ensures
            r == self.spec_projection(x as int, y as int),
    {
        let ux = fsub(x, self.x_0);
        let uy = fsub(y, self.y_0);
        let vx = fsub(self.x_1, self.x_0);
        let vy = fsub(self.y_1, self.y_0);
        fdiv(dot_product(ux, uy, vx, vy), self.length)
    }

    /// Whether the perpendicular projection of `(x, y)` falls inside the
    /// segment.
    pub fn within_bounds(&self, x: i64, y: i64) -> (b: bool)
        requires
            self.wf(),
        ensures
            b == self.spec_within_bounds(x as int, y as int),
    {
        let t = self.point_projection_distance(x, y);
        0 <= t && t <= self.length
    }

    /// Constant tangent, also used as the projection tangent for any point.
    pub fn point_projection_tangent(&self, x: i64, y: i64) -> (t: (i64, i64))
        requires
            self.wf(),
        ensures
            t.0 == self.spec_tangent().0,
            t.1 == self.spec_tangent().1,
    {
        let _ = (x, y);
        (fdiv(fsub(self.x_1, self.x_0), self.length), fdiv(fsub(self.y_1, self.y_0), self.length))
    }
}

/// Signed-distance query: `None` when the shape does not claim the point.
pub trait SDF {
    /// Well-formedness condition under which `sdf` may be asked.
    spec fn sdf_wf(&self) -> bool;

    /// Specification of the signed distance.
    spec fn sdf_spec(&self, x: int, y: int) -> Option<int>;

    /// Signed distance of `(x, y)`, or `None` when the point is not
    /// claimed.
    fn sdf(&self, x: i64, y: i64) -> (r: Option<i64>)
        requires
            self.sdf_wf(),
        ensures
            r is Some <==> self.sdf_spec(x as int, y as int) is Some,
            r matches Some(v) ==> self.sdf_spec(x as int, y as int) == Some(v as int),
    ;
}

impl SDF for ArcPath {
    open spec fn sdf_wf(&self) -> bool {
        self.wf()
    }

    open spec fn sdf_spec(&self, x: int, y: int) -> Option<int> {
        self.spec_sdf(x, y)
    }

    fn sdf(&self, x: i64, y: i64) -> (r: Option<i64>) {
        if !self.within_bounds(x, y) {
            return None;
        }
        let sd = fsub(fdist(x, y, self.x_0, self.y_0), self.r);
        match self.direction {
            Direction::Concave => Some(-sd),
            Direction::Convex => Some(sd),
        }
    }
}

impl SDF for LinePath {
    open spec fn sdf_wf(&self) -> bool {
        self.wf()
    }

    open spec fn sdf_spec(&self, x: int, y: int) -> Option<int> {
        Some(self.spec_sdf(x, y))
    }

    fn sdf(&self, x: i64, y: i64) -> (r: Option<i64>) {
        Some(self.sdf_value(x, y))
    }
}


/// A segment of a closed path: either an arc or a line.
#[derive(Clone, Copy, Debug)]
pub enum SubPath {
    Arc(ArcPath),
    Line(LinePath),
}

impl SubPath {
    /// Well-formedness of the wrapped segment.
    pub open spec fn wf(self) -> bool {
        match self {
            SubPath::Arc(a) => a.wf(),
            SubPath::Line(l) => l.wf(),
        }
    }

    /// Length of the wrapped segment.
    pub open spec fn spec_length(self) -> int {
        match self {
            SubPath::Arc(a) => a.spec_length(),
            SubPath::Line(l) => l.length as int,
        }
    }

    /// First point of the wrapped segment.
    pub open spec fn spec_first_point(self) -> (int, int) {
        match self {
            SubPath::Arc(a) => (a.extremal_0.0 as int, a.extremal_0.1 as int),
            SubPath::Line(l) => (l.x_0 as int, l.y_0 as int),
        }
    }

    /// Last point of the wrapped segment.
    pub open spec fn spec_last_point(self) -> (int, int) {
        match self {
            SubPath::Arc(a) => (a.extremal_1.0 as int, a.extremal_1.1 as int),
            SubPath::Line(l) => (l.x_1 as int, l.y_1 as int),
        }
    }

    /// Point reached after travelling `d` along the wrapped segment.
    pub open spec fn spec_point_at(self, d: int) -> (int, int) {
        match self {
            SubPath::Arc(a) => a.spec_point_at(d),
            SubPath::Line(l) => l.spec_point_at(d),
        }
    }

    /// Tangent after travelling `d` along the wrapped segment.
    pub open spec fn spec_tangent_at(self, d: int) -> (int, int) {
        match self {
            SubPath::Arc(a) => a.spec_tangent_at(d),
            SubPath::Line(l) => l.spec_tangent(),
        }
    }

    /// Signed distance of the wrapped segment.
    pub open spec fn spec_sdf(self, x: int, y: int) -> Option<int> {
        match self {
            SubPath::Arc(a) => a.spec_sdf(x, y),
            SubPath::Line(l) => Some(l.spec_sdf(x, y)),
        }
    }

    /// Length of the wrapped segment; at least one micro-unit.
    pub fn length(&self) -> (r: i64)
        requires
            self.wf(),
        ensures
            r == self.spec_length(),
            1 <= r <= FIX_MAX,
    {
        match self {
            SubPath::Arc(a) => a.length(),
            SubPath::Line(l) => l.length(),
        }
    }

    /// First point of the wrapped segment.
    pub fn first_point(&self) -> (p: (i64, i64))
        requires
            self.wf(),
        ensures
            p.0 == self.spec_first_point().0,
            p.1 == self.spec_first_point().1,
    {
        match self {
            SubPath::Arc(a) => a.first_point(),
            SubPath::Line(l) => l.first_point(),
        }
    }

    /// Last point of the wrapped segment.
    pub fn last_point(&self) -> (p: (i64, i64))
        requires
            self.wf(),
        ensures
            p.0 == self.spec_last_point().0,
            p.1 == self.spec_last_point().1,
    {
        match self {
            SubPath::Arc(a) => a.last_point(),
            SubPath::Line(l) => l.last_point(),
        }
    }

    /// Point reached after travelling `d` along the wrapped segment.
    pub fn point_at(&self, d: i64) -> (p: (i64, i64))
        requires
            self.wf(),
            0 <= d <= self.spec_length(),
        ensures
            p.0 == self.spec_point_at(d as int).0,
            p.1 == self.spec_point_at(d as int).1,
    {
        match self {
            SubPath::Arc(a) => a.point_at(d),
            SubPath::Line(l) => l.point_at(d),
        }
    }

    /// Tangent after travelling `d` along the wrapped segment.
    pub fn tangent_at(&self, d: i64) -> (t: (i64, i64))
        requires
            self.wf(),
        ensures
            t.0 == self.spec_tangent_at(d as int).0,
            t.1 == self.spec_tangent_at(d as int).1,
    {
        match self {
            SubPath::Arc(a) => a.tangent_at(d),
            SubPath::Line(l) => l.tangent_at(d),
        }
    }
}

impl SubPath {
    /// Arc-length position of the projection of `(x, y)` onto the wrapped
    /// segment's carrier curve.
    pub open spec fn spec_point_projection_distance(self, x: int, y: int) -> int {
        match self {
            SubPath::Arc(a) => a.spec_point_projection_dist(x, y),
            SubPath::Line(l) => l.spec_projection(x, y),
        }
    }

    /// Arc-length position of the projection of `(x, y)` onto the wrapped
    /// segment's carrier curve.
    pub fn point_projection_distance(&self, x: i64, y: i64) -> (r: i64)
        requires
            self.wf(),
        ensures
            r == self.spec_point_projection_distance(x as int, y as int),
    {
        match self {
            SubPath::Arc(a) => a.point_projection_dist(x, y),
            SubPath::Line(l) => l.point_projection_distance(x, y),
        }
    }

    /// Tangent at the projection of `(x, y)` onto the wrapped segment.
    pub open spec fn spec_point_projection_tangent(self, x: int, y: int) -> (int, int) {
        match self {
            SubPath::Arc(a) => a.spec_point_projection_tangent(x, y),
            SubPath::Line(l) => l.spec_tangent(),
        }
    }

    /// Tangent at the projection of `(x, y)` onto the wrapped segment.
    pub fn point_projection_tangent(&self, x: i64, y: i64) -> (t: (i64, i64))
        requires
            self.wf(),
        ensures
            t.0 == self.spec_point_projection_tangent(x as int, y as int).0,
            t.1 == self.spec_point_projection_tangent(x as int, y as int).1,
    {
        match self {
            SubPath::Arc(a) => a.point_projection_tangent(x, y),
            SubPath::Line(l) => l.point_projection_tangent(x, y),
        }
    }
}

impl SDF for SubPath {
    open spec fn sdf_wf(&self) -> bool {
        self.wf()
    }

    open spec fn sdf_spec(&self, x: int, y: int) -> Option<int> {
        self.spec_sdf(x, y)
    }

    fn sdf(&self, x: i64, y: i64) -> (r: Option<i64>) {
        match self {
            SubPath::Arc(a) => a.sdf(x, y),
            SubPath::Line(l) => l.sdf(x, y),
        }
    }
}

/// Which of the two segment stores an ordering entry points into.
#[derive(Clone, Copy, Debug, PartialEq, Eq, Structural)]
pub enum SubpathType {
    ArcPath,
    LinePath,
}

/// One entry of a closed path's traversal order: which segment comes next
/// and at which cumulative arc length it starts.
#[derive(Clone, Copy, Debug)]
pub struct SubpathIndex {
    pub index: usize,
    pub subpath_type: SubpathType,
    pub start_d: i64,
}

/// Why a closed path could not be constructed.
#[derive(Clone, Copy, Debug, PartialEq, Eq, Structural)]
pub enum PathError {
    /// Fewer than two segments were given.
    TooFewSubpaths,
    /// Adjacent segments do not meet, or the loop does not close, within
    /// `EPS_FIX`.
    NotClosed,
    /// The summed arc length does not fit in the fixed-point range.
    TooLong,
}

/// The segment an ordering entry selects from the two stores.
pub open spec fn seg_of(arcs: Seq<ArcPath>, lines: Seq<LinePath>, e: SubpathIndex) -> SubPath {
    match e.subpath_type {
        SubpathType::ArcPath => SubPath::Arc(arcs[e.index as int]),
        SubpathType::LinePath => SubPath::Line(lines[e.index as int]),
    }
}

/// Whether an ordering entry's index stays inside its store.
pub open spec fn entry_in_range(arcs: Seq<ArcPath>, lines: Seq<LinePath>, e: SubpathIndex) -> bool {
    match e.subpath_type {
        SubpathType::ArcPath => e.index < arcs.len(),
        SubpathType::LinePath => e.index < lines.len(),
    }
}

/// Exact summed length of the first `n` segments of a list.
pub open spec fn total_len(s: Seq<SubPath>, n: int) -> int
    decreases n,
{
    if n <= 0 {
        0
    } else {
        total_len(s, n - 1) + s[n - 1].spec_length()
    }
}

/// With well-formed segments the summed length grows with the prefix.
pub proof fn lemma_total_len_mono(s: Seq<SubPath>, i: int, j: int)
    requires
        0 <= i <= j <= s.len(),
        forall|k: int| 0 <= k < s.len() ==> (#[trigger] s[k]).wf(),
    ensures
        total_len(s, i) <= total_len(s, j),
    decreases j - i,
{
    if i < j {
        lemma_total_len_mono(s, i, j - 1);
        match s[j - 1] {
            SubPath::Arc(a) => {
                lemma_arc_length_bounds(a);
            },
            SubPath::Line(_) => {},
        }
    }
}

/// Adjacency: every segment starts within `EPS_FIX` of where the previous
/// one ends, and the loop closes.
pub open spec fn spec_adjacency_ok(s: Seq<SubPath>) -> bool {
    &&& forall|i: int|
        1 <= i < s.len() ==> #[trigger] spec_dist(
            s[i - 1].spec_last_point().0,
            s[i - 1].spec_last_point().1,
            s[i].spec_first_point().0,
            s[i].spec_first_point().1,
        ) <= EPS_FIX
    &&& spec_dist(
        s[s.len() - 1].spec_last_point().0,
        s[s.len() - 1].spec_last_point().1,
        s[0].spec_first_point().0,
        s[0].spec_first_point().1,
    ) <= EPS_FIX
}

/// A list of segments forms a valid closed path: at least two segments,
/// consecutive endpoints coincide within `EPS_FIX`, and the loop closes.
pub open spec fn spec_valid_closed_path(s: Seq<SubPath>) -> bool {
    s.len() >= 2 && spec_adjacency_ok(s)
}

/// Checks whether the segments form a valid closed path.
pub fn is_valid_closed_path(subpaths: &Vec<SubPath>) -> (b: bool)
    requires
        forall|i: int| 0 <= i < subpaths@.len() ==> (#[trigger] subpaths@[i]).wf(),
    ensures
        b == spec_valid_closed_path(subpaths@),
{
    let n = subpaths.len();
    if n < 2 {
        return false;
    }
    let mut i: usize = 1;
    while i < n
        invariant
            1 <= i <= n,
            n == subpaths@.len(),
            2 <= n,
            forall|k: int| 0 <= k < n ==> (#[trigger] subpaths@[k]).wf(),
            forall|k: int|
                1 <= k < i ==> #[trigger] spec_dist(
                    subpaths@[k - 1].spec_last_point().0,
                    subpaths@[k - 1].spec_last_point().1,
                    subpaths@[k].spec_first_point().0,
                    subpaths@[k].spec_first_point().1,
                ) <= EPS_FIX,
        decreases n - i,
    {
        let prev = subpaths[i - 1].last_point();
        let cur = subpaths[i].first_point();
        if fdist(prev.0, prev.1, cur.0, cur.1) > EPS_FIX {
            return false;
        }
        i += 1;
    }
    let last = subpaths[n - 1].last_point();
    let first = subpaths[0].first_point();
    fdist(last.0, last.1, first.0, first.1) <= EPS_FIX
}

/// A closed loop of segments with a memoized traversal order: `ordering`
/// lists the segments in travel order together with their cumulative start
/// arc lengths, `length` is the total arc length, and `p0` the loop's first
/// point.
#[derive(Debug)]
pub struct ClosedPath {
    pub circle_subpaths: Vec<ArcPath>,
    pub line_subpaths: Vec<LinePath>,
    pub ordering: Vec<SubpathIndex>,
    pub length: i64,
    pub p0_x: i64,
    pub p0_y: i64,
}

impl ClosedPath {
    /// Number of segments on the loop.
    pub open spec fn seg_count(self) -> int {
        self.ordering@.len() as int
    }

    /// The `i`-th segment in travel order.
    pub open spec fn subpath_at(self, i: int) -> SubPath {
        seg_of(self.circle_subpaths@, self.line_subpaths@, self.ordering@[i])
    }

    /// Cumulative start arc length of the `i`-th segment.
    pub open spec fn start_of(self, i: int) -> int {
        self.ordering@[i].start_d as int
    }

    /// Well-formedness: every stored segment is well-formed, the ordering
    /// indexes stay in range, the start table accumulates the exact segment
    /// lengths from zero, the memoized length is the total, and `p0` is the
    /// first segment's first point.
    pub open spec fn wf(self) -> bool {
        &&& 2 <= self.ordering@.len()
        &&& forall|i: int|
            0 <= i < self.circle_subpaths@.len() ==> (#[trigger] self.circle_subpaths@[i]).wf()
        &&& forall|i: int|
            0 <= i < self.line_subpaths@.len() ==> (#[trigger] self.line_subpaths@[i]).wf()
        &&& forall|i: int|
            0 <= i < self.ordering@.len() ==> entry_in_range(
                self.circle_subpaths@,
                self.line_subpaths@,
                #[trigger] self.ordering@[i],
            )
        &&& self.start_of(0) == 0
        &&& forall|i: int|
            1 <= i < self.ordering@.len() ==> #[trigger] self.start_of(i) == self.start_of(i - 1)
                + self.subpath_at(i - 1).spec_length()
        &&& self.length == self.start_of(self.seg_count() - 1) + self.subpath_at(
            self.seg_count() - 1,
        ).spec_length()
        &&& self.length < FIX_MAX
        &&& self.p0_x == self.subpath_at(0).spec_first_point().0
        &&& self.p0_y == self.subpath_at(0).spec_first_point().1
    }

    /// Every segment of a well-formed loop is at least one micro-unit
    /// long and within the fixed-point range.
    pub proof fn lemma_seg_len_pos_pub(self, i: int)
        requires
            self.wf(),
            0 <= i < self.seg_count(),
        ensures
            1 <= self.subpath_at(i).spec_length() <= FIX_MAX,
    {
        self.lemma_seg_len_pos(i);
    }

    /// Every well-formed segment is at least one micro-unit long.
    proof fn lemma_seg_len_pos(self, i: int)
        requires
            self.wf(),
            0 <= i < self.seg_count(),
        ensures
            1 <= self.subpath_at(i).spec_length() <= FIX_MAX,
    {
        let e = self.ordering@[i];
        match e.subpath_type {
            SubpathType::ArcPath => {
                let a = self.circle_subpaths@[e.index as int];
                lemma_arc_length_bounds(a);
            },
            SubpathType::LinePath => {},
        }
    }

    /// Start arc lengths are nonnegative.
    proof fn lemma_starts_nonneg(self, i: int)
        requires
            self.wf(),
            0 <= i < self.seg_count(),
        ensures
            0 <= self.start_of(i),
        decreases i,
    {
        if i > 0 {
            self.lemma_starts_nonneg(i - 1);
            self.lemma_seg_len_pos(i - 1);
        }
    }

    /// Start arc lengths are ordered like their indices.
    proof fn lemma_starts_mono(self, i: int, j: int)
        requires
            self.wf(),
            0 <= i <= j < self.seg_count(),
        ensures
            self.start_of(i) <= self.start_of(j),
        decreases j - i,
    {
        if i < j {
            self.lemma_starts_mono(i, j - 1);
            self.lemma_seg_len_pos(j - 1);
        }
    }

    /// The total length is positive.
    pub proof fn lemma_length_pos(self)
        requires
            self.wf(),
        ensures
            2 <= self.length < FIX_MAX,
    {
        let n = self.seg_count();
        self.lemma_seg_len_pos(n - 1);
        self.lemma_starts_nonneg(n - 1);
        self.lemma_seg_len_pos(0);
        assert(self.start_of(n - 1) >= 1) by {
            self.lemma_starts_mono(0, n - 1);
            assert(self.start_of(1) == self.start_of(0) + self.subpath_at(0).spec_length());
            self.lemma_starts_mono(1, n - 1);
        }
    }

    /// Index of the segment owning arc-length position `dm`: the last entry
    /// whose start is at most `dm`.
    pub open spec fn locate_from(self, dm: int, i: int) -> int
        decreases i,
    {
        if i <= 0 {
            0
        } else if self.start_of(i) <= dm {
            i
        } else {
            self.locate_from(dm, i - 1)
        }
    }

    /// Index of the segment owning arc-length position `dm`.
    pub open spec fn spec_locate(self, dm: int) -> int {
        self.locate_from(dm, self.seg_count() - 1)
    }

    /// The owner index found by `locate_from` is sound: it starts at or
    /// before `dm` and every later scanned entry starts after `dm`.
    #[verifier::rlimit(50)]
    proof fn lemma_locate_from_props(self, dm: int, i: int)
        requires
            self.wf(),
            0 <= dm,
            0 <= i < self.seg_count(),
        ensures
            0 <= self.locate_from(dm, i) <= i,
            self.start_of(self.locate_from(dm, i)) <= dm,
            forall|j: int|
                self.locate_from(dm, i) < j <= i ==> dm < #[trigger] self.start_of(j),
        decreases i,
    {
        if i > 0 && self.start_of(i) > dm {
            self.lemma_locate_from_props(dm, i - 1);
        }
    }

    /// Any index satisfying the owner characterization is the owner.
    pub proof fn lemma_locate_unique(self, dm: int, l: int)
        requires
            self.wf(),
            0 <= dm,
            0 <= l < self.seg_count(),
            self.start_of(l) <= dm,
            l + 1 < self.seg_count() ==> dm < self.start_of(l + 1),
        ensures
            self.spec_locate(dm) == l,
    {
        let n = self.seg_count();
        self.lemma_locate_from_props(dm, n - 1);
        let k = self.spec_locate(dm);
        if k < l {
            assert(dm < self.start_of(l));
        }
        if l < k {
            self.lemma_starts_mono(l + 1, k);
        }
    }

    /// The owner of `dm` covers it: `dm` falls inside the owner's span.
    pub proof fn lemma_locate_covers(self, dm: int)
        requires
            self.wf(),
            0 <= dm < self.length,
        ensures
            0 <= self.spec_locate(dm) < self.seg_count(),
            self.start_of(self.spec_locate(dm)) <= dm,
            dm - self.start_of(self.spec_locate(dm)) < self.subpath_at(
                self.spec_locate(dm),
            ).spec_length(),
    {
        let n = self.seg_count();
        self.lemma_locate_from_props(dm, n - 1);
        let l = self.spec_locate(dm);
        if l + 1 < n {
            assert(dm < self.start_of(l + 1));
        } else {
            assert(l == n - 1);
        }
    }

    /// Total length of the loop.
    pub fn length(&self) -> (r: i64)
        requires
            self.wf(),
        ensures
            r == self.length,
            2 <= r < FIX_MAX,
    {
        proof {
            self.lemma_length_pos();
        }
        self.length
    }

    /// First point of the loop.
    pub fn first_point(&self) -> (p: (i64, i64))
        requires
            self.wf(),
        ensures
            p.0 == self.p0_x,
            p.1 == self.p0_y,
    {
        (self.p0_x, self.p0_y)
    }

    /// Owner entry of the normalized arc-length position `dm`, found by
    /// binary search over the start table.
    #[verifier::rlimit(50)]
    fn locate(&self, dm: i64) -> (r: (usize, i64))
        requires
            self.wf(),
            0 <= dm < self.length,
        ensures
            r.0 == self.spec_locate(dm as int),
            0 <= r.0 < self.seg_count(),
            r.1 == dm - self.start_of(r.0 as int),
            0 <= r.1 < self.subpath_at(r.0 as int).spec_length(),
            entry_in_range(self.circle_subpaths@, self.line_subpaths@, self.ordering@[r.0 as int]),
    {
        let n = self.ordering.len();
        let mut lo: usize = 0;
        let mut hi: usize = n;
        while hi - lo > 1
            invariant
                self.wf(),
                0 <= dm < self.length,
                0 <= lo < hi <= n,
                n == self.seg_count(),
                self.start_of(lo as int) <= dm,
                hi < n ==> dm < self.start_of(hi as int),
            decreases hi - lo,
        {
            let mid = lo + (hi - lo) / 2;
            if self.ordering[mid].start_d <= dm {
                lo = mid;
            } else {
                hi = mid;
            }
        }
        proof {
            self.lemma_locate_unique(dm as int, lo as int);
            self.lemma_locate_covers(dm as int);
            self.lemma_starts_nonneg(lo as int);
            self.lemma_seg_len_pos(lo as int);
        }
        (lo, dm - self.ordering[lo].start_d)
    }

    /// Point on the loop at arc-length position `d`, which is first
    /// normalized modulo the total length.
    #[verifier::opaque]
    pub open spec fn spec_point_at(self, d: int) -> (int, int) {
        let dm = d % (self.length as int);
        let i = self.spec_locate(dm);
        self.subpath_at(i).spec_point_at(dm - self.start_of(i))
    }

    /// Tangent of the loop at arc-length position `d`, which is first
    /// normalized modulo the total length.
    #[verifier::opaque]
    pub open spec fn spec_tangent_at(self, d: int) -> (int, int) {
        let dm = d % (self.length as int);
        let i = self.spec_locate(dm);
        self.subpath_at(i).spec_tangent_at(dm - self.start_of(i))
    }

    /// Point on the loop after travelling `d` from its first point; `d` is
    /// normalized modulo the total length, so any finite position is valid.
    #[verifier::rlimit(50)]
    pub fn point_at(&self, d: i64) -> (p: (i64, i64))
        requires
            self.wf(),
        ensures
            p.0 == self.spec_point_at(d as int).0,
            p.1 == self.spec_point_at(d as int).1,
    {
        proof {
            reveal(ClosedPath::spec_point_at);
            self.lemma_length_pos();
        }
        let dm = emod(d, self.length);
        let (i, local) = self.locate(dm);
        match self.ordering[i].subpath_type {
            SubpathType::ArcPath => self.circle_subpaths[self.ordering[i].index].point_at(local),
            SubpathType::LinePath => self.line_subpaths[self.ordering[i].index].point_at(local),
        }
    }

    /// Tangent of the loop after travelling `d` from its first point; `d`
    /// is normalized modulo the total length.
    #[verifier::rlimit(50)]
    pub fn tangent_at(&self, d: i64) -> (t: (i64, i64))
        requires
            self.wf(),
        ensures
            t.0 == self.spec_tangent_at(d as int).0,
            t.1 == self.spec_tangent_at(d as int).1,
    {
        proof {
            reveal(ClosedPath::spec_tangent_at);
            self.lemma_length_pos();
        }
        let dm = emod(d, self.length);
        let (i, local) = self.locate(dm);
        match self.ordering[i].subpath_type {
            SubpathType::ArcPath => self.circle_subpaths[self.ordering[i].index].tangent_at(local),
            SubpathType::LinePath => self.line_subpaths[self.ordering[i].index].tangent_at(local),
        }
    }

    /// Arc-length position of the `j`-th of `n + 1` evenly spaced samples.
    pub open spec fn spec_sample_d(self, n: int, j: int) -> int {
        spec_muldiv(j, spec_muldiv(self.length as int, 1, n), 1)
    }

    /// `n + 1` points evenly spaced along the loop, from its first point
    /// back around to it.
    #[verifier::rlimit(100)]
    #[verifier::loop_isolation(false)]
    pub fn sample_points_num(&self, n: usize) -> (r: Vec<(i64, i64)>)
        requires
            self.wf(),
            1 <= n,
            n <= 1_000_000_000,
        ensures
            r@.len() == n + 1,
            forall|j: int|
                0 <= j <= n ==> (#[trigger] r@[j]).0 == self.spec_point_at(
                    self.spec_sample_d(n as int, j),
                ).0 && r@[j].1 == self.spec_point_at(self.spec_sample_d(n as int, j)).1,
    {
        let delta = fmuldiv(self.length, 1, n as i64);
        let mut r: Vec<(i64, i64)> = Vec::new();
        let mut j: usize = 0;
        while j <= n
            invariant
                self.wf(),
                1 <= n <= 1_000_000_000,
                delta == spec_muldiv(self.length as int, 1, n as int),
                0 <= j <= n + 1,
                r@.len() == j,
                forall|k: int|
                    0 <= k < j ==> (#[trigger] r@[k]).0 == self.spec_point_at(
                        self.spec_sample_d(n as int, k),
                    ).0 && r@[k].1 == self.spec_point_at(self.spec_sample_d(n as int, k)).1,
            decreases n + 1 - j,
        {
            let d = fmuldiv(j as i64, delta, 1);
            r.push(self.point_at(d));
            j += 1;
        }
        r
    }

    /// `n + 1` tangents evenly spaced along the loop.
    #[verifier::rlimit(100)]
    #[verifier::loop_isolation(false)]
    pub fn sample_tangents_num(&self, n: usize) -> (r: Vec<(i64, i64)>)
        requires
            self.wf(),
            1 <= n,
            n <= 1_000_000_000,
        ensures
            r@.len() == n + 1,
            forall|j: int|
                0 <= j <= n ==> (#[trigger] r@[j]).0 == self.spec_tangent_at(
                    self.spec_sample_d(n as int, j),
                ).0 && r@[j].1 == self.spec_tangent_at(self.spec_sample_d(n as int, j)).1,
    {
        let delta = fmuldiv(self.length, 1, n as i64);
        let mut r: Vec<(i64, i64)> = Vec::new();
        let mut j: usize = 0;
        while j <= n
            invariant
                self.wf(),
                1 <= n <= 1_000_000_000,
                delta == spec_muldiv(self.length as int, 1, n as int),
                0 <= j <= n + 1,
                r@.len() == j,
                forall|k: int|
                    0 <= k < j ==> (#[trigger] r@[k]).0 == self.spec_tangent_at(
                        self.spec_sample_d(n as int, k),
                    ).0 && r@[k].1 == self.spec_tangent_at(self.spec_sample_d(n as int, k)).1,
            decreases n + 1 - j,
        {
            let d = fmuldiv(j as i64, delta, 1);
            r.push(self.tangent_at(d));
            j += 1;
        }
        r
    }

    /// Builds a closed path from segments given in travel order, validating
    /// the loop and memoizing the start table, the total length and the
    /// first point.
    pub fn new(subpaths: Vec<SubPath>) -> (r: Result<ClosedPath, PathError>)
        requires
            forall|i: int| 0 <= i < subpaths@.len() ==> (#[trigger] subpaths@[i]).wf(),
        ensures
            subpaths@.len() < 2 <==> r == Result::<ClosedPath, PathError>::Err(
                PathError::TooFewSubpaths,
            ),
            subpaths@.len() >= 2 ==> (!spec_adjacency_ok(subpaths@) <==> r
                == Result::<ClosedPath, PathError>::Err(PathError::NotClosed)),
            subpaths@.len() >= 2 && spec_adjacency_ok(subpaths@) ==> (r is Ok <==> total_len(
                subpaths@,
                subpaths@.len() as int,
            ) < FIX_MAX),
            r matches Ok(p) ==> p.wf() && p.seg_count() == subpaths@.len() && (forall|i: int|
                0 <= i < subpaths@.len() ==> #[trigger] p.subpath_at(i) == subpaths@[i])
                && p.length == total_len(subpaths@, subpaths@.len() as int),
    {
        let n = subpaths.len();
        if n < 2 {
            return Err(PathError::TooFewSubpaths);
        }
        if !is_valid_closed_path(&subpaths) {
            return Err(PathError::NotClosed);
        }
        Self::assemble(subpaths)
    }

    /// Lays out segments into the split stores, the start table and the
    /// memoized totals; fails only when the summed length leaves the
    /// fixed-point range.
    fn assemble(subpaths: Vec<SubPath>) -> (r: Result<ClosedPath, PathError>)
        requires
            subpaths@.len() >= 2,
            forall|i: int| 0 <= i < subpaths@.len() ==> (#[trigger] subpaths@[i]).wf(),
        ensures
            r is Ok <==> total_len(subpaths@, subpaths@.len() as int) < FIX_MAX,
            r is Err ==> r == Result::<ClosedPath, PathError>::Err(PathError::TooLong),
            r matches Ok(p) ==> p.wf() && p.seg_count() == subpaths@.len() && (forall|i: int|
                0 <= i < subpaths@.len() ==> #[trigger] p.subpath_at(i) == subpaths@[i])
                && p.length == total_len(subpaths@, subpaths@.len() as int),
    {
        let n = subpaths.len();
        let mut arcs: Vec<ArcPath> = Vec::new();
        let mut lines: Vec<LinePath> = Vec::new();
        let mut ordering: Vec<SubpathIndex> = Vec::new();
        let mut start: i64 = 0;
        let mut i: usize = 0;
        while i < n
            invariant
                0 <= i <= n,
                n == subpaths@.len(),
                2 <= n,
                forall|k: int| 0 <= k < n ==> (#[trigger] subpaths@[k]).wf(),
                ordering@.len() == i,
                forall|k: int|
                    0 <= k < arcs@.len() ==> (#[trigger] arcs@[k]).wf(),
                forall|k: int|
                    0 <= k < lines@.len() ==> (#[trigger] lines@[k]).wf(),
                forall|k: int|
                    0 <= k < i ==> entry_in_range(arcs@, lines@, #[trigger] ordering@[k]),
                forall|k: int|
                    0 <= k < i ==> #[trigger] seg_of(arcs@, lines@, ordering@[k]) == subpaths@[k],
                i > 0 ==> ordering@[0].start_d == 0,
                forall|k: int|
                    1 <= k < i ==> #[trigger] ordering@[k].start_d == ordering@[k - 1].start_d
                        + subpaths@[k - 1].spec_length(),
                i > 0 ==> start == ordering@[i - 1].start_d + subpaths@[i - 1].spec_length(),
                i == 0 ==> start == 0,
                0 <= start < FIX_MAX,
                start == total_len(subpaths@, i as int),
            decreases n - i,
        {
            let sp = subpaths[i];
            let ghost arcs0 = arcs@;
            let ghost lines0 = lines@;
            let ghost ordering0 = ordering@;
            match sp {
                SubPath::Arc(a) => {
                    ordering.push(SubpathIndex {
                        index: arcs.len(),
                        subpath_type: SubpathType::ArcPath,
                        start_d: start,
                    });
                    arcs.push(a);
                },
                SubPath::Line(l) => {
                    ordering.push(SubpathIndex {
                        index: lines.len(),
                        subpath_type: SubpathType::LinePath,
                        start_d: start,
                    });
                    lines.push(l);
                },
            }
            proof {
                assert forall|k: int| 0 <= k < i implies #[trigger] seg_of(
                    arcs@,
                    lines@,
                    ordering@[k],
                ) == subpaths@[k] by {
                    assert(ordering@[k] == ordering0[k]);
                    assert(entry_in_range(arcs0, lines0, ordering0[k]));
                    assert(seg_of(arcs0, lines0, ordering0[k]) == subpaths@[k]);
                }
                assert(seg_of(arcs@, lines@, ordering@[i as int]) == subpaths@[i as int]);
            }
            let li = sp.length();
            start = fadd(start, li);
            if start >= FIX_MAX {
                proof {
                    lemma_total_len_mono(subpaths@, i as int + 1, n as int);
                }
                return Err(PathError::TooLong);
            }
            i += 1;
        }
        let p0 = subpaths[0].first_point();
        let path = ClosedPath {
            circle_subpaths: arcs,
            line_subpaths: lines,
            ordering,
            length: start,
            p0_x: p0.0,
            p0_y: p0.1,
        };
        Ok(path)
    }
}

/// A well-formed arc's length lies between one micro-unit and the
/// saturation bound.
pub proof fn lemma_arc_length_bounds(a: ArcPath)
    requires
        a.wf(),
    ensures
        1 <= a.spec_length() <= FIX_MAX,
{
    let rr = a.r as int;
    let t = abs_int(a.theta_1 as int - a.theta_0 as int);
    let p = rr * t;
    assert(t <= 126_000_000);
    assert(p <= 126_000_000_000_000_000_000) by (nonlinear_arith)
        requires
            p == rr * t,
            1 <= rr,
            rr <= 1_000_000_000_000,
            0 <= t,
            t <= 126_000_000,
    ;
    vstd::arithmetic::div_mod::lemma_div_is_ordered(SCALE as int, p, SCALE as int);
    vstd::arithmetic::div_mod::lemma_div_is_ordered(p, 126_000_000_000_000_000_000, SCALE as int);
    assert(126_000_000_000_000_000_000int / 1_000_000int == 126_000_000_000_000);
}


/// Keeps the signed distance whose absolute value is smaller; on a tie, and
/// when the candidate is not claimed, the earlier value stays.
pub open spec fn best_sd(prev: Option<int>, cand: Option<int>) -> Option<int> {
    match cand {
        None => prev,
        Some(c) => match prev {
            None => Some(c),
            Some(p) => if spec_abs(c) < spec_abs(p) { Some(c) } else { Some(p) },
        },
    }
}

/// Minimum-by-absolute-value signed distance over the first `n` arcs.
pub open spec fn fold_arc_sd(s: Seq<ArcPath>, x: int, y: int, n: int) -> Option<int>
    decreases n,
{
    if n <= 0 {
        None
    } else {
        best_sd(fold_arc_sd(s, x, y, n - 1), s[n - 1].spec_sdf(x, y))
    }
}

/// Minimum-by-absolute-value signed distance over the first `n` lines,
/// seeded with the arcs' result.
pub open spec fn fold_line_sd(s: Seq<LinePath>, x: int, y: int, init: Option<int>, n: int) -> Option<
    int,
>
    decreases n,
{
    if n <= 0 {
        init
    } else {
        best_sd(fold_line_sd(s, x, y, init, n - 1), Some(s[n - 1].spec_sdf(x, y)))
    }
}

/// Running pick of the closest segment: absolute distance, index, and kind.
pub open spec fn best_pick(
    prev: (Option<int>, int, SubpathType),
    cand: Option<int>,
    idx: int,
    st: SubpathType,
) -> (Option<int>, int, SubpathType) {
    match cand {
        None => prev,
        Some(c) => {
            let d = spec_abs(c);
            match prev.0 {
                None => (Some(d), idx, st),
                Some(p) => if d < p { (Some(d), idx, st) } else { prev },
            }
        },
    }
}

/// Closest-arc pick over the first `n` arcs.
pub open spec fn fold_arc_pick(s: Seq<ArcPath>, x: int, y: int, n: int) -> (
    Option<int>,
    int,
    SubpathType,
)
    decreases n,
{
    if n <= 0 {
        (None, 0, SubpathType::ArcPath)
    } else {
        best_pick(fold_arc_pick(s, x, y, n - 1), s[n - 1].spec_sdf(x, y), n - 1, SubpathType::ArcPath)
    }
}

/// Closest-segment pick over the first `n` lines, seeded with the arcs'
/// pick.
pub open spec fn fold_line_pick(
    s: Seq<LinePath>,
    x: int,
    y: int,
    init: (Option<int>, int, SubpathType),
    n: int,
) -> (Option<int>, int, SubpathType)
    decreases n,
{
    if n <= 0 {
        init
    } else {
        best_pick(
            fold_line_pick(s, x, y, init, n - 1),
            Some(s[n - 1].spec_sdf(x, y)),
            n - 1,
            SubpathType::LinePath,
        )
    }
}

impl ClosedPath {
    /// Signed distance of the loop at `(x, y)`: the per-segment signed
    /// distance of smallest absolute value, arcs scanned before lines, the
    /// first minimum winning; `None` when no segment claims the point.
    pub open spec fn spec_sdf(self, x: int, y: int) -> Option<int> {
        fold_line_sd(
            self.line_subpaths@,
            x,
            y,
            fold_arc_sd(self.circle_subpaths@, x, y, self.circle_subpaths@.len() as int),
            self.line_subpaths@.len() as int,
        )
    }

    /// Index and kind of the claiming segment closest to `(x, y)`; the
    /// default when no segment claims the point is the first arc.
    pub open spec fn spec_closest_subpath(self, x: int, y: int) -> (int, SubpathType) {
        let p = fold_line_pick(
            self.line_subpaths@,
            x,
            y,
            fold_arc_pick(self.circle_subpaths@, x, y, self.circle_subpaths@.len() as int),
            self.line_subpaths@.len() as int,
        );
        (p.1, p.2)
    }

    /// Projection tangent: the tangent of the closest claiming segment at
    /// the query point's projection onto it.
    pub open spec fn spec_point_projection_tangent(self, x: int, y: int) -> (int, int) {
        let (i, st) = self.spec_closest_subpath(x, y);
        match st {
            SubpathType::ArcPath => self.circle_subpaths@[i].spec_point_projection_tangent(x, y),
            SubpathType::LinePath => self.line_subpaths@[i].spec_tangent(),
        }
    }

    /// Index and kind of the subpath closest to `(x, y)` by absolute signed
    /// distance, scanning arcs before lines and keeping the first minimum.
    pub fn closest_subpath_index(&self, x: i64, y: i64) -> (r: (usize, SubpathType))
        requires
            self.wf(),
        ensures
            r.0 as int == self.spec_closest_subpath(x as int, y as int).0,
            r.1 == self.spec_closest_subpath(x as int, y as int).1,
    {
        let mut min_dist: Option<i64> = None;
        let mut min_index: usize = 0;
        let mut min_subpath_type = SubpathType::ArcPath;
        let na = self.circle_subpaths.len();
        let mut i: usize = 0;
        while i < na
            invariant
                self.wf(),
                0 <= i <= na,
                na == self.circle_subpaths@.len(),
                ({
                    let p = fold_arc_pick(self.circle_subpaths@, x as int, y as int, i as int);
                    &&& (min_dist is Some <==> p.0 is Some)
                    &&& (min_dist matches Some(v) ==> p.0 == Some(v as int))
                    &&& min_index as int == p.1
                    &&& min_subpath_type == p.2
                }),
            decreases na - i,
        {
            if let Some(sd) = self.circle_subpaths[i].sdf(x, y) {
                let d = fabs(sd);
                let better = match min_dist {
                    None => true,
                    Some(m) => d < m,
                };
                if better {
                    min_dist = Some(d);
                    min_index = i;
                    min_subpath_type = SubpathType::ArcPath;
                }
            }
            i += 1;
        }
        let nl = self.line_subpaths.len();
        let mut j: usize = 0;
        while j < nl
            invariant
                self.wf(),
                0 <= j <= nl,
                nl == self.line_subpaths@.len(),
                ({
                    let p = fold_line_pick(
                        self.line_subpaths@,
                        x as int,
                        y as int,
                        fold_arc_pick(
                            self.circle_subpaths@,
                            x as int,
                            y as int,
                            self.circle_subpaths@.len() as int,
                        ),
                        j as int,
                    );
                    &&& (min_dist is Some <==> p.0 is Some)
                    &&& (min_dist matches Some(v) ==> p.0 == Some(v as int))
                    &&& min_index as int == p.1
                    &&& min_subpath_type == p.2
                }),
            decreases nl - j,
        {
            if let Some(sd) = self.line_subpaths[j].sdf(x, y) {
                let d = fabs(sd);
                let better = match min_dist {
                    None => true,
                    Some(m) => d < m,
                };
                if better {
                    min_dist = Some(d);
                    min_index = j;
                    min_subpath_type = SubpathType::LinePath;
                }
            }
            j += 1;
        }
        (min_index, min_subpath_type)
    }

    /// The closest pick always lands on a segment that exists.
    pub proof fn lemma_closest_in_range(self, x: int, y: int)
        requires
            self.wf(),
        ensures
            ({
                let (i, st) = self.spec_closest_subpath(x, y);
                match st {
                    SubpathType::ArcPath => 0 <= i < self.circle_subpaths@.len(),
                    SubpathType::LinePath => 0 <= i < self.line_subpaths@.len(),
                }
            }),
    {
        let na = self.circle_subpaths@.len() as int;
        let nl = self.line_subpaths@.len() as int;
        let ap = fold_arc_pick(self.circle_subpaths@, x, y, na);
        lemma_fold_arc_pick_range(self.circle_subpaths@, x, y, na);
        lemma_fold_line_pick_range(self.line_subpaths@, x, y, ap, nl);
        let p = fold_line_pick(self.line_subpaths@, x, y, ap, nl);
        if p.0 is None {
            lemma_fold_line_pick_none(self.line_subpaths@, x, y, ap, nl);
            if na == 0 && nl == 0 {
                assert(entry_in_range(
                    self.circle_subpaths@,
                    self.line_subpaths@,
                    self.ordering@[0],
                ));
            }
            if na == 0 {
                assert(entry_in_range(
                    self.circle_subpaths@,
                    self.line_subpaths@,
                    self.ordering@[0],
                ));
            }
        }
    }

    /// Tangent of the segment closest to `(x, y)`, taken at the point's
    /// projection onto that segment; a heading estimate for points near the
    /// loop.
    pub fn point_projection_tangent(&self, x: i64, y: i64) -> (t: (i64, i64))
        requires
            self.wf(),
        ensures
            t.0 == self.spec_point_projection_tangent(x as int, y as int).0,
            t.1 == self.spec_point_projection_tangent(x as int, y as int).1,
    {
        proof {
            self.lemma_closest_in_range(x as int, y as int);
        }
        let (i, st) = self.closest_subpath_index(x, y);
        match st {
            SubpathType::ArcPath => self.circle_subpaths[i].point_projection_tangent(x, y),
            SubpathType::LinePath => self.line_subpaths[i].point_projection_tangent(x, y),
        }
    }
}

impl SDF for ClosedPath {
    open spec fn sdf_wf(&self) -> bool {
        self.wf()
    }

    open spec fn sdf_spec(&self, x: int, y: int) -> Option<int> {
        self.spec_sdf(x, y)
    }

    fn sdf(&self, x: i64, y: i64) -> (r: Option<i64>) {
        let mut best: Option<i64> = None;
        let na = self.circle_subpaths.len();
        let mut i: usize = 0;
        while i < na
            invariant
                self.wf(),
                0 <= i <= na,
                na == self.circle_subpaths@.len(),
                ({
                    let f = fold_arc_sd(self.circle_subpaths@, x as int, y as int, i as int);
                    &&& (best is Some <==> f is Some)
                    &&& (best matches Some(v) ==> f == Some(v as int))
                }),
            decreases na - i,
        {
            if let Some(sd) = self.circle_subpaths[i].sdf(x, y) {
                let better = match best {
                    None => true,
                    Some(b) => {
                        let d = fabs(sd);
                        let db = fabs(b);
                        d < db
                    },
                };
                if better {
                    best = Some(sd);
                }
            }
            i += 1;
        }
        let nl = self.line_subpaths.len();
        let mut j: usize = 0;
        while j < nl
            invariant
                self.wf(),
                0 <= j <= nl,
                nl == self.line_subpaths@.len(),
                ({
                    let f = fold_line_sd(
                        self.line_subpaths@,
                        x as int,
                        y as int,
                        fold_arc_sd(
                            self.circle_subpaths@,
                            x as int,
                            y as int,
                            self.circle_subpaths@.len() as int,
                        ),
                        j as int,
                    );
                    &&& (best is Some <==> f is Some)
                    &&& (best matches Some(v) ==> f == Some(v as int))
                }),
            decreases nl - j,
        {
            let sd = self.line_subpaths[j].sdf_value(x, y);
            let better = match best {
                None => true,
                Some(b) => {
                    let d = fabs(sd);
                    let db = fabs(b);
                    d < db
                },
            };
            if better {
                best = Some(sd);
            }
            j += 1;
        }
        best
    }
}

/// A pick over the first `n` arcs points at one of them whenever it is a
/// real pick.
proof fn lemma_fold_arc_pick_range(s: Seq<ArcPath>, x: int, y: int, n: int)
    requires
        n <= s.len(),
    ensures
        ({
            let p = fold_arc_pick(s, x, y, n);
            p.0 is Some ==> 0 <= p.1 < n && p.2 == SubpathType::ArcPath
        }),
        ({
            let p = fold_arc_pick(s, x, y, n);
            p.0 is None ==> p == (None::<int>, 0int, SubpathType::ArcPath)
        }),
    decreases n,
{
    if n > 0 {
        lemma_fold_arc_pick_range(s, x, y, n - 1);
    }
}

/// A pick over the first `n` lines points at one of them or keeps a valid
/// seed.
proof fn lemma_fold_line_pick_range(
    s: Seq<LinePath>,
    x: int,
    y: int,
    init: (Option<int>, int, SubpathType),
    n: int,
)
    requires
        n <= s.len(),
    ensures
        ({
            let p = fold_line_pick(s, x, y, init, n);
            p.0 is Some ==> p == init || (0 <= p.1 < n && p.2 == SubpathType::LinePath)
        }),
        ({
            let p = fold_line_pick(s, x, y, init, n);
            p.0 is None ==> p == init
        }),
    decreases n,
{
    if n > 0 {
        lemma_fold_line_pick_range(s, x, y, init, n - 1);
    }
}

/// A line always claims the query point, so an empty pick means there were
/// no lines.
proof fn lemma_fold_line_pick_none(
    s: Seq<LinePath>,
    x: int,
    y: int,
    init: (Option<int>, int, SubpathType),
    n: int,
)
    requires
        0 <= n <= s.len(),
    ensures
        fold_line_pick(s, x, y, init, n).0 is None ==> n == 0 && init.0 is None,
    decreases n,
{
    if n > 0 {
        lemma_fold_line_pick_none(s, x, y, init, n - 1);
    }
}



/// Which segment of the reference loop stands at each position of its
/// travel order.
pub open spec fn spec_reference_segment(i: int) -> SubPath {
    if i == 0 {
        SubPath::Line(LinePath::spec_make_line(0, -4_000_000, 8_000_000, -4_000_000))
    } else if i == 1 {
        SubPath::Line(LinePath::spec_make_line(8_000_000, -4_000_000, 8_000_000, -9_000_000))
    } else if i == 2 {
        SubPath::Arc(ArcPath::spec_make_arc(7_000_000, -9_000_000, 1_000_000, 0, -1_570_796))
    } else if i == 3 {
        SubPath::Line(LinePath::spec_make_line(7_000_000, -10_000_000, 3_000_000, -10_000_000))
    } else if i == 4 {
        SubPath::Arc(ArcPath::spec_make_arc(3_000_000, -11_000_000, 1_000_000, 1_570_796, 4_712_389))
    } else if i == 5 {
        SubPath::Line(LinePath::spec_make_line(3_000_000, -12_000_000, 8_000_000, -12_000_000))
    } else if i == 6 {
        SubPath::Arc(ArcPath::spec_make_arc(8_000_000, -10_000_000, 2_000_000, -1_570_796, 0))
    } else if i == 7 {
        SubPath::Line(LinePath::spec_make_line(10_000_000, -10_000_000, 10_000_000, -2_000_000))
    } else if i == 8 {
        SubPath::Arc(ArcPath::spec_make_arc(8_000_000, -2_000_000, 2_000_000, 0, 1_570_796))
    } else if i == 9 {
        SubPath::Line(LinePath::spec_make_line(8_000_000, 0, 0, 0))
    } else {
        SubPath::Arc(ArcPath::spec_make_arc(0, -2_000_000, 2_000_000, 1_570_796, 4_712_389))
    }
}

/// The reference loop: eleven segments (six lines, five arcs) forming a
/// closed course, in micro-units, with its traversal table, total length
/// and first point built in.  The contract pins each segment, the loop's
/// totals, and its validity: the eleven junctions coincide within the
/// closure tolerance.
pub fn predefined_closed_path_sdf() -> (r: ClosedPath)
    ensures
        r.wf(),
        r.seg_count() == 11,
        forall|i: int| 0 <= i < 11 ==> #[trigger] r.subpath_at(i) == spec_reference_segment(i),
        spec_valid_closed_path(Seq::new(11, |i: int| r.subpath_at(i))),
        r.p0_x == 0,
        r.p0_y == -4_000_000,
        r.length == 55_278_759,
{
    let l0 = LinePath::new(0, -4_000_000, 8_000_000, -4_000_000);
    let l1 = LinePath::new(8_000_000, -4_000_000, 8_000_000, -9_000_000);
    let l2 = LinePath::new(7_000_000, -10_000_000, 3_000_000, -10_000_000);
    let l3 = LinePath::new(3_000_000, -12_000_000, 8_000_000, -12_000_000);
    let l4 = LinePath::new(10_000_000, -10_000_000, 10_000_000, -2_000_000);
    let l5 = LinePath::new(8_000_000, 0, 0, 0);
    let a0 = ArcPath::new(7_000_000, -9_000_000, 1_000_000, 0, -crate::trig::HALF_PI_FIX);
    let a1 = ArcPath::new(
        3_000_000,
        -11_000_000,
        1_000_000,
        crate::trig::HALF_PI_FIX,
        PI_FIX + crate::trig::HALF_PI_FIX,
    );
    let a2 = ArcPath::new(8_000_000, -10_000_000, 2_000_000, -crate::trig::HALF_PI_FIX, 0);
    let a3 = ArcPath::new(8_000_000, -2_000_000, 2_000_000, 0, crate::trig::HALF_PI_FIX);
    let a4 = ArcPath::new(
        0,
        -2_000_000,
        2_000_000,
        crate::trig::HALF_PI_FIX,
        PI_FIX + crate::trig::HALF_PI_FIX,
    );
    proof {
        lemma_axis_line_length(l0);
        lemma_axis_line_length(l1);
        lemma_axis_line_length(l2);
        lemma_axis_line_length(l3);
        lemma_axis_line_length(l4);
        lemma_axis_line_length(l5);
        assert(a0.r * abs_int(a0.theta_1 as int - a0.theta_0 as int) == 1_570_796 * (SCALE as int))
            by (nonlinear_arith)
            requires a0.r == 1_000_000, a0.theta_0 == 0, a0.theta_1 == -1_570_796, SCALE == 1_000_000,
        ;
        lemma_arc_length_value(a0, 1_570_796);
        assert(a1.r * abs_int(a1.theta_1 as int - a1.theta_0 as int) == 3_141_593 * (SCALE as int))
            by (nonlinear_arith)
            requires
                a1.r == 1_000_000,
                a1.theta_0 == 1_570_796,
                a1.theta_1 == 4_712_389,
                SCALE == 1_000_000,
        ;
        lemma_arc_length_value(a1, 3_141_593);
        assert(a2.r * abs_int(a2.theta_1 as int - a2.theta_0 as int) == 3_141_592 * (SCALE as int))
            by (nonlinear_arith)
            requires a2.r == 2_000_000, a2.theta_0 == -1_570_796, a2.theta_1 == 0, SCALE == 1_000_000,
        ;
        lemma_arc_length_value(a2, 3_141_592);
        assert(a3.r * abs_int(a3.theta_1 as int - a3.theta_0 as int) == 3_141_592 * (SCALE as int))
            by (nonlinear_arith)
            requires a3.r == 2_000_000, a3.theta_0 == 0, a3.theta_1 == 1_570_796, SCALE == 1_000_000,
        ;
        lemma_arc_length_value(a3, 3_141_592);
        assert(a4.r * abs_int(a4.theta_1 as int - a4.theta_0 as int) == 6_283_186 * (SCALE as int))
            by (nonlinear_arith)
            requires
                a4.r == 2_000_000,
                a4.theta_0 == 1_570_796,
                a4.theta_1 == 4_712_389,
                SCALE == 1_000_000,
        ;
        lemma_arc_length_value(a4, 6_283_186);
    }
    let mut subpaths: Vec<SubPath> = Vec::new();
    subpaths.push(SubPath::Line(l0));
    subpaths.push(SubPath::Line(l1));
    subpaths.push(SubPath::Arc(a0));
    subpaths.push(SubPath::Line(l2));
    subpaths.push(SubPath::Arc(a1));
    subpaths.push(SubPath::Line(l3));
    subpaths.push(SubPath::Arc(a2));
    subpaths.push(SubPath::Line(l4));
    subpaths.push(SubPath::Arc(a3));
    subpaths.push(SubPath::Line(l5));
    subpaths.push(SubPath::Arc(a4));
    proof {
        reveal_with_fuel(total_len, 13);
        assert(total_len(subpaths@, 11) == 55_278_759);
    }
    match ClosedPath::assemble(subpaths) {
        Ok(p) => {
            proof {
                assert forall|i: int| 0 <= i < 11 implies #[trigger] p.subpath_at(i)
                    == spec_reference_segment(i) by {
                    assert(p.subpath_at(i) == subpaths@[i]);
                }
                let s = Seq::new(11, |i: int| p.subpath_at(i));
                crate::trig::lemma_trig_quarter_values();
                assert(a0.extremal_0 == (8_000_000i64, -9_000_000i64));
                assert(a0.extremal_1 == (7_000_002i64, -10_000_000i64));
                assert(a1.extremal_0 == (3_000_000i64, -10_000_000i64));
                assert(a1.extremal_1 == (3_000_001i64, -12_000_000i64));
                assert(a2.extremal_0 == (8_000_004i64, -12_000_000i64));
                assert(a2.extremal_1 == (10_000_000i64, -10_000_000i64));
                assert(a3.extremal_0 == (10_000_000i64, -2_000_000i64));
                assert(a3.extremal_1 == (8_000_000i64, 0i64));
                assert(a4.extremal_0 == (0i64, 0i64));
                assert(a4.extremal_1 == (2i64, -4_000_000i64));
                assert forall|i: int| 1 <= i < s.len() implies #[trigger] spec_dist(
                    s[i - 1].spec_last_point().0,
                    s[i - 1].spec_last_point().1,
                    s[i].spec_first_point().0,
                    s[i].spec_first_point().1,
                ) <= EPS_FIX by {
                    let prev = s[i - 1].spec_last_point();
                    let cur = s[i].spec_first_point();
                    crate::fixed::lemma_dist_le_eps(prev.0, prev.1, cur.0, cur.1);
                }
                assert(spec_dist(
                    s[s.len() - 1].spec_last_point().0,
                    s[s.len() - 1].spec_last_point().1,
                    s[0].spec_first_point().0,
                    s[0].spec_first_point().1,
                ) <= EPS_FIX) by {
                    crate::fixed::lemma_dist_le_eps(2, -4_000_000, 0, -4_000_000);
                }
                assert(spec_valid_closed_path(s));
            }
            p
        },
        Err(_) => vstd::pervasive::unreached(),
    }
}


/// Travelling zero distance along a well-formed segment lands on its first
/// point.
pub proof fn lemma_seg_point_at_zero(s: SubPath)
    requires
        s.wf(),
    ensures
        s.spec_point_at(0) == s.spec_first_point(),
{
    match s {
        SubPath::Arc(a) => {
            assert(a.spec_turn(0) == 0) by {
                vstd::arithmetic::div_mod::lemma_div_of0(a.r as int);
            }
        },
        SubPath::Line(l) => {
            assert(l.spec_point_at(0).0 == l.x_0 as int) by {
                vstd::arithmetic::div_mod::lemma_div_of0(l.length as int);
            }
            assert(l.spec_point_at(0).1 == l.y_0 as int) by {
                vstd::arithmetic::div_mod::lemma_div_of0(l.length as int);
            }
        },
    }
}

/// Closed-loop law, first half: at arc length zero a well-formed closed
/// path is at its first point.
pub proof fn lemma_point_at_zero_is_first_point(p: ClosedPath)
    requires
        p.wf(),
    ensures
        p.spec_point_at(0) == (p.p0_x as int, p.p0_y as int),
{
    reveal(ClosedPath::spec_point_at);
    p.lemma_length_pos();
    vstd::arithmetic::div_mod::lemma_small_mod(0nat, p.length as nat);
    assert(0int % (p.length as int) == 0);
    p.lemma_seg_len_pos_pub(0);
    p.lemma_locate_unique(0, 0);
    lemma_seg_point_at_zero(p.subpath_at(0));
}

/// Closed-loop law, second half: arc length `length()` normalizes to zero,
/// so the loop ends exactly where it starts.
pub proof fn lemma_closed_loop(p: ClosedPath)
    requires
        p.wf(),
    ensures
        p.spec_point_at(p.length as int) == p.spec_point_at(0),
{
    reveal(ClosedPath::spec_point_at);
    p.lemma_length_pos();
    vstd::arithmetic::div_mod::lemma_mod_self_0(p.length as int);
    vstd::arithmetic::div_mod::lemma_small_mod(0nat, p.length as nat);
}

/// Unit-tangent bracket for arcs: an arc's tangent is the sine/cosine pair
/// of one angle up to component signs, so its squared norm lies within the
/// trig pair's bracket — between about 0.69 and 1.42 of unit.  An exact
/// unit norm is impossible in fixed point, and the bracket is coarse on
/// purpose: sharpening it would take piecewise interval analysis of the
/// polynomials, while the true deviation — under a ten-thousandth of unit
/// — is pinned numerically by the test suite.
pub proof fn lemma_arc_tangent_norm_bracket(a: ArcPath, d: int)
    ensures
        ({
            let t = a.spec_tangent_at(d);
            477_000_000_000 <= t.0 * t.0 + t.1 * t.1 <= 2_000_000_000_000
        }),
{
    let ang = spec_add(a.theta_0 as int, a.spec_turn(d));
    crate::trig::lemma_trig_norm_bracket(ang);
    let s = spec_sin(ang);
    let c = spec_cos(ang);
    assert((-s) * (-s) == s * s && (-c) * (-c) == c * c) by (nonlinear_arith);
}

/// Minimality of the arc pick: it has the smallest absolute distance among
/// the claiming arcs, and it names a claiming arc.
proof fn lemma_fold_arc_pick_min(s: Seq<ArcPath>, x: int, y: int, n: int)
    requires
        0 <= n <= s.len(),
    ensures
        forall|i: int|
            0 <= i < n && (#[trigger] s[i].spec_sdf(x, y)) is Some ==> fold_arc_pick(s, x, y, n).0
                is Some && fold_arc_pick(s, x, y, n).0->Some_0 <= spec_abs(
                s[i].spec_sdf(x, y)->Some_0,
            ),
        ({
            let p = fold_arc_pick(s, x, y, n);
            p.0 matches Some(d) ==> 0 <= p.1 < n && s[p.1].spec_sdf(x, y) is Some && spec_abs(
                s[p.1].spec_sdf(x, y)->Some_0,
            ) == d
        }),
    decreases n,
{
    if n > 0 {
        lemma_fold_arc_pick_min(s, x, y, n - 1);
    }
}

/// Minimality of the full pick: it beats every claiming line and the seed.
proof fn lemma_fold_line_pick_min(
    s: Seq<LinePath>,
    x: int,
    y: int,
    init: (Option<int>, int, SubpathType),
    n: int,
)
    requires
        0 <= n <= s.len(),
    ensures
        forall|i: int|
            0 <= i < n ==> fold_line_pick(s, x, y, init, n).0 is Some && fold_line_pick(
                s,
                x,
                y,
                init,
                n,
            ).0->Some_0 <= spec_abs(#[trigger] s[i].spec_sdf(x, y)),
        init.0 matches Some(d0) ==> fold_line_pick(s, x, y, init, n).0 is Some && fold_line_pick(
            s,
            x,
            y,
            init,
            n,
        ).0->Some_0 <= d0,
        ({
            let p = fold_line_pick(s, x, y, init, n);
            p.0 matches Some(d) ==> p == init || (0 <= p.1 < n && p.2 == SubpathType::LinePath
                && spec_abs(s[p.1].spec_sdf(x, y)) == d)
        }),
    decreases n,
{
    if n > 0 {
        lemma_fold_line_pick_min(s, x, y, init, n - 1);
    }
}

/// Minimality law of the closest-segment query: the picked segment claims
/// the query point with an absolute signed distance no larger than any
/// claiming segment's.
pub proof fn lemma_closest_is_minimal(p: ClosedPath, x: int, y: int)
    requires
        p.line_subpaths@.len() > 0 || (exists|i: int|
            0 <= i < p.circle_subpaths@.len() && (#[trigger] p.circle_subpaths@[i].spec_sdf(x, y))
                is Some),
    ensures
        ({
            let (i, st) = p.spec_closest_subpath(x, y);
            let picked = match st {
                SubpathType::ArcPath => p.circle_subpaths@[i].spec_sdf(x, y),
                SubpathType::LinePath => Some(p.line_subpaths@[i].spec_sdf(x, y)),
            };
            picked is Some && (forall|j: int|
                0 <= j < p.circle_subpaths@.len() && (#[trigger] p.circle_subpaths@[j].spec_sdf(
                    x,
                    y,
                )) is Some ==> spec_abs(picked->Some_0) <= spec_abs(
                    p.circle_subpaths@[j].spec_sdf(x, y)->Some_0,
                )) && (forall|j: int|
                0 <= j < p.line_subpaths@.len() ==> spec_abs(picked->Some_0) <= spec_abs(
                    #[trigger] p.line_subpaths@[j].spec_sdf(x, y),
                ))
        }),
{
    let na = p.circle_subpaths@.len() as int;
    let nl = p.line_subpaths@.len() as int;
    let ap = fold_arc_pick(p.circle_subpaths@, x, y, na);
    lemma_fold_arc_pick_min(p.circle_subpaths@, x, y, na);
    lemma_fold_line_pick_min(p.line_subpaths@, x, y, ap, nl);
    let fp = fold_line_pick(p.line_subpaths@, x, y, ap, nl);
    if nl > 0 {
        assert(fp.0 is Some && fp.0->Some_0 <= spec_abs(p.line_subpaths@[0].spec_sdf(x, y)));
    } else {
        let w = choose|i: int|
            0 <= i < p.circle_subpaths@.len() && (#[trigger] p.circle_subpaths@[i].spec_sdf(x, y))
                is Some;
        assert(p.circle_subpaths@[w].spec_sdf(x, y) is Some);
        assert(ap.0 is Some);
        assert(fp.0 is Some);
    }
    let d = fp.0->Some_0;
    assert(p.spec_closest_subpath(x, y) == (fp.1, fp.2));
    let picked = match fp.2 {
        SubpathType::ArcPath => p.circle_subpaths@[fp.1].spec_sdf(x, y),
        SubpathType::LinePath => Some(p.line_subpaths@[fp.1].spec_sdf(x, y)),
    };
    if fp == ap {
        assert(p.circle_subpaths@[fp.1].spec_sdf(x, y) is Some && spec_abs(
            p.circle_subpaths@[fp.1].spec_sdf(x, y)->Some_0,
        ) == d);
        assert(ap.0 is Some ==> fp.2 == SubpathType::ArcPath) by {
            lemma_fold_arc_pick_range(p.circle_subpaths@, x, y, na);
        }
        assert(picked is Some && spec_abs(picked->Some_0) == d);
    } else {
        assert(0 <= fp.1 < nl && fp.2 == SubpathType::LinePath && spec_abs(
            p.line_subpaths@[fp.1].spec_sdf(x, y),
        ) == d);
        assert(picked is Some && spec_abs(picked->Some_0) == d);
    }
    assert forall|j: int|
        0 <= j < na && (#[trigger] p.circle_subpaths@[j].spec_sdf(x, y)) is Some implies spec_abs(
        picked->Some_0,
    ) <= spec_abs(p.circle_subpaths@[j].spec_sdf(x, y)->Some_0) by {
        assert(ap.0 is Some && ap.0->Some_0 <= spec_abs(
            p.circle_subpaths@[j].spec_sdf(x, y)->Some_0,
        ));
        assert(d <= ap.0->Some_0);
    }
    assert forall|j: int| 0 <= j < nl implies spec_abs(picked->Some_0) <= spec_abs(
        #[trigger] p.line_subpaths@[j].spec_sdf(x, y),
    ) by {
        assert(fp.0 is Some && d <= spec_abs(p.line_subpaths@[j].spec_sdf(x, y)));
    }
}

/// Unit-tangent law for lines, constancy half: a line segment's tangent is
/// the same at every arc-length position.
pub proof fn lemma_line_tangent_constant(s: SubPath, d1: int, d2: int)
    requires
        s is Line,
    ensures
        s.spec_tangent_at(d1) == s.spec_tangent_at(d2),
{
}

/// An axis-aligned line's memoized length is exactly the coordinate
/// difference.
pub proof fn lemma_axis_line_length(l: LinePath)
    requires
        l.wf(),
        l.x_0 == l.x_1 || l.y_0 == l.y_1,
    ensures
        l.length == abs_int(l.x_1 as int - l.x_0 as int) + abs_int(l.y_1 as int - l.y_0 as int),
{
    let ddx = l.x_0 as int - l.x_1 as int;
    let ddy = l.y_0 as int - l.y_1 as int;
    let m = abs_int(ddx) + abs_int(ddy);
    assert(m * m == ddx * ddx + ddy * ddy && ddx * ddx + ddy * ddy < (m + 1) * (m + 1))
        by (nonlinear_arith)
        requires
            ddx == 0 || ddy == 0,
            m == abs_int(ddx) + abs_int(ddy),
    ;
    crate::fixed::lemma_sqrt_floor_unique((ddx * ddx + ddy * ddy) as nat, m as nat);
    assert(l.length == m);
}

/// Pins an arc's length where radius times angular span is an exact
/// multiple of the scale.
pub proof fn lemma_arc_length_value(a: ArcPath, v: int)
    requires
        a.wf(),
        0 <= v < FIX_MAX,
        a.r * abs_int(a.theta_1 as int - a.theta_0 as int) == v * SCALE,
    ensures
        a.spec_length() == v,
{
    let t = abs_int(a.theta_1 as int - a.theta_0 as int);
    assert(spec_abs(a.theta_1 as int - a.theta_0 as int) == t);
    assert((v * SCALE as int) / (SCALE as int) == v) by {
        vstd::arithmetic::div_mod::lemma_div_by_multiple(v, SCALE as int);
        vstd::arithmetic::mul::lemma_mul_is_commutative(v, SCALE as int);
    }
    assert(tdiv(a.r as int * t, SCALE as int) == v);
}

/// Unit-tangent law for axis-aligned lines: the tangent is exactly a unit
/// vector (one micro-unit component is `SCALE`, the other zero).  For a
/// general segment the fixed-point tangent is unit only up to rounding.
pub proof fn lemma_axis_line_unit_tangent(l: LinePath)
    requires
        l.wf(),
        l.x_0 == l.x_1 || l.y_0 == l.y_1,
    ensures
        spec_abs(l.spec_tangent().0) + spec_abs(l.spec_tangent().1) == SCALE,
        l.spec_tangent().0 == 0 || l.spec_tangent().1 == 0,
{
    let ddx = l.x_0 as int - l.x_1 as int;
    let ddy = l.y_0 as int - l.y_1 as int;
    if l.x_0 == l.x_1 {
        let m = abs_int(ddy);
        assert(m * m == ddx * ddx + ddy * ddy && ddx * ddx + ddy * ddy < (m + 1) * (m + 1))
            by (nonlinear_arith)
            requires ddx == 0, m == abs_int(ddy),
        ;
        crate::fixed::lemma_sqrt_floor_unique((ddx * ddx + ddy * ddy) as nat, m as nat);
        assert(l.length == m);
        assert(l.spec_tangent().0 == 0) by {
            vstd::arithmetic::div_mod::lemma_div_of0(l.length as int);
        }
        let num = (l.y_1 as int - l.y_0 as int) * SCALE as int;
        assert(abs_int(num) == m * SCALE as int) by (nonlinear_arith)
            requires
                num == (l.y_1 as int - l.y_0 as int) * SCALE as int,
                m == abs_int(ddy),
                ddy == -(l.y_1 as int - l.y_0 as int),
        ;
        assert((m * SCALE as int) / m == SCALE as int) by {
            vstd::arithmetic::div_mod::lemma_div_by_multiple(SCALE as int, m);
            vstd::arithmetic::mul::lemma_mul_is_commutative(m, SCALE as int);
        }
    } else {
        let m = abs_int(ddx);
        assert(m * m == ddx * ddx + ddy * ddy && ddx * ddx + ddy * ddy < (m + 1) * (m + 1))
            by (nonlinear_arith)
            requires ddy == 0, m == abs_int(ddx),
        ;
        crate::fixed::lemma_sqrt_floor_unique((ddx * ddx + ddy * ddy) as nat, m as nat);
        assert(l.length == m);
        assert(l.spec_tangent().1 == 0) by {
            vstd::arithmetic::div_mod::lemma_div_of0(l.length as int);
        }
        let num = (l.x_1 as int - l.x_0 as int) * SCALE as int;
        assert(abs_int(num) == m * SCALE as int) by (nonlinear_arith)
            requires
                num == (l.x_1 as int - l.x_0 as int) * SCALE as int,
                m == abs_int(ddx),
                ddx == -(l.x_1 as int - l.x_0 as int),
        ;
        assert((m * SCALE as int) / m == SCALE as int) by {
            vstd::arithmetic::div_mod::lemma_div_by_multiple(SCALE as int, m);
            vstd::arithmetic::mul::lemma_mul_is_commutative(m, SCALE as int);
        }
    }
}

/// Unit-tangent law for lines of at least one unit of length: the squared
/// norm of the fixed-point tangent differs from one by at most a few parts
/// per million (`SCALE * SCALE - 4 * SCALE` up to `SCALE * SCALE +
/// 2 * SCALE`).  Exactness is impossible in fixed point; this pins the
/// rounding slack.
pub proof fn lemma_line_tangent_unit_norm(l: LinePath)
    requires
        l.wf(),
        l.length >= SCALE,
    ensures
        ({
            let t = l.spec_tangent();
            (SCALE as int) * (SCALE as int) - 4 * (SCALE as int) <= t.0 * t.0 + t.1 * t.1
                <= (SCALE as int) * (SCALE as int) + 2 * (SCALE as int)
        }),
{
    let s = SCALE as int;
    let dx = l.x_1 as int - l.x_0 as int;
    let dy = l.y_1 as int - l.y_0 as int;
    let dd = dx * dx + dy * dy;
    let len = l.length as int;

    // the memoized length is the floor square root of dd
    assert((-dx) * (-dx) == dx * dx && (-dy) * (-dy) == dy * dy) by (nonlinear_arith);
    assert(l.x_0 as int - l.x_1 as int == -dx && l.y_0 as int - l.y_1 as int == -dy);
    assert(0 <= dd <= 8_000_000_000_000_000_000_000_000) by (nonlinear_arith)
        requires
            dd == dx * dx + dy * dy,
            -2_000_000_000_000 <= dx <= 2_000_000_000_000,
            -2_000_000_000_000 <= dy <= 2_000_000_000_000,
    ;
    crate::fixed::lemma_sqrt_floor_bounds(dd as nat);
    let fl = sqrt_floor(dd as nat) as int;
    assert(fl <= 3_000_000_000_000) by (nonlinear_arith)
        requires fl * fl <= dd, dd <= 8_000_000_000_000_000_000_000_000, fl >= 0,
    ;
    assert(len == fl);
    assert(len * len <= dd < (len + 1) * (len + 1));

    // each coordinate difference is at most the length in magnitude
    let a = abs_int(dx);
    let b = abs_int(dy);
    assert(a * a <= dd && b * b <= dd) by (nonlinear_arith)
        requires dd == dx * dx + dy * dy, a == abs_int(dx), b == abs_int(dy),
    ;
    assert(a <= len && b <= len) by (nonlinear_arith)
        requires
            a * a <= dd,
            b * b <= dd,
            dd < (len + 1) * (len + 1),
            a >= 0,
            b >= 0,
            len >= 1,
    ;

    // the tangent components: unclamped truncated quotients
    let u0 = (a * s) / len;
    let u1 = (b * s) / len;
    vstd::arithmetic::div_mod::lemma_fundamental_div_mod(a * s, len);
    vstd::arithmetic::div_mod::lemma_fundamental_div_mod(b * s, len);
    vstd::arithmetic::div_mod::lemma_mod_bound(a * s, len);
    vstd::arithmetic::div_mod::lemma_mod_bound(b * s, len);
    assert(a * s >= 0 && b * s >= 0) by (nonlinear_arith)
        requires a >= 0, b >= 0, s > 0,
    ;
    vstd::arithmetic::div_mod::lemma_div_pos_is_pos(a * s, len);
    vstd::arithmetic::div_mod::lemma_div_pos_is_pos(b * s, len);
    assert(u0 <= s && u1 <= s) by {
        vstd::arithmetic::div_mod::lemma_div_is_ordered(a * s, len * s, len);
        vstd::arithmetic::div_mod::lemma_div_is_ordered(b * s, len * s, len);
        vstd::arithmetic::div_mod::lemma_div_by_multiple(s, len);
        assert(a * s <= len * s && b * s <= len * s) by (nonlinear_arith)
            requires a <= len, b <= len, s > 0,
        ;
        assert((len * s) / len == s) by {
            vstd::arithmetic::mul::lemma_mul_is_commutative(len, s);
            vstd::arithmetic::div_mod::lemma_div_by_multiple(s, len);
        }
    }
    assert(tdiv(dx * s, len) == u0 || tdiv(dx * s, len) == -u0) by (nonlinear_arith)
        requires
            u0 == (a * s) / len,
            a == abs_int(dx),
            abs_int(dx * s) == a * s,
            len >= 1,
    ;
    assert(abs_int(dx * s) == a * s && abs_int(dy * s) == b * s) by (nonlinear_arith)
        requires a == abs_int(dx), b == abs_int(dy), s > 0,
    ;
    let t = l.spec_tangent();
    assert(t.0 * t.0 == u0 * u0 && t.1 * t.1 == u1 * u1) by (nonlinear_arith)
        requires
            t.0 == u0 || t.0 == -u0,
            t.1 == u1 || t.1 == -u1,
    ;

    // upper bound
    vstd::arithmetic::mul::lemma_mul_is_commutative(len, u0);
    vstd::arithmetic::mul::lemma_mul_is_commutative(len, u1);
    assert(u0 * len <= a * s && u1 * len <= b * s);
    assert(u0 * u0 * (len * len) <= (a * a) * (s * s)) by (nonlinear_arith)
        requires u0 * len <= a * s, u0 >= 0, len >= 1, a >= 0, s > 0,
    ;
    assert(u1 * u1 * (len * len) <= (b * b) * (s * s)) by (nonlinear_arith)
        requires u1 * len <= b * s, u1 >= 0, len >= 1, b >= 0, s > 0,
    ;
    let x2 = u0 * u0 + u1 * u1;
    assert(x2 * (len * len) <= dd * (s * s)) by (nonlinear_arith)
        requires
            u0 * u0 * (len * len) <= (a * a) * (s * s),
            u1 * u1 * (len * len) <= (b * b) * (s * s),
            a * a + b * b == dd,
            x2 == u0 * u0 + u1 * u1,
            dd == dx * dx + dy * dy,
            a == abs_int(dx),
            b == abs_int(dy),
    ;
    assert(dd <= len * len + 2 * len) by (nonlinear_arith)
        requires dd < (len + 1) * (len + 1),
    ;
    assert(x2 <= s * s + 2 * s) by (nonlinear_arith)
        requires
            x2 * (len * len) <= dd * (s * s),
            dd <= len * len + 2 * len,
            len >= s,
            s >= 1,
            x2 >= 0,
    ;

    // lower bound
    assert(u0 * len >= a * s - len && u1 * len >= b * s - len);
    assert(u0 * u0 * (len * len) >= (a * a) * (s * s) - 2 * (a * s) * len) by (nonlinear_arith)
        requires u0 * len >= a * s - len, u0 >= 0, len >= 1, a * s >= 0,
    ;
    assert(u1 * u1 * (len * len) >= (b * b) * (s * s) - 2 * (b * s) * len) by (nonlinear_arith)
        requires u1 * len >= b * s - len, u1 >= 0, len >= 1, b * s >= 0,
    ;
    assert(a * a == dx * dx && b * b == dy * dy) by (nonlinear_arith)
        requires a == abs_int(dx), b == abs_int(dy),
    ;
    assert(x2 * (len * len) == u0 * u0 * (len * len) + u1 * u1 * (len * len)) by (nonlinear_arith)
        requires x2 == u0 * u0 + u1 * u1,
    ;
    assert(dd * (s * s) == (a * a) * (s * s) + (b * b) * (s * s)) by (nonlinear_arith)
        requires dd == a * a + b * b,
    ;
    assert(2 * (a * s) * len + 2 * (b * s) * len <= 4 * s * (len * len)) by (nonlinear_arith)
        requires a <= len, b <= len, s > 0, len >= 1, a >= 0, b >= 0,
    ;
    assert(x2 * (len * len) >= dd * (s * s) - 4 * s * (len * len));
    assert(x2 >= s * s - 4 * s) by (nonlinear_arith)
        requires
            x2 * (len * len) >= dd * (s * s) - 4 * s * (len * len),
            dd >= len * len,
            len >= s,
            s >= 1,
    ;
}

/// Any arc distance claimed at `(x, y)` bounds the folded arc minimum from
/// below, and a folded value is always one of the claimed values.
proof fn lemma_fold_arc_sd_min(s: Seq<ArcPath>, x: int, y: int, n: int)
    requires
        0 <= n <= s.len(),
    ensures
        forall|i: int|
            0 <= i < n && (#[trigger] s[i].spec_sdf(x, y)) is Some ==> fold_arc_sd(s, x, y, n) is Some
                && spec_abs(fold_arc_sd(s, x, y, n)->Some_0) <= spec_abs(s[i].spec_sdf(x, y)->Some_0),
        fold_arc_sd(s, x, y, n) is Some ==> exists|i: int|
            0 <= i < n && #[trigger] s[i].spec_sdf(x, y) == Some(fold_arc_sd(s, x, y, n)->Some_0),
    decreases n,
{
    if n > 0 {
        lemma_fold_arc_sd_min(s, x, y, n - 1);
    }
}

/// Line counterpart of the folded minimum, which also preserves the seed.
proof fn lemma_fold_line_sd_min(s: Seq<LinePath>, x: int, y: int, init: Option<int>, n: int)
    requires
        0 <= n <= s.len(),
    ensures
        forall|i: int|
            0 <= i < n ==> fold_line_sd(s, x, y, init, n) is Some && spec_abs(
                fold_line_sd(s, x, y, init, n)->Some_0,
            ) <= spec_abs(#[trigger] s[i].spec_sdf(x, y)),
        init is Some ==> fold_line_sd(s, x, y, init, n) is Some && spec_abs(
            fold_line_sd(s, x, y, init, n)->Some_0,
        ) <= spec_abs(init->Some_0),
        fold_line_sd(s, x, y, init, n) is Some ==> init == Some(
            fold_line_sd(s, x, y, init, n)->Some_0,
        ) || exists|i: int|
            0 <= i < n && #[trigger] s[i].spec_sdf(x, y) == fold_line_sd(s, x, y, init, n)->Some_0,
    decreases n,
{
    if n > 0 {
        lemma_fold_line_sd_min(s, x, y, init, n - 1);
    }
}

/// Minimality law of the closed path's signed distance: it is defined
/// whenever any segment claims the point, its absolute value is a lower
/// bound of every claimed per-segment distance, and it always equals one of
/// the claimed distances.
pub proof fn lemma_sdf_minimal(p: ClosedPath, x: int, y: int)
    ensures
        forall|i: int|
            0 <= i < p.circle_subpaths@.len() && (#[trigger] p.circle_subpaths@[i].spec_sdf(x, y))
                is Some ==> p.spec_sdf(x, y) is Some && spec_abs(p.spec_sdf(x, y)->Some_0)
                <= spec_abs(p.circle_subpaths@[i].spec_sdf(x, y)->Some_0),
        forall|i: int|
            0 <= i < p.line_subpaths@.len() ==> p.spec_sdf(x, y) is Some && spec_abs(
                p.spec_sdf(x, y)->Some_0,
            ) <= spec_abs(#[trigger] p.line_subpaths@[i].spec_sdf(x, y)),
        p.spec_sdf(x, y) is Some ==> (exists|i: int|
            0 <= i < p.circle_subpaths@.len() && #[trigger] p.circle_subpaths@[i].spec_sdf(x, y)
                == Some(p.spec_sdf(x, y)->Some_0)) || (exists|i: int|
            0 <= i < p.line_subpaths@.len() && #[trigger] p.line_subpaths@[i].spec_sdf(x, y)
                == p.spec_sdf(x, y)->Some_0),
{
    let na = p.circle_subpaths@.len() as int;
    let nl = p.line_subpaths@.len() as int;
    let init = fold_arc_sd(p.circle_subpaths@, x, y, na);
    lemma_fold_arc_sd_min(p.circle_subpaths@, x, y, na);
    lemma_fold_line_sd_min(p.line_subpaths@, x, y, init, nl);
}


/// Points every `dx` micro-units along the loop, after the first point and
/// up to the total length: one for each multiple of `dx` that fits.
pub fn sample_points(track: &ClosedPath, dx: i64) -> (r: Vec<(i64, i64)>)
    requires
        track.wf(),
        1 <= dx,
    ensures
        r@.len() == (track.length as int) / (dx as int),
        forall|j: int|
            0 <= j < r@.len() ==> (#[trigger] r@[j]).0 == track.spec_point_at((j + 1) * dx).0
                && r@[j].1 == track.spec_point_at((j + 1) * dx).1,
{
    proof {
        track.lemma_length_pos();
    }
    let mut r: Vec<(i64, i64)> = Vec::new();
    let mut d: i64 = 0;
    loop
        invariant
            track.wf(),
            1 <= dx,
            2 <= track.length < FIX_MAX,
            d == r@.len() * dx,
            d <= track.length,
            forall|j: int|
                0 <= j < r@.len() ==> (#[trigger] r@[j]).0 == track.spec_point_at((j + 1) * dx).0
                    && r@[j].1 == track.spec_point_at((j + 1) * dx).1,
        ensures
            d == r@.len() * dx,
            d <= track.length,
            track.length - d < dx,
        decreases track.length - d,
    {
        proof {
            assert((r@.len() + 1) * dx == r@.len() * dx + dx) by (nonlinear_arith);
        }
        if d > track.length - dx {
            break;
        }
        d = d + dx;
        r.push(track.point_at(d));
    }
    proof {
        vstd::arithmetic::div_mod::lemma_fundamental_div_mod_converse(
            track.length as int,
            dx as int,
            r@.len() as int,
            track.length - d,
        );
    }
    r
}

} // verus!

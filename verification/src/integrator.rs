//! Fixed-step integrators over the robot's seven-dimensional state vector.
//!
//! The derivative function comes in through the [`OdeSystem`] trait, whose
//! executable method must return exactly its own spec-level mirror; the
//! integrators then carry exact functional contracts, so two equal states
//! stepped equally stay equal forever.

use vstd::prelude::*;
use crate::fixed::{fadd, fmul, fmuldiv, fsub, spec_add, spec_mul, spec_muldiv, spec_sub, SCALE};

verus! {

/// State of the differential-drive robot: position `(x, y)`, heading
/// `theta`, and each wheel's angular velocity (`wl`, `wr`) with its
/// derivative (`dwl`, `dwr`).
#[derive(Clone, Copy, Debug, PartialEq, Eq, Structural)]
pub struct RobotState {
    pub x: i64,
    pub y: i64,
    pub theta: i64,
    pub wl: i64,
    pub dwl: i64,
    pub wr: i64,
    pub dwr: i64,
}

/// Motor commands for the left and right wheel.
#[derive(Clone, Copy, Debug, PartialEq, Eq, Structural)]
pub struct ControlInput {
    pub ul: i64,
    pub ur: i64,
}

/// Componentwise saturating sum of two state vectors.
pub open spec fn spec_state_add(a: RobotState, b: RobotState) -> RobotState {
    RobotState {
        x: spec_add(a.x as int, b.x as int) as i64,
        y: spec_add(a.y as int, b.y as int) as i64,
        theta: spec_add(a.theta as int, b.theta as int) as i64,
        wl: spec_add(a.wl as int, b.wl as int) as i64,
        dwl: spec_add(a.dwl as int, b.dwl as int) as i64,
        wr: spec_add(a.wr as int, b.wr as int) as i64,
        dwr: spec_add(a.dwr as int, b.dwr as int) as i64,
    }
}

/// Componentwise `c * v / den` of a state vector at full precision.
pub open spec fn spec_state_muldiv(c: int, v: RobotState, den: int) -> RobotState {
    RobotState {
        x: spec_muldiv(c, v.x as int, den) as i64,
        y: spec_muldiv(c, v.y as int, den) as i64,
        theta: spec_muldiv(c, v.theta as int, den) as i64,
        wl: spec_muldiv(c, v.wl as int, den) as i64,
        dwl: spec_muldiv(c, v.dwl as int, den) as i64,
        wr: spec_muldiv(c, v.wr as int, den) as i64,
        dwr: spec_muldiv(c, v.dwr as int, den) as i64,
    }
}

/// Componentwise saturating sum of two state vectors.
pub fn state_add(a: &RobotState, b: &RobotState) -> (r: RobotState)
    ensures
        r == spec_state_add(*a, *b),
{
    RobotState {
        x: fadd(a.x, b.x),
        y: fadd(a.y, b.y),
        theta: fadd(a.theta, b.theta),
        wl: fadd(a.wl, b.wl),
        dwl: fadd(a.dwl, b.dwl),
        wr: fadd(a.wr, b.wr),
        dwr: fadd(a.dwr, b.dwr),
    }
}

/// Componentwise `c * v / den` of a state vector at full precision.
pub fn state_muldiv(c: i64, v: &RobotState, den: i64) -> (r: RobotState)
    requires
        den != 0,
    ensures
        r == spec_state_muldiv(c as int, *v, den as int),
{
    RobotState {
        x: fmuldiv(c, v.x, den),
        y: fmuldiv(c, v.y, den),
        theta: fmuldiv(c, v.theta, den),
        wl: fmuldiv(c, v.wl, den),
        dwl: fmuldiv(c, v.dwl, den),
        wr: fmuldiv(c, v.wr, den),
        dwr: fmuldiv(c, v.dwr, den),
    }
}

/// A first-order system `dx/dt = f(t, x, u)` whose executable derivative
/// returns exactly its spec-level mirror.
pub trait OdeSystem {
    /// Mathematical value of the derivative.
    spec fn spec_deriv(&self, t: int, x: RobotState, u: ControlInput) -> RobotState;

    /// Executable derivative; equal to `spec_deriv` on every input.
    fn deriv(&self, t: i64, x: &RobotState, u: &ControlInput) -> (r: RobotState)
        ensures
            r == self.spec_deriv(t as int, *x, *u),
    ;
}

/// Classic fourth-order Runge-Kutta stepper with a zero-order hold on the
/// control input.
pub struct Rk4<S: OdeSystem> {
    pub system: S,
    pub t: i64,
    pub x: RobotState,
}

/// One Runge-Kutta step of size `dt` from `(t, x)` under the held control
/// `u`: four derivative stages blended as `(k1 + 2 k2 + 2 k3 + k4) / 6`.
pub open spec fn spec_rk4_next<S: OdeSystem>(
    sys: S,
    t: int,
    x: RobotState,
    u: ControlInput,
    dt: int,
) -> RobotState {
    let half_t = spec_add(t, spec_muldiv(dt, 1, 2));
    let k1 = sys.spec_deriv(t, x, u);
    let k2 = sys.spec_deriv(half_t, spec_state_add(x, spec_state_muldiv(dt, k1, 2 * SCALE)), u);
    let k3 = sys.spec_deriv(half_t, spec_state_add(x, spec_state_muldiv(dt, k2, 2 * SCALE)), u);
    let k4 = sys.spec_deriv(
        spec_add(t, dt),
        spec_state_add(x, spec_state_muldiv(dt, k3, SCALE as int)),
        u,
    );
    let ksum = spec_state_add(spec_state_add(k1, spec_state_add(k2, k2)), spec_state_add(
        spec_state_add(k3, k3),
        k4,
    ));
    spec_state_add(x, spec_state_muldiv(dt, ksum, 6 * SCALE))
}

impl<S: OdeSystem> Rk4<S> {
    /// Wraps a system with an initial time and state.
    pub fn new(system: S, t: i64, x: RobotState) -> (r: Rk4<S>)
        ensures
            r.system == system,
            r.t == t,
            r.x == x,
    {
        Rk4 { system, t, x }
    }

    /// Advances the state by one Runge-Kutta step of size `dt`, holding the
    /// control `u` constant across all four stages.
    pub fn step(&mut self, dt: i64, u: &ControlInput)
        ensures
            final(self).x == spec_rk4_next(old(self).system, old(self).t as int, old(self).x, *u, dt as int),
            final(self).t == spec_add(old(self).t as int, dt as int),
            final(self).system == old(self).system,
    {
        let t = self.t;
        let half_t = fadd(t, fmuldiv(dt, 1, 2));
        let k1 = self.system.deriv(t, &self.x, u);
        let x2 = state_add(&self.x, &state_muldiv(dt, &k1, 2 * SCALE));
        let k2 = self.system.deriv(half_t, &x2, u);
        let x3 = state_add(&self.x, &state_muldiv(dt, &k2, 2 * SCALE));
        let k3 = self.system.deriv(half_t, &x3, u);
        let x4 = state_add(&self.x, &state_muldiv(dt, &k3, SCALE));
        let k4 = self.system.deriv(fadd(t, dt), &x4, u);
        let ksum = state_add(&state_add(&k1, &state_add(&k2, &k2)), &state_add(
            &state_add(&k3, &k3),
            &k4,
        ));
        self.x = state_add(&self.x, &state_muldiv(dt, &ksum, 6 * SCALE));
        self.t = fadd(self.t, dt);
    }

    /// Current state vector.
    pub fn get_state(&self) -> (r: RobotState)
        ensures
            r == self.x,
    {
        self.x
    }
}

/// Basic Verlet stepper: `x' = 2 x - x_prev + dt * dt * f(t, x, u)`.
pub struct Verlet<S: OdeSystem> {
    pub system: S,
    pub t: i64,
    pub x: RobotState,
    pub x_prev: RobotState,
}

/// One Verlet step of size `dt` from `(t, x)` with previous state `x_prev`.
pub open spec fn spec_verlet_next<S: OdeSystem>(
    sys: S,
    t: int,
    x: RobotState,
    x_prev: RobotState,
    u: ControlInput,
    dt: int,
) -> RobotState {
    let f = sys.spec_deriv(t, x, u);
    let dt2 = spec_mul(dt, dt);
    let minus_prev = RobotState {
        x: spec_sub(0, x_prev.x as int) as i64,
        y: spec_sub(0, x_prev.y as int) as i64,
        theta: spec_sub(0, x_prev.theta as int) as i64,
        wl: spec_sub(0, x_prev.wl as int) as i64,
        dwl: spec_sub(0, x_prev.dwl as int) as i64,
        wr: spec_sub(0, x_prev.wr as int) as i64,
        dwr: spec_sub(0, x_prev.dwr as int) as i64,
    };
    spec_state_add(
        spec_state_add(spec_state_add(x, x), minus_prev),
        spec_state_muldiv(dt2, f, SCALE as int),
    )
}

impl<S: OdeSystem> Verlet<S> {
    /// Wraps a system with an initial time and state; the previous state
    /// starts equal to the current one.
    pub fn new(system: S, t: i64, x: RobotState) -> (r: Verlet<S>)
        ensures
            r.t == t,
            r.x == x,
            r.x_prev == x,
    {
        Verlet { system, t, x, x_prev: x }
    }

    /// Advances the state by one Verlet step of size `dt`.
    pub fn step(&mut self, dt: i64, u: &ControlInput)
        ensures
            final(self).x == spec_verlet_next(
                old(self).system,
                old(self).t as int,
                old(self).x,
                old(self).x_prev,
                *u,
                dt as int,
            ),
            final(self).x_prev == old(self).x,
            final(self).t == spec_add(old(self).t as int, dt as int),
            final(self).system == old(self).system,
    {
        let f = self.system.deriv(self.t, &self.x, u);
        let dt2 = fmul(dt, dt);
        let minus_prev = RobotState {
            x: fsub(0, self.x_prev.x),
            y: fsub(0, self.x_prev.y),
            theta: fsub(0, self.x_prev.theta),
            wl: fsub(0, self.x_prev.wl),
            dwl: fsub(0, self.x_prev.dwl),
            wr: fsub(0, self.x_prev.wr),
            dwr: fsub(0, self.x_prev.dwr),
        };
        let x_next = state_add(
            &state_add(&state_add(&self.x, &self.x), &minus_prev),
            &state_muldiv(dt2, &f, SCALE),
        );
        self.x_prev = self.x;
        self.x = x_next;
        self.t = fadd(self.t, dt);
    }

    /// Current state vector.
    pub fn get_state(&self) -> (r: RobotState)
        ensures
            r == self.x,
    {
        self.x
    }
}

} // verus!

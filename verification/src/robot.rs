//! The differential-drive robot: dynamics, PID steering, and the per-tick
//! simulation pipeline.
//!
//! Each tick computes the cross-track error (the track's signed distance at
//! the robot's position, used directly as the heading-error estimate),
//! updates the PID bookkeeping — the integral term accumulates the
//! *previous* error before it is overwritten, a deliberate one-tick lag —
//! splits the command into wheel controls, and advances the state by one
//! Runge-Kutta step with the control held constant.  `step` returns exactly
//! the value of `spec_step`, so whole trajectories are functions of the
//! initial state alone.

use vstd::prelude::*;
use crate::fixed::{fadd, fdiv, fmul, fmuldiv, fsub, spec_add, spec_div, spec_mul, spec_muldiv, spec_sub, SCALE};
use crate::integrator::{ControlInput, OdeSystem, Rk4, RobotState, spec_rk4_next};
use crate::sdf_paths::{ClosedPath, SDF};
use crate::trig::{cos_fix, sin_fix, spec_cos, spec_sin};

verus! {

/// Wheel radius, in micro-units (0.04 units).
pub const ROBOT_WHEEL_RADIUS: i64 = 40_000;

/// Distance between the wheels, in micro-units (0.1 units).
pub const ROBOT_SIDE_LENGTH: i64 = 100_000;

/// Second-order wheel-motor model constant `1 / w0^2` for `w0 = 20`.
pub const C0: i64 = 2_500;

/// Second-order wheel-motor model constant `2 * xi / w0` for `xi = 0.71`.
pub const C1: i64 = 71_000;

/// Second-order wheel-motor model gain (one, in micro-units).
pub const C2: i64 = 1_000_000;

/// Two, in micro-units; used to halve and double fixed-point values.
pub const TWO_FIX: i64 = 2_000_000;

/// The robot's equations of motion.
pub struct RobotDynamics;

/// Derivative of the robot state: forward speed and yaw rate from the wheel
/// speeds, and each wheel as a second-order system driven by its command.
pub open spec fn spec_robot_dynamics(x: RobotState, u: ControlInput) -> RobotState {
    let speed = spec_muldiv(ROBOT_WHEEL_RADIUS as int, spec_add(x.wl as int, x.wr as int), 2 * SCALE);
    let d_theta = spec_muldiv(
        ROBOT_WHEEL_RADIUS as int,
        spec_sub(x.wr as int, x.wl as int),
        ROBOT_SIDE_LENGTH as int,
    );
    let d_x = spec_mul(speed, spec_cos(x.theta as int));
    let d_y = spec_mul(speed, spec_sin(x.theta as int));
    let d_dwl = spec_div(
        spec_sub(spec_sub(u.ul as int, spec_mul(C1 as int, x.dwl as int)), spec_mul(C2 as int, x.wl as int)),
        C0 as int,
    );
    let d_dwr = spec_div(
        spec_sub(spec_sub(u.ur as int, spec_mul(C1 as int, x.dwr as int)), spec_mul(C2 as int, x.wr as int)),
        C0 as int,
    );
    RobotState {
        x: d_x as i64,
        y: d_y as i64,
        theta: d_theta as i64,
        wl: x.dwl,
        dwl: d_dwl as i64,
        wr: x.dwr,
        dwr: d_dwr as i64,
    }
}

impl OdeSystem for RobotDynamics {
    open spec fn spec_deriv(&self, t: int, x: RobotState, u: ControlInput) -> RobotState {
        spec_robot_dynamics(x, u)
    }

    fn deriv(&self, t: i64, x: &RobotState, u: &ControlInput) -> (r: RobotState) {
        let speed = fmuldiv(ROBOT_WHEEL_RADIUS, fadd(x.wl, x.wr), 2 * SCALE);
        let d_theta = fmuldiv(ROBOT_WHEEL_RADIUS, fsub(x.wr, x.wl), ROBOT_SIDE_LENGTH);
        let d_x = fmul(speed, cos_fix(x.theta));
        let d_y = fmul(speed, sin_fix(x.theta));
        let d_dwl = fdiv(fsub(fsub(u.ul, fmul(C1, x.dwl)), fmul(C2, x.wl)), C0);
        let d_dwr = fdiv(fsub(fsub(u.ur, fmul(C1, x.dwr)), fmul(C2, x.wr)), C0);
        RobotState {
            x: d_x,
            y: d_y,
            theta: d_theta,
            wl: x.dwl,
            dwl: d_dwl,
            wr: x.dwr,
            dwr: d_dwr,
        }
    }
}

/// Simulation of one robot following one track under PID steering; the
/// track is shared immutably, so many simulations can read one track.
pub struct RobotSimulation<'a> {
    pub integrator: Rk4<RobotDynamics>,
    pub state: RobotState,
    pub controls: ControlInput,
    pub path: &'a ClosedPath,
    pub prev_error: i64,
    pub int_error: i64,
    pub kp: i64,
    pub ki: i64,
    pub kd: i64,
    pub speed: i64,
    pub time: i64,
}

impl<'a> RobotSimulation<'a> {
    /// Well-formedness: the track is a valid loop and the cached state
    /// mirrors the integrator's.
    pub open spec fn wf(self) -> bool {
        &&& self.path.wf()
        &&& self.integrator.x == self.state
    }

    /// Cross-track error: the track's signed distance at the robot's
    /// position, or zero where no segment claims the position.
    pub open spec fn spec_error(self) -> int {
        match self.path.spec_sdf(self.state.x as int, self.state.y as int) {
            Some(v) => v,
            None => 0,
        }
    }

    /// Arc-length position of the time-parameterized reference point.
    pub open spec fn spec_ref_d(self) -> int {
        spec_mul(self.speed as int, self.time as int)
    }

    /// PID control split into wheel commands, for the current error and
    /// bookkeeping.
    pub open spec fn spec_controls(self, dt: int) -> ControlInput {
        let e = self.spec_error();
        let deriv_error = spec_div(spec_sub(e, self.prev_error as int), dt);
        let int_next = spec_add(self.int_error as int, spec_mul(self.prev_error as int, dt));
        let desired = spec_add(
            spec_add(spec_mul(self.kp as int, e), spec_mul(self.ki as int, int_next)),
            spec_mul(self.kd as int, deriv_error),
        );
        let k = spec_div(spec_mul(ROBOT_SIDE_LENGTH as int, C2 as int), ROBOT_WHEEL_RADIUS as int);
        let v = spec_mul(k, desired);
        let um = spec_div(
            spec_mul(spec_mul(TWO_FIX as int, self.speed as int), C2 as int),
            ROBOT_WHEEL_RADIUS as int,
        );
        ControlInput {
            ul: spec_div(spec_sub(um, v), TWO_FIX as int) as i64,
            ur: spec_div(spec_add(um, v), TWO_FIX as int) as i64,
        }
    }

    /// The simulation after the PID bookkeeping of one tick of size `dt`.
    pub open spec fn spec_after_control(self, dt: int) -> RobotSimulation<'a> {
        RobotSimulation {
            controls: self.spec_controls(dt),
            prev_error: self.spec_error() as i64,
            int_error: spec_add(self.int_error as int, spec_mul(self.prev_error as int, dt)) as i64,
            ..self
        }
    }

    /// The simulation after one full tick of size `dt`: PID bookkeeping,
    /// one Runge-Kutta step under the held control, and the clock advance.
    pub open spec fn spec_step(self, dt: int) -> RobotSimulation<'a> {
        let mid = self.spec_after_control(dt);
        let x_next = spec_rk4_next(
            RobotDynamics,
            self.integrator.t as int,
            self.integrator.x,
            mid.controls,
            dt,
        );
        RobotSimulation {
            integrator: Rk4 {
                system: RobotDynamics,
                t: spec_add(self.integrator.t as int, dt) as i64,
                x: x_next,
            },
            state: x_next,
            time: spec_add(self.time as int, dt) as i64,
            ..mid
        }
    }

    /// The simulation after `n` ticks of size `dt`.
    pub open spec fn spec_run(self, dt: int, n: int) -> RobotSimulation<'a>
        decreases n,
    {
        if n <= 0 {
            self
        } else {
            self.spec_run(dt, n - 1).spec_step(dt)
        }
    }

    /// Builds a simulation at time zero from an initial state, PID gains, a
    /// target speed and a track.
    pub fn new(x0: RobotState, kp: i64, ki: i64, kd: i64, speed: i64, path: &'a ClosedPath) -> (r:
        RobotSimulation<'a>)
        requires
            path.wf(),
        ensures
            r.wf(),
            r.integrator.system == (RobotDynamics {  }),
            r.state == x0,
            r.kp == kp,
            r.ki == ki,
            r.kd == kd,
            r.speed == speed,
            r.time == 0,
            r.prev_error == 0,
            r.int_error == 0,
            r.controls == (ControlInput { ul: 0, ur: 0 }),
            r.path == path,
            r.integrator.t == 0,
            r.integrator.x == x0,
    {
        let integrator = Rk4::new(RobotDynamics, 0, x0);
        RobotSimulation {
            integrator,
            state: x0,
            controls: ControlInput { ul: 0, ur: 0 },
            path,
            prev_error: 0,
            int_error: 0,
            kp,
            ki,
            kd,
            speed,
            time: 0,
        }
    }

    /// Heading-error estimate: the cross-track signed distance, used
    /// directly as the controller's error signal.
    pub fn theta_error_estimate(&self) -> (r: i64)
        requires
            self.wf(),
        ensures
            r == self.spec_error(),
    {
        self.robot_sdf_to_path()
    }

    /// Current state vector.
    pub fn get_state(&self) -> (r: RobotState)
        ensures
            r == self.state,
    {
        self.state
    }

    /// Simulated time.
    pub fn get_time(&self) -> (r: i64)
        ensures
            r == self.time,
    {
        self.time
    }

    /// Current position.
    pub fn robot_position(&self) -> (p: (i64, i64))
        ensures
            p == (self.state.x, self.state.y),
    {
        (self.state.x, self.state.y)
    }

    /// Signed distance from the robot to the track.  Where no segment
    /// claims the position (possible only on a track without line
    /// segments, since a line claims every point) the error is taken as
    /// zero rather than an out-of-band value, so the controller simply
    /// holds course there.
    pub fn robot_sdf_to_path(&self) -> (r: i64)
        requires
            self.wf(),
        ensures
            r == self.spec_error(),
    {
        match self.path.sdf(self.state.x, self.state.y) {
            Some(d) => d,
            None => 0,
        }
    }

    /// Squared distance between the robot and the time-parameterized
    /// reference point of the track.
    pub open spec fn spec_robot_error(self) -> int {
        let rp = self.path.spec_point_at(self.spec_ref_d());
        let dx = spec_sub(rp.0, self.state.x as int);
        let dy = spec_sub(rp.1, self.state.y as int);
        spec_add(spec_mul(dx, dx), spec_mul(dy, dy))
    }

    /// Squared distance between the robot and the reference point.
    pub fn robot_error(&self) -> (r: i64)
        requires
            self.wf(),
        ensures
            r == self.spec_robot_error(),
    {
        let rp = self.reference_point();
        let (xp, yp) = self.robot_position();
        let dx = fsub(rp.0, xp);
        let dy = fsub(rp.1, yp);
        fadd(fmul(dx, dx), fmul(dy, dy))
    }

    /// Dot product of the robot's velocity with the reference tangent:
    /// rewards forward progress along the track.
    pub open spec fn spec_velocity_reward(self) -> int {
        let speed = spec_muldiv(
            ROBOT_WHEEL_RADIUS as int,
            spec_add(self.state.wl as int, self.state.wr as int),
            2 * SCALE,
        );
        let vx = spec_mul(speed, spec_cos(self.state.theta as int));
        let vy = spec_mul(speed, spec_sin(self.state.theta as int));
        let t = self.path.spec_tangent_at(self.spec_ref_d());
        spec_add(spec_mul(vx, t.0), spec_mul(vy, t.1))
    }

    /// Dot product of the robot's velocity with the reference tangent.
    pub fn robot_velocity_reward(&self) -> (r: i64)
        requires
            self.wf(),
        ensures
            r == self.spec_velocity_reward(),
    {
        let speed = fmuldiv(ROBOT_WHEEL_RADIUS, fadd(self.state.wl, self.state.wr), 2 * SCALE);
        let vx = fmul(speed, cos_fix(self.state.theta));
        let vy = fmul(speed, sin_fix(self.state.theta));
        let t = self.reference_tangent();
        fadd(fmul(vx, t.0), fmul(vy, t.1))
    }

    /// Track point at arc length `speed * time`.
    pub fn reference_point(&self) -> (p: (i64, i64))
        requires
            self.wf(),
        ensures
            p.0 == self.path.spec_point_at(self.spec_ref_d()).0,
            p.1 == self.path.spec_point_at(self.spec_ref_d()).1,
    {
        self.path.point_at(fmul(self.speed, self.get_time()))
    }

    /// Track tangent at arc length `speed * time`.
    pub fn reference_tangent(&self) -> (t: (i64, i64))
        requires
            self.wf(),
        ensures
            t.0 == self.path.spec_tangent_at(self.spec_ref_d()).0,
            t.1 == self.path.spec_tangent_at(self.spec_ref_d()).1,
    {
        self.path.tangent_at(fmul(self.speed, self.get_time()))
    }

    /// Tangent of the track segment closest to the robot, at the robot's
    /// projection onto it.
    pub fn robot_projection_tangent(&self) -> (t: (i64, i64))
        requires
            self.wf(),
        ensures
            t.0 == self.path.spec_point_projection_tangent(
                self.state.x as int,
                self.state.y as int,
            ).0,
            t.1 == self.path.spec_point_projection_tangent(
                self.state.x as int,
                self.state.y as int,
            ).1,
    {
        let (x, y) = self.robot_position();
        self.path.point_projection_tangent(x, y)
    }

    /// PID bookkeeping and command split for one tick of size `dt`.  The
    /// integral term accumulates the previous error before `prev_error` is
    /// overwritten — a deliberate one-tick lag kept for behavioral parity.
    pub fn calculate_control(&mut self, dt: i64) -> (u: ControlInput)
        requires
            old(self).wf(),
            dt >= 1,
        ensures
            u == old(self).spec_controls(dt as int),
            *final(self) == old(self).spec_after_control(dt as int),
            final(self).wf(),
    {
        let error_estimate = self.theta_error_estimate();
        let deriv_error = fdiv(fsub(error_estimate, self.prev_error), dt);
        self.int_error = fadd(self.int_error, fmul(self.prev_error, dt));
        self.prev_error = error_estimate;

        let desired_dtheta = fadd(
            fadd(fmul(self.kp, error_estimate), fmul(self.ki, self.int_error)),
            fmul(self.kd, deriv_error),
        );
        let k = fdiv(fmul(ROBOT_SIDE_LENGTH, C2), ROBOT_WHEEL_RADIUS);
        let v = fmul(k, desired_dtheta);
        let um = fdiv(fmul(fmul(TWO_FIX, self.speed), C2), ROBOT_WHEEL_RADIUS);
        let u = ControlInput { ul: fdiv(fsub(um, v), TWO_FIX), ur: fdiv(fadd(um, v), TWO_FIX) };
        self.controls = u;
        u
    }

    /// One tick of size `dt`: derive the control from the track, advance
    /// the integrator under the held control, and advance the clock.
    pub fn step(&mut self, dt: i64)
        requires
            old(self).wf(),
            dt >= 1,
        ensures
            *final(self) == old(self).spec_step(dt as int),
            final(self).wf(),
    {
        let u = self.calculate_control(dt);
        self.integrator.step(dt, &u);
        self.state = self.integrator.get_state();
        self.time = fadd(self.time, dt);
    }
}

} // verus!

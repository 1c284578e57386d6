//! Fitness evaluation for tuning the PID gains and the target speed.
//!
//! A candidate `(kp, ki, kd, speed)` is scored by running a fresh simulation
//! from a fixed initial state for a fixed number of ticks and accumulating
//! `(velocity_reward - squared_error - w_d * squared_cross_track) * dt`.
//! The score is an exact function of the candidate and the configuration, so
//! any black-box search can maximize it; the search loop itself lives
//! outside this library.

use vstd::prelude::*;
use crate::fixed::{fadd, fmul, fsub, spec_add, spec_mul, spec_sub};
use crate::integrator::RobotState;
use crate::robot::RobotSimulation;
use crate::sdf_paths::ClosedPath;

verus! {

/// Weight of the squared cross-track distance in the reward (one hundred,
/// in micro-units).
pub const DIST_WEIGHT: i64 = 100_000_000;

/// Initial state of every scored episode: at the reference track's first
/// point, heading 0.1 radians, wheels at rest.
pub open spec fn spec_initial_state() -> RobotState {
    RobotState { x: 0, y: -4_000_000 as i64, theta: 100_000, wl: 0, dwl: 0, wr: 0, dwr: 0 }
}

/// Scores candidate gain vectors by simulating a fixed horizon on a track.
pub struct RobotOptimizer {
    pub max_iter: usize,
    pub path: ClosedPath,
    pub dt: i64,
}

impl RobotOptimizer {
    /// Well-formedness: a valid track and a positive tick size.
    pub open spec fn wf(self) -> bool {
        self.path.wf() && self.dt >= 1
    }

    /// The fresh simulation a candidate is scored on.
    pub open spec fn spec_initial_sim(&self, kp: int, ki: int, kd: int, speed: int) -> RobotSimulation<'_> {
        RobotSimulation {
            integrator: crate::integrator::Rk4 {
                system: crate::robot::RobotDynamics,
                t: 0,
                x: spec_initial_state(),
            },
            state: spec_initial_state(),
            controls: crate::integrator::ControlInput { ul: 0, ur: 0 },
            path: &self.path,
            prev_error: 0,
            int_error: 0,
            kp: kp as i64,
            ki: ki as i64,
            kd: kd as i64,
            speed: speed as i64,
            time: 0,
        }
    }

    /// Reward of one tick, before scaling by `dt`.
    pub open spec fn spec_tick_reward(sim: RobotSimulation<'_>) -> int {
        let e = sim.spec_robot_error();
        let de = sim.spec_error();
        let de2 = spec_mul(de, de);
        let ve = sim.spec_velocity_reward();
        spec_sub(spec_sub(ve, e), spec_mul(DIST_WEIGHT as int, de2))
    }

    /// The simulation after `n` ticks of size `dt`.
    pub open spec fn spec_sim_after(&self, kp: int, ki: int, kd: int, speed: int, n: int) -> RobotSimulation<'_>
        decreases n,
    {
        if n <= 0 {
            self.spec_initial_sim(kp, ki, kd, speed)
        } else {
            self.spec_sim_after(kp, ki, kd, speed, n - 1).spec_step(self.dt as int)
        }
    }

    /// Fitness accumulated over the first `n` ticks.
    pub open spec fn spec_fitness_acc(&self, kp: int, ki: int, kd: int, speed: int, n: int) -> int
        decreases n,
    {
        if n <= 0 {
            0
        } else {
            spec_add(
                self.spec_fitness_acc(kp, ki, kd, speed, n - 1),
                spec_mul(
                    Self::spec_tick_reward(self.spec_sim_after(kp, ki, kd, speed, n - 1)),
                    self.dt as int,
                ),
            )
        }
    }

    /// Total fitness of a candidate over the whole horizon.
    pub open spec fn spec_fitness(&self, kp: int, ki: int, kd: int, speed: int) -> int {
        self.spec_fitness_acc(kp, ki, kd, speed, self.max_iter as int)
    }

    /// Builds an optimizer for a horizon of `max_iter` ticks of size `dt`
    /// on the given track.
    pub fn new(max_iter: usize, dt: i64, path: ClosedPath) -> (r: RobotOptimizer)
        requires
            path.wf(),
            dt >= 1,
        ensures
            r.wf(),
            r.max_iter == max_iter,
            r.dt == dt,
            r.path == path,
    {
        RobotOptimizer { max_iter, path, dt }
    }

    /// Scores one candidate: runs a fresh episode from the fixed initial
    /// state and accumulates the per-tick reward scaled by `dt`.  The
    /// result is an exact function of the candidate and the configuration.
    pub fn evaluate_fitness(&self, kp: i64, ki: i64, kd: i64, speed: i64) -> (r: i64)
        requires
            self.wf(),
        ensures
            r == self.spec_fitness(kp as int, ki as int, kd as int, speed as int),
    {
        let x0 = RobotState { x: 0, y: -4_000_000, theta: 100_000, wl: 0, dwl: 0, wr: 0, dwr: 0 };
        let mut robot_sim = RobotSimulation::new(x0, kp, ki, kd, speed, &self.path);
        let mut fitness: i64 = 0;
        let mut i: usize = 0;
        while i < self.max_iter
            invariant
                0 <= i <= self.max_iter,
                self.wf(),
                robot_sim == self.spec_sim_after(kp as int, ki as int, kd as int, speed as int, i as int),
                robot_sim.wf(),
                fitness == self.spec_fitness_acc(kp as int, ki as int, kd as int, speed as int, i as int),
            decreases self.max_iter - i,
        {
            let e = robot_sim.robot_error();
            let dist_err = robot_sim.robot_sdf_to_path();
            let dist_err2 = fmul(dist_err, dist_err);
            let ve = robot_sim.robot_velocity_reward();
            fitness = fadd(fitness, fmul(fsub(fsub(ve, e), fmul(DIST_WEIGHT, dist_err2)), self.dt));
            robot_sim.step(self.dt);
            i += 1;
        }
        fitness
    }
}

} // verus!

//! Robot simulation: integrator convergence, determinism, tracking, and
//! fitness evaluation.

use linefollower::integrator::{ControlInput, Rk4, RobotState};
use linefollower::optimizer::RobotOptimizer;
use linefollower::robot::{RobotDynamics, RobotSimulation};
use linefollower::sdf_paths::predefined_closed_path_sdf;

/// Tuned PID gains and target speed, in micro-units.  The gains are
/// negative because the error signal is the signed cross-track distance
/// with the left-of-travel-positive convention.
const KP: i64 = -3_130_480;
const KI: i64 = -73_017_708;
const KD: i64 = -11_273_635;
const SPEED: i64 = 1_671_028;

/// One 240th of a second, in micro-seconds.
const DT: i64 = 4_167;

fn initial_state() -> RobotState {
    RobotState { x: 0, y: -4_000_000, theta: 100_000, wl: 0, dwl: 0, wr: 0, dwr: 0 }
}

fn max_component_diff(a: &RobotState, b: &RobotState) -> i64 {
    [
        (a.x - b.x).abs(),
        (a.y - b.y).abs(),
        (a.theta - b.theta).abs(),
        (a.wl - b.wl).abs(),
        (a.dwl - b.dwl).abs(),
        (a.wr - b.wr).abs(),
        (a.dwr - b.dwr).abs(),
    ]
    .into_iter()
    .max()
    .unwrap()
}

fn run_rk4(dt: i64, n: usize, u: &ControlInput) -> RobotState {
    let mut integrator = Rk4::new(RobotDynamics, 0, initial_state());
    for _ in 0..n {
        integrator.step(dt, u);
    }
    integrator.get_state()
}

// Substep convergence: N steps of dt/N converge as N grows (fourth-order
// collapse of the error against a fine reference).
#[test]
fn rk4_substeps_converge() {
    let u = ControlInput { ul: 40_000_000, ur: 42_000_000 };
    let dt: i64 = 48_000;
    let reference = run_rk4(dt / 32, 5 * 32, &u);
    let mut prev_err = i64::MAX;
    for n in [1usize, 2, 4, 8] {
        let xs = run_rk4(dt / n as i64, 5 * n, &u);
        let err = max_component_diff(&xs, &reference);
        assert!(err < prev_err, "error did not shrink at n = {}: {}", n, err);
        prev_err = err;
    }
    // after three refinements the trajectory is pinned to well under one
    // thousandth of a unit
    assert!(prev_err < 1_000, "final error {}", prev_err);
}

// Determinism: two identically constructed simulations stay bit-for-bit
// equal along the whole trajectory.
#[test]
fn identical_runs_agree_exactly() {
    let path_a = predefined_closed_path_sdf();
    let path_b = predefined_closed_path_sdf();
    let mut a = RobotSimulation::new(initial_state(), KP, KI, KD, SPEED, &path_a);
    let mut b = RobotSimulation::new(initial_state(), KP, KI, KD, SPEED, &path_b);
    for _ in 0..200 {
        assert_eq!(a.get_state(), b.get_state());
        assert_eq!(a.robot_sdf_to_path(), b.robot_sdf_to_path());
        a.step(DT);
        b.step(DT);
    }
    assert_eq!(a.get_state(), b.get_state());
    assert_eq!(a.get_time(), b.get_time());
}

// End-to-end regression guard: on the reference track the tuned controller
// keeps the robot within half a unit of the line for 1000 ticks.
#[test]
fn controller_keeps_robot_near_track() {
    let path = predefined_closed_path_sdf();
    let mut sim = RobotSimulation::new(initial_state(), KP, KI, KD, SPEED, &path);
    let mut max_abs_sdf: i64 = 0;
    for _ in 0..1000 {
        max_abs_sdf = max_abs_sdf.max(sim.robot_sdf_to_path().abs());
        sim.step(DT);
    }
    assert!(max_abs_sdf < 500_000, "cross-track distance reached {}", max_abs_sdf);
    // the run is a pure function of its inputs: the exact final state is a
    // regression oracle
    assert_eq!(
        sim.get_state(),
        RobotState {
            x: 6_842_607,
            y: -4_005_084,
            theta: 14_072,
            wl: 41_748_083,
            dwl: 122_289,
            wr: 41_803_317,
            dwr: -122_292,
        },
    );
    assert_eq!(sim.get_time(), 4_167_000);
}

#[test]
fn simulation_queries_are_consistent() {
    let path = predefined_closed_path_sdf();
    let mut sim = RobotSimulation::new(initial_state(), KP, KI, KD, SPEED, &path);
    assert_eq!(sim.get_time(), 0);
    assert_eq!(sim.robot_position(), (0, -4_000_000));
    // at time zero the reference point is the track's first point
    assert_eq!(sim.reference_point(), path.first_point());
    assert_eq!(sim.theta_error_estimate(), sim.robot_sdf_to_path());
    sim.step(DT);
    assert_eq!(sim.get_time(), DT);
    let (tx, ty) = sim.reference_tangent();
    // still on the first, rightward straight: the tangent points along +x
    assert_eq!((tx, ty), (1_000_000, 0));
    let (px, py) = sim.robot_projection_tangent();
    assert_eq!((px, py), (1_000_000, 0));
    // squared distance to the reference stays small after one tick
    assert!(sim.robot_error() < 100_000, "error {}", sim.robot_error());
}

// Fitness determinism: the same candidate scored twice gives the same
// scalar, and the reference candidate's score is pinned exactly.
#[test]
fn fitness_is_deterministic() {
    let path_a = predefined_closed_path_sdf();
    let path_b = predefined_closed_path_sdf();
    let opt_a = RobotOptimizer::new(200, DT, path_a);
    let opt_b = RobotOptimizer::new(200, DT, path_b);
    let f1 = opt_a.evaluate_fitness(KP, KI, KD, SPEED);
    let f2 = opt_a.evaluate_fitness(KP, KI, KD, SPEED);
    let f3 = opt_b.evaluate_fitness(KP, KI, KD, SPEED);
    assert_eq!(f1, f2);
    assert_eq!(f1, f3);
    assert_eq!(f1, 1_254_443);
}

// Wild candidates must still produce a finite score: saturating arithmetic
// keeps a diverging episode inside the representable range.
#[test]
fn fitness_is_total_for_extreme_candidates() {
    let path = predefined_closed_path_sdf();
    let opt = RobotOptimizer::new(50, DT, path);
    let f = opt.evaluate_fitness(i64::MAX / 2, i64::MIN / 2, 123_456_789_000, -5_000_000);
    assert!(f >= -linefollower::fixed::FIX_MAX && f <= linefollower::fixed::FIX_MAX);
}

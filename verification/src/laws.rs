//! Laws of the simulation: determinism of trajectories and of the fitness
//! score.
//!
//! Every executable step of the library returns exactly the value of a spec
//! function of its inputs, so runs are mathematical functions of their
//! starting configuration.  The lemmas here state the two consequences the
//! library promises its users.

use vstd::prelude::*;
use crate::optimizer::RobotOptimizer;
use crate::robot::RobotSimulation;

verus! {

/// Determinism of trajectories: two simulations that start from the same
/// state, track, gains, speed, bookkeeping and clock, and are stepped with
/// the same tick size, are equal after any number of ticks.  Because `step`
/// returns exactly `spec_step`, the same holds of two executed runs.
pub proof fn lemma_trajectory_deterministic(
    a: RobotSimulation<'_>,
    b: RobotSimulation<'_>,
    dt: int,
    n: int,
)
    requires
        a.integrator == b.integrator,
        a.state == b.state,
        a.controls == b.controls,
        a.path == b.path,
        a.prev_error == b.prev_error,
        a.int_error == b.int_error,
        a.kp == b.kp,
        a.ki == b.ki,
        a.kd == b.kd,
        a.speed == b.speed,
        a.time == b.time,
    ensures
        a.spec_run(dt, n) == b.spec_run(dt, n),
{
    assert(a == b);
}

/// Determinism of the fitness score: two optimizers with the same horizon,
/// track and tick size give every candidate the same score.  Because
/// `evaluate_fitness` returns exactly `spec_fitness`, two executed
/// evaluations of one candidate return the same scalar.
pub proof fn lemma_fitness_deterministic(
    o1: &RobotOptimizer,
    o2: &RobotOptimizer,
    kp: int,
    ki: int,
    kd: int,
    speed: int,
)
    requires
        o1.max_iter == o2.max_iter,
        o1.path == o2.path,
        o1.dt == o2.dt,
    ensures
        o1.spec_fitness(kp, ki, kd, speed) == o2.spec_fitness(kp, ki, kd, speed),
{
    assert(*o1 == *o2);
}

} // verus!

//! Simulators, which run genetic algorithms, and the parts they are made of.
use vstd::prelude::*;
use crate::pheno::{Fitness, Phenotype};

pub mod earlystopper;
pub mod iterlimit;
pub mod select;
pub mod seq;

verus! {

/// A `Builder` creates an instance of a type; here, of a `Simulator`.
pub trait Builder<T> {
    /// Return the result.
    fn build(self) -> T;
}

/// Simulation run time is counted in nanoseconds.
pub type NanoSecond = i64;

/// The result of a simulation: the best phenotype, or an error message.
pub type SimResult<'a, T> = Result<&'a T, &'a str>;

/// The result of running a single step.
#[derive(Clone, Copy, PartialEq, Eq, Debug, Structural)]
pub enum StepResult {
    /// The step was successful, but the simulation has not finished.
    Success,
    /// The step was not successful.
    Failure,
    /// The step was successful and the simulation finished.
    Done,
}

/// The result of running an entire simulation.
#[derive(Clone, Copy, PartialEq, Eq, Debug, Structural)]
pub enum RunResult {
    /// An error occurred somewhere during simulation.
    Failure,
    /// The simulation finished without errors.
    Done,
}

/// A `Simulation` is an execution of a genetic algorithm.
pub trait Simulation<T: Phenotype<F>, F: Fitness> {
    /// Whether a step of the simulation has failed.
    spec fn has_failed(&self) -> bool;

    /// Run the simulation completely.
    fn run(&mut self) -> RunResult;

    /// Make one step in the simulation:
    ///
    /// * `StepResult::Success` when a step was successful, but the simulation is not done.
    /// * `StepResult::Failure` when an error occurred. Check the result of `get()`.
    /// * `StepResult::Done` on convergence or reaching the maximum iterations.
    fn step(&mut self) -> StepResult;

    /// Make one step in the simulation, as `step` does; only before a failure.
    fn checked_step(&mut self) -> StepResult
        requires
            !old(self).has_failed(),
    ;

    /// The best performing individual, or an error message saying what went
    /// wrong.
    fn get(&self) -> SimResult<'_, T>;

    /// The number of nanoseconds spent running, where it is measured.
    fn time(&self) -> Option<NanoSecond>;

    /// The number of iterations executed so far.
    fn iterations(&self) -> u64;

    /// A copy of the current population.
    fn population(&self) -> Vec<T>;
}

} // verus!

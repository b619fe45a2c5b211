//! Collecting information on the steps of a simulation.
use vstd::prelude::*;
use crate::pheno::Fitness;

verus! {

/// A collector for stats on the population's fitness or timing.
pub trait StatsCollector<F: Fitness> {
    /// Executed before a step, passing the current population's fitness.
    fn before_step(&mut self, pop_fitness: &[F]) {
    }

    /// Executed after a step, passing the current population's fitness.
    fn after_step(&mut self, pop_fitness: &[F]) {
    }
}

/// A collector that collects nothing.
#[derive(Debug, Clone, Copy)]
pub struct NoStats {}

impl<F: Fitness> StatsCollector<F> for NoStats {

}

} // verus!

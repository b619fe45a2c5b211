//! Stopping a simulation once the best fitness no longer changes much.
use vstd::prelude::*;
use crate::pheno::{rank_distance, Fitness};
use crate::sim::iterlimit::IterLimit;

verus! {

/// Used for early stopping.
///
/// It counts the consecutive updates whose fitness lies within `delta` of the
/// previously recorded one; an update further away starts the count again.
#[derive(Copy, Clone, Debug)]
pub struct EarlyStopper<F: Fitness> {
    /// Minimum difference required for early stopping.
    delta: F,
    /// Previously recorded fitness value.
    previous: F,
    /// The number of iterations before stopping early.
    iter_limit: IterLimit,
}

impl<F: Fitness> EarlyStopper<F> {
    /// The difference below which an update counts as no change.
    pub closed spec fn delta(&self) -> F {
        self.delta
    }

    /// The fitness value recorded last.
    pub closed spec fn previous(&self) -> F {
        self.previous
    }

    /// The counter of consecutive small changes, with its maximum.
    pub closed spec fn counter(&self) -> IterLimit {
        self.iter_limit
    }

    /// Whether `fitness` lies within the stopper's delta of the recorded value.
    pub open spec fn is_close(&self, fitness: F) -> bool {
        rank_distance(self.previous().rank(), fitness.rank()) < self.delta().rank()
    }

    /// `self` is what an update with `fitness` makes of `before`: a value close
    /// to the recorded one is recorded in its place and counted; any other
    /// value sets the count back to zero and is not recorded.
    pub open spec fn is_update_of(&self, before: Self, fitness: F) -> bool {
        &&& self.delta() == before.delta()
        &&& self.counter().limit() == before.counter().limit()
        &&& before.is_close(fitness) ==> {
            &&& self.previous() == fitness
            &&& before.counter().count() < u64::MAX ==> self.counter().count()
                == before.counter().count() + 1
            &&& before.counter().count() == u64::MAX ==> self.counter().count() == u64::MAX
        }
        &&& !before.is_close(fitness) ==> {
            &&& self.previous() == before.previous()
            &&& self.counter().count() == 0
        }
    }

    /// Create a new `EarlyStopper`.
    pub fn new(delta: F, n_iters: u64) -> (r: EarlyStopper<F>)
        ensures
            r.delta() == delta,
            r.previous().rank() == 0,
            r.counter().limit() == n_iters,
            r.counter().count() == 0,
    {
        EarlyStopper { delta, previous: F::zero(), iter_limit: IterLimit::new(n_iters) }
    }

    /// Update the `EarlyStopper` with a new fitness value.
    pub fn update(&mut self, fitness: F)
        ensures
            final(self).is_update_of(*old(self), fitness),
    {
        let change = self.previous.abs_diff(&fitness);
        if change.score() < self.delta.score() {
            self.previous = fitness;
            self.iter_limit.inc();
        } else {
            self.iter_limit.reset();
        }
    }

    /// Returns whether the `Simulator` should stop.
    pub fn reached(&self) -> (r: bool)
        ensures
            r == self.counter().is_reached(),
    {
        self.iter_limit.reached()
    }
}

} // verus!

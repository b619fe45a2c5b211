//! A sequential simulator: the genetic algorithm runs on a single thread.
//!
//! To get a `Simulator`, call `Simulator::builder()` and build it.
use vstd::prelude::*;
use vstd::arithmetic::div_mod::lemma_add_mod_noop;
use vstd::pervasive::cloned;
use crate::pheno::{Fitness, Phenotype};
use crate::random::{draw_below, entropy_rng};
use crate::sim::earlystopper::EarlyStopper;
use crate::sim::iterlimit::IterLimit;
use crate::sim::select::stochastic::jump;
use crate::sim::select::{MaximizeSelector, Selector};
use crate::sim::{Builder, NanoSecond, RunResult, SimResult, Simulation, StepResult};
use crate::stats::StatsCollector;

verus! {

/// `s` without position `i`, whose place the last element takes.
pub open spec fn swap_removed<T>(s: Seq<T>, i: int) -> Seq<T> {
    s.update(i, s.last()).drop_last()
}

/// What is left of `s` after culling `count` members by stochastic universal
/// sampling: remove position `i`, jump `ratio` positions on around the smaller
/// population, and so on.
pub open spec fn culled<T>(s: Seq<T>, i: int, ratio: int, count: nat) -> Seq<T>
    decreases count,
{
    if count == 0 {
        s
    } else {
        let t = swap_removed(s, i);
        culled(t, (i + ratio) % (t.len() as int), ratio, (count - 1) as nat)
    }
}

/// `next` is `members` with as many members culled as there are children
/// `kids` (by stochastic universal sampling from `start`, see `culled`) and the
/// children appended; there are fewer children than members.
pub open spec fn replaced<T>(members: Seq<T>, next: Seq<T>, start: int, kids: Seq<T>) -> bool {
    &&& kids.len() < members.len()
    &&& kids.len() == 0 ==> next == members
    &&& kids.len() > 0 ==> {
        &&& 0 <= start < members.len()
        &&& next == culled(members, start, members.len() as int / kids.len() as int, kids.len())
            + kids
    }
}

/// `kid` is bred from `a` and `b`: a mutation of a child of their crossover.
pub open spec fn bred_from<F: Fitness, T: Phenotype<F>>(a: T, b: T, kid: T) -> bool {
    exists|c: T| #[trigger] a.crosses_to(b, c) && c.mutates_to(kid)
}

/// Child `k` of `kids` is bred from pair `k` of `parents`.
pub open spec fn offspring<F: Fitness, T: Phenotype<F>>(
    parents: Seq<(&T, &T)>,
    kids: Seq<T>,
) -> bool {
    &&& kids.len() == parents.len()
    &&& forall|k: int|
        0 <= k < kids.len() ==> bred_from::<F, T>(*parents[k].0, *parents[k].1, #[trigger] kids[k])
}

/// `kid` is bred from two members of `members`.
pub open spec fn bred_in<F: Fitness, T: Phenotype<F>>(members: Seq<T>, kid: T) -> bool {
    exists|a: T, b: T|
        members.contains(a) && members.contains(b) && #[trigger] bred_from::<F, T>(a, b, kid)
}

/// Each of `kids` is bred from two members of `members`.
pub open spec fn bred_within<F: Fitness, T: Phenotype<F>>(members: Seq<T>, kids: Seq<T>) -> bool {
    forall|k: int| 0 <= k < kids.len() ==> bred_in::<F, T>(members, #[trigger] kids[k])
}

/// One child from each pair of parents: the crossover of the pair, mutated.
pub fn breed<F: Fitness, T: Phenotype<F>>(parents: &Vec<(&T, &T)>) -> (kids: Vec<T>)
    ensures
        offspring::<F, T>(parents@, kids@),
{
    let mut kids: Vec<T> = Vec::new();
    let mut k: usize = 0;
    while k < parents.len()
        invariant
            k <= parents@.len(),
            kids@.len() == k,
            forall|j: int|
                0 <= j < k ==> bred_from::<F, T>(*parents@[j].0, *parents@[j].1, #[trigger] kids@[j]),
        decreases parents@.len() - k,
    {
        let (a, b) = parents[k];
        let c = a.crossover(b);
        let kid = c.mutate();
        assert(a.crosses_to(*b, c) && c.mutates_to(kid));
        kids.push(kid);
        k = k + 1;
    }
    kids
}

/// `x` is the highest fitness rank of the members.
pub open spec fn is_highest_rank<F: Fitness, T: Phenotype<F>>(members: Seq<T>, x: int) -> bool {
    &&& exists|j: int| 0 <= j < members.len() && #[trigger] members[j].fitness_rank() == x
    &&& forall|q: int| 0 <= q < members.len() ==> #[trigger] members[q].fitness_rank() <= x
}

/// The position of a fittest member of a non-empty population; the last of
/// them where several are equally fit.
pub fn fittest<F: Fitness, T: Phenotype<F>>(population: &[T]) -> (r: usize)
    requires
        population@.len() > 0,
    ensures
        r < population@.len(),
        forall|j: int|
            0 <= j < population@.len() ==> #[trigger] population@[j].fitness_rank()
                <= population@[r as int].fitness_rank(),
        forall|j: int|
            r < j < population@.len() ==> #[trigger] population@[j].fitness_rank()
                < population@[r as int].fitness_rank(),
{
    let mut best: usize = 0;
    let mut best_score = population[0].fitness().score();
    let mut i: usize = 1;
    while i < population.len()
        invariant
            best < i <= population@.len(),
            best_score as int == population@[best as int].fitness_rank(),
            forall|j: int|
                0 <= j < i ==> #[trigger] population@[j].fitness_rank() <= best_score as int,
            forall|j: int|
                best < j < i ==> #[trigger] population@[j].fitness_rank() < best_score as int,
        decreases population@.len() - i,
    {
        let score = population[i].fitness().score();
        if score >= best_score {
            best = i;
            best_score = score;
        }
        i = i + 1;
    }
    best
}

/// A sequential implementation of `Simulation`: the genetic algorithm runs on
/// a single thread.
pub struct Simulator<T, F, S, Sel> where
    T: Phenotype<F>,
    F: Fitness,
    S: StatsCollector<F>,
    Sel: Selector<T, F>,
 {
    population: Vec<T>,
    iter_limit: IterLimit,
    selector: Sel,
    earlystopper: Option<EarlyStopper<F>>,
    error: Option<String>,
    stats: Option<S>,
    rng: rand::rngs::StdRng,
}

impl<T, F, S, Sel> Simulator<T, F, S, Sel> where
    T: Phenotype<F>,
    F: Fitness,
    S: StatsCollector<F>,
    Sel: Selector<T, F>,
 {
    /// The current population.
    pub closed spec fn members(&self) -> Seq<T> {
        self.population@
    }

    /// The counter of iterations, with its maximum.
    pub closed spec fn iteration_limit(&self) -> IterLimit {
        self.iter_limit
    }

    /// The early stopper, if one is set.
    pub closed spec fn stopper(&self) -> Option<EarlyStopper<F>> {
        self.earlystopper
    }

    /// The error that stopped the simulation, if any.
    pub closed spec fn failure(&self) -> Option<String> {
        self.error
    }

    /// The selector of parents.
    pub closed spec fn parent_selector(&self) -> Sel {
        self.selector
    }

    /// The stats collector, if one is set.
    pub closed spec fn collector(&self) -> Option<S> {
        self.stats
    }

    /// Whether the iteration limit or the early stopper has been reached.
    pub open spec fn is_stopped(&self) -> bool {
        self.iteration_limit().is_reached() || (self.stopper() is Some
            && self.stopper()->0.counter().is_reached())
    }

    /// The settings that a step leaves alone.
    pub open spec fn same_settings(&self, other: Self) -> bool {
        &&& self.parent_selector() == other.parent_selector()
        &&& self.iteration_limit().limit() == other.iteration_limit().limit()
        &&& (self.stopper() is Some <==> other.stopper() is Some)
        &&& self.stopper() is Some ==> self.stopper()->0.counter().limit()
            == other.stopper()->0.counter().limit()
    }

    /// A step from `self` to `next` gives `r`:
    ///
    /// * an empty population fails;
    /// * a simulation that reached its iteration limit or its early stopper is
    ///   done, and nothing but the stats collector changes;
    /// * a selector that does not accept the population fails, and nothing but
    ///   the error and the stats collector changes;
    /// * otherwise the step succeeds: one child is bred from each pair of
    ///   parents the selector gives, as many members are culled and the
    ///   children appended, so that the population keeps its size; the
    ///   iteration count goes up by one, and the early stopper, if any, is
    ///   updated with the fitness of a fittest member of the new population.
    pub open spec fn steps_to(&self, next: Self, r: StepResult) -> bool {
        let len = self.members().len();
        &&& next.same_settings(*self)
        &&& len == 0 ==> r == StepResult::Failure
        &&& len > 0 && self.is_stopped() ==> r == StepResult::Done
        &&& len > 0 && !self.is_stopped() && self.parent_selector().accepts(len) ==> r
            == StepResult::Success
        &&& len > 0 && !self.is_stopped() && !self.parent_selector().accepts(len) ==> r
            == StepResult::Failure
        &&& r == StepResult::Done ==> {
            &&& self.is_stopped()
            &&& next.members() == self.members()
            &&& next.iteration_limit() == self.iteration_limit()
            &&& next.stopper() == self.stopper()
            &&& next.failure() == self.failure()
        }
        &&& r == StepResult::Failure ==> {
            &&& next.members() == self.members()
            &&& next.iteration_limit() == self.iteration_limit()
            &&& next.stopper() == self.stopper()
            &&& next.failure() is Some
        }
        &&& r == StepResult::Success ==> {
            &&& len > 0
            &&& !self.is_stopped()
            &&& self.parent_selector().accepts(len)
            &&& next.members().len() == len
            &&& exists|start: int, kids: Seq<T>|
                {
                    &&& #[trigger] replaced(self.members(), next.members(), start, kids)
                    &&& kids.len() == self.parent_selector().pair_count(len)
                    &&& bred_within::<F, T>(self.members(), kids)
                }
            &&& next.iteration_limit().count() == self.iteration_limit().count() + 1
            &&& next.failure() == self.failure()
            &&& self.stopper() is Some ==> exists|f: F|
                {
                    &&& #[trigger] next.stopper()->0.is_update_of(self.stopper()->0, f)
                    &&& is_highest_rank::<F, T>(next.members(), f.rank())
                }
        }
    }

    /// The stats collector, if one is set.
    pub fn stats(&self) -> (r: Option<&S>)
        ensures
            r is Some <==> self.collector() is Some,
            r is Some ==> *r->0 == self.collector()->0,
    {
        match &self.stats {
            Some(s) => Some(s),
            None => None,
        }
    }

    /// Make room for `children` by culling as many members (see `kill_off`),
    /// then append them.
    pub fn replace_with_children(&mut self, children: Vec<T>)
        requires
            children@.len() < old(self).members().len(),
        ensures
            final(self).members().len() == old(self).members().len(),
            exists|start: int| #[trigger]
                replaced(old(self).members(), final(self).members(), start, children@),
            final(self).iteration_limit() == old(self).iteration_limit(),
            final(self).stopper() == old(self).stopper(),
            final(self).failure() == old(self).failure(),
            final(self).parent_selector() == old(self).parent_selector(),
            final(self).collector() == old(self).collector(),
    {
        let ghost members = self.population@;
        let ghost kids = children@;
        let mut children = children;
        let c = children.len();
        if c > 0 {
            self.kill_off(c);
        }
        let ghost culled_members = self.population@;
        self.population.append(&mut children);
        let ghost start: int = if c > 0 {
            choose|start: int|
                0 <= start < members.len() && culled_members == #[trigger] culled(
                    members,
                    start,
                    members.len() as int / c as int,
                    c as nat,
                )
        } else {
            0
        };
        proof {
            if c == 0 {
                assert(self.population@ =~= members);
            }
            assert(replaced(members, self.population@, start, kids));
        }
        assert(replaced(old(self).members(), self.members(), start, kids));
    }

    /// Kill off `count` phenotypes using stochastic universal sampling: from a
    /// random position, remove a phenotype and jump `len / count` positions on,
    /// `count` times over.
    pub fn kill_off(&mut self, count: usize)
        requires
            0 < count < old(self).members().len(),
        ensures
            final(self).members().len() == old(self).members().len() - count,
            exists|start: int|
                0 <= start < old(self).members().len() && final(self).members() == #[trigger] culled(
                    old(self).members(),
                    start,
                    old(self).members().len() as int / count as int,
                    count as nat,
                ),
            final(self).iteration_limit() == old(self).iteration_limit(),
            final(self).stopper() == old(self).stopper(),
            final(self).failure() == old(self).failure(),
            final(self).parent_selector() == old(self).parent_selector(),
            final(self).collector() == old(self).collector(),
    {
        let len = self.population.len();
        let ratio = len / count;
        let start = draw_below(&mut self.rng, len);
        let mut i = start;
        let mut k: usize = 0;
        while k < count
            invariant
                0 < count < len,
                len == old(self).population@.len(),
                ratio == len / count,
                k <= count,
                self.population@.len() == len - k,
                i < self.population@.len(),
                culled(self.population@, i as int, ratio as int, (count - k) as nat) == culled(
                    old(self).population@,
                    start as int,
                    ratio as int,
                    count as nat,
                ),
                self.iter_limit == old(self).iter_limit,
                self.earlystopper == old(self).earlystopper,
                self.error == old(self).error,
                self.selector == old(self).selector,
                self.stats == old(self).stats,
            decreases count - k,
        {
            let ghost before = self.population@;
            let ghost at = i;
            self.population.swap_remove(i);
            let n = self.population.len();
            i = jump(i % n, ratio % n, n);
            proof {
                lemma_add_mod_noop(at as int, ratio as int, n as int);
                assert(self.population@ == swap_removed(before, at as int));
            }
            k = k + 1;
        }
        proof {
            assert(culled(self.population@, i as int, ratio as int, 0) == self.population@);
        }
    }
}

impl<T, F, S> Simulator<T, F, S, MaximizeSelector> where
    T: Phenotype<F>,
    F: Fitness,
    S: StatsCollector<F>,
 {
    /// Create a `SimulatorBuilder` for a simulation of `population`.
    ///
    /// By default the simulator selects with `MaximizeSelector::new(3)`, stops
    /// after 100 iterations, has no early stopper and no stats collector, and
    /// draws from a generator seeded by the operating system.
    pub fn builder(population: Vec<T>) -> (r: SimulatorBuilder<T, F, S, MaximizeSelector>)
        ensures
            r.simulator().members() == population@,
            r.simulator().iteration_limit().limit() == 100,
            r.simulator().iteration_limit().count() == 0,
            r.simulator().parent_selector().count() == 3,
            r.simulator().stopper() is None,
            r.simulator().failure() is None,
            r.simulator().collector() is None,
    {
        SimulatorBuilder {
            sim: Simulator {
                population,
                iter_limit: IterLimit::new(100),
                selector: MaximizeSelector::new(3),
                earlystopper: None,
                error: None,
                stats: None,
                rng: entropy_rng(),
            },
        }
    }
}

impl<T, F, S, Sel> Simulation<T, F> for Simulator<T, F, S, Sel> where
    T: Phenotype<F>,
    F: Fitness,
    S: StatsCollector<F>,
    Sel: Selector<T, F>,
 {
    closed spec fn has_failed(&self) -> bool {
        self.error is Some
    }

    fn run(&mut self) -> (r: RunResult)
        ensures
            final(self).same_settings(*old(self)),
            final(self).members().len() == old(self).members().len(),
            (r == RunResult::Failure) <==> (old(self).members().len() == 0 || (
            !old(self).is_stopped() && !old(self).parent_selector().accepts(
                old(self).members().len(),
            ))),
            r == RunResult::Failure ==> {
                &&& final(self).failure() is Some
                &&& final(self).members() == old(self).members()
                &&& final(self).iteration_limit() == old(self).iteration_limit()
                &&& final(self).stopper() == old(self).stopper()
            },
            r == RunResult::Done ==> {
                &&& final(self).is_stopped()
                &&& final(self).failure() == old(self).failure()
            },
            final(self).iteration_limit().count() == old(self).iteration_limit().count()
                || final(self).iteration_limit().count() <= final(self).iteration_limit().limit(),
            r == RunResult::Done && old(self).stopper() is None ==> final(self).iteration_limit().count()
                == vstd::math::max(
                old(self).iteration_limit().count() as int,
                old(self).iteration_limit().limit() as int,
            ),
    {
        loop
            invariant
                self.same_settings(*old(self)),
                self.members().len() == old(self).members().len(),
                self.failure() == old(self).failure(),
                (self.members() == old(self).members() && self.iteration_limit() == old(self).iteration_limit()
                    && self.stopper() == old(self).stopper()) || (old(self).members().len() > 0
                    && old(self).parent_selector().accepts(old(self).members().len())
                    && !old(self).is_stopped()),
                self.iteration_limit().count() == old(self).iteration_limit().count()
                    || self.iteration_limit().count() <= self.iteration_limit().limit(),
            decreases self.iteration_limit().limit() - self.iteration_limit().count(),
        {
            match self.step() {
                StepResult::Success => {},
                StepResult::Failure => {
                    return RunResult::Failure;
                },
                StepResult::Done => {
                    return RunResult::Done;
                },
            }
        }
    }

    fn step(&mut self) -> (r: StepResult)
        ensures
            old(self).steps_to(*final(self), r),
    {
        if self.population.len() == 0 {
            self.error = Some(
                "Tried to run a simulator without a population, or the population was empty.".to_owned(),
            );
            return StepResult::Failure;
        }
        let should_stop = match &self.earlystopper {
            Some(x) => self.iter_limit.reached() || x.reached(),
            None => self.iter_limit.reached(),
        };
        if self.stats.is_some() {
            let fitness = population_fitness(self.population.as_slice());
            let mut s = self.stats.take().unwrap();
            s.before_step(fitness.as_slice());
            self.stats = Some(s);
        }
        if should_stop {
            return StepResult::Done;
        }
        let ghost members = self.population@;
        let children = {
            let parents = match self.selector.select_with(
                self.population.as_slice(),
                &mut self.rng,
            ) {
                Ok(parents) => parents,
                Err(e) => {
                    self.error = Some(e);
                    return StepResult::Failure;
                },
            };
            let kids = breed::<F, T>(&parents);
            proof {
                assert forall|k: int| 0 <= k < kids@.len() implies bred_in::<F, T>(
                    members,
                    #[trigger] kids@[k],
                ) by {
                    assert(parents@[k] == parents@[k]);
                    assert(bred_from::<F, T>(*parents@[k].0, *parents@[k].1, kids@[k]));
                }
            }
            kids
        };
        let ghost kids = children@;
        self.replace_with_children(children);
        let ghost start: int = choose|start: int| #[trigger] replaced(members, self.population@, start, kids);
        if self.earlystopper.is_some() {
            let best = fittest::<F, T>(self.population.as_slice());
            let mut stopper = self.earlystopper.take().unwrap();
            let ghost before = stopper;
            let f = self.population[best].fitness();
            let ghost fv = f;
            stopper.update(f);
            self.earlystopper = Some(stopper);
            assert(self.earlystopper->0.is_update_of(before, fv));
            assert(is_highest_rank::<F, T>(self.population@, fv.rank()));
        }
        self.iter_limit.inc();
        if self.stats.is_some() {
            let fitness = population_fitness(self.population.as_slice());
            let mut s = self.stats.take().unwrap();
            s.after_step(fitness.as_slice());
            self.stats = Some(s);
        }
        assert(replaced(old(self).members(), self.members(), start, kids));
        assert(bred_within::<F, T>(old(self).members(), kids));
        StepResult::Success
    }

    fn checked_step(&mut self) -> (r: StepResult)
        ensures
            old(self).steps_to(*final(self), r),
    {
        self.step()
    }

    fn get(&self) -> (r: SimResult<'_, T>)
        ensures
            self.failure() is Some ==> r is Err && r->Err_0@ == self.failure()->0@,
            self.failure() is None && self.members().len() == 0 ==> r is Err,
            self.failure() is None && self.members().len() > 0 ==> {
                &&& r is Ok
                &&& self.members().contains(*r->Ok_0)
                &&& forall|j: int|
                    0 <= j < self.members().len() ==> #[trigger] self.members()[j].fitness_rank()
                        <= (*r->Ok_0).fitness_rank()
            },
    {
        match &self.error {
            Some(e) => Err(e.as_str()),
            None => {
                if self.population.len() == 0 {
                    Err("The population is empty.")
                } else {
                    let best = fittest::<F, T>(self.population.as_slice());
                    Ok(&self.population[best])
                }
            },
        }
    }

    fn time(&self) -> (r: Option<NanoSecond>)
        ensures
            r is None,
    {
        None
    }

    fn iterations(&self) -> (r: u64)
        ensures
            r == self.iteration_limit().count(),
    {
        self.iter_limit.get()
    }

    fn population(&self) -> (r: Vec<T>)
        ensures
            r@.len() == self.members().len(),
            forall|i: int|
                0 <= i < r@.len() ==> cloned::<T>(self.members()[i], #[trigger] r@[i]),
    {
        self.population.clone()
    }
}

/// The fitness of each member of the population, in its order.
fn population_fitness<F: Fitness, T: Phenotype<F>>(population: &[T]) -> (r: Vec<F>)
    ensures
        r@.len() == population@.len(),
        forall|i: int|
            0 <= i < r@.len() ==> (#[trigger] r@[i]).rank() == population@[i].fitness_rank(),
{
    let mut r: Vec<F> = Vec::new();
    let mut i: usize = 0;
    while i < population.len()
        invariant
            i <= population@.len(),
            r@.len() == i,
            forall|j: int| 0 <= j < i ==> (#[trigger] r@[j]).rank() == population@[j].fitness_rank(),
        decreases population@.len() - i,
    {
        r.push(population[i].fitness());
        i = i + 1;
    }
    r
}

/// A `Builder` for the `Simulator` type.
pub struct SimulatorBuilder<T, F, S, Sel> where
    T: Phenotype<F>,
    F: Fitness,
    S: StatsCollector<F>,
    Sel: Selector<T, F>,
 {
    sim: Simulator<T, F, S, Sel>,
}

impl<T, F, S, Sel> SimulatorBuilder<T, F, S, Sel> where
    T: Phenotype<F>,
    F: Fitness,
    S: StatsCollector<F>,
    Sel: Selector<T, F>,
 {
    /// The simulator being built.
    pub closed spec fn simulator(&self) -> Simulator<T, F, S, Sel> {
        self.sim
    }

    /// Set the selector of the resulting `Simulator`.
    ///
    /// Returns the builder for chaining purposes.
    pub fn set_selector<Q: Selector<T, F>>(self, sel: Q) -> (r: SimulatorBuilder<T, F, S, Q>)
        ensures
            r.simulator().parent_selector() == sel,
            r.simulator().members() == self.simulator().members(),
            r.simulator().iteration_limit() == self.simulator().iteration_limit(),
            r.simulator().stopper() == self.simulator().stopper(),
            r.simulator().failure() == self.simulator().failure(),
            r.simulator().collector() == self.simulator().collector(),
    {
        let sim = self.sim;
        SimulatorBuilder {
            sim: Simulator {
                population: sim.population,
                iter_limit: sim.iter_limit,
                selector: sel,
                earlystopper: sim.earlystopper,
                error: sim.error,
                stats: sim.stats,
                rng: sim.rng,
            },
        }
    }

    /// Set the maximum number of iterations of the resulting `Simulator`.
    ///
    /// The `Simulator` will stop running after this number of iterations.
    ///
    /// Returns the builder for chaining purposes.
    pub fn set_max_iters(self, i: u64) -> (r: Self)
        ensures
            r.simulator().iteration_limit().limit() == i,
            r.simulator().iteration_limit().count() == 0,
            r.simulator().members() == self.simulator().members(),
            r.simulator().parent_selector() == self.simulator().parent_selector(),
            r.simulator().stopper() == self.simulator().stopper(),
            r.simulator().failure() == self.simulator().failure(),
            r.simulator().collector() == self.simulator().collector(),
    {
        let mut b = self;
        b.sim.iter_limit = IterLimit::new(i);
        b
    }

    /// Set the stats collector of the resulting `Simulator`.
    ///
    /// Returns the builder for chaining purposes.
    pub fn set_stats_collector(self, sc: Option<S>) -> (r: Self)
        ensures
            r.simulator().collector() == sc,
            r.simulator().members() == self.simulator().members(),
            r.simulator().parent_selector() == self.simulator().parent_selector(),
            r.simulator().iteration_limit() == self.simulator().iteration_limit(),
            r.simulator().stopper() == self.simulator().stopper(),
            r.simulator().failure() == self.simulator().failure(),
    {
        let mut b = self;
        b.sim.stats = sc;
        b
    }

    /// Set the random generator of the resulting `Simulator`.
    ///
    /// Returns the builder for chaining purposes.
    pub fn set_rng(self, rng: rand::rngs::StdRng) -> (r: Self)
        ensures
            r.simulator().members() == self.simulator().members(),
            r.simulator().parent_selector() == self.simulator().parent_selector(),
            r.simulator().iteration_limit() == self.simulator().iteration_limit(),
            r.simulator().stopper() == self.simulator().stopper(),
            r.simulator().failure() == self.simulator().failure(),
            r.simulator().collector() == self.simulator().collector(),
    {
        let mut b = self;
        b.sim.rng = rng;
        b
    }

    /// Set early stopping. If for `n_iters` iterations, the change in the
    /// highest fitness is smaller than `delta`, the simulator will stop running.
    ///
    /// Returns the builder for chaining purposes.
    pub fn set_early_stop(self, delta: F, n_iters: u64) -> (r: Self)
        ensures
            r.simulator().stopper() is Some,
            r.simulator().stopper()->0.delta() == delta,
            r.simulator().stopper()->0.previous().rank() == 0,
            r.simulator().stopper()->0.counter().limit() == n_iters,
            r.simulator().stopper()->0.counter().count() == 0,
            r.simulator().members() == self.simulator().members(),
            r.simulator().parent_selector() == self.simulator().parent_selector(),
            r.simulator().iteration_limit() == self.simulator().iteration_limit(),
            r.simulator().failure() == self.simulator().failure(),
            r.simulator().collector() == self.simulator().collector(),
    {
        let mut b = self;
        b.sim.earlystopper = Some(EarlyStopper::new(delta, n_iters));
        b
    }
}

impl<T, F, S, Sel> Builder<Simulator<T, F, S, Sel>> for SimulatorBuilder<T, F, S, Sel> where
    T: Phenotype<F>,
    F: Fitness,
    S: StatsCollector<F>,
    Sel: Selector<T, F>,
 {
    fn build(self) -> (r: Simulator<T, F, S, Sel>)
        ensures
            r == self.simulator(),
    {
        self.sim
    }
}

} // verus!

use rsgenetic::pheno::{Fitness, Phenotype};
use rsgenetic::sim::earlystopper::EarlyStopper;
use rsgenetic::sim::iterlimit::IterLimit;
use rsgenetic::sim::select::{MaximizeSelector, StochasticSelector, TournamentSelector};
use rsgenetic::sim::seq::{breed, Simulator};
use rsgenetic::sim::{Builder, RunResult, Simulation, StepResult};
use rsgenetic::stats::{NoStats, StatsCollector};
use std::cmp;

#[derive(Clone, Copy, Debug, PartialOrd, Ord, PartialEq, Eq)]
struct MyFitness {
    f: i64,
}

impl MyFitness {
    fn new(f: i64) -> MyFitness {
        MyFitness { f }
    }
}

impl Fitness for MyFitness {
    fn zero() -> Self {
        MyFitness { f: 0 }
    }

    fn abs_diff(&self, other: &Self) -> Self {
        MyFitness {
            f: (self.f - other.f).abs(),
        }
    }

    fn score(&self) -> i128 {
        self.f as i128
    }
}

#[derive(Clone, Copy, Debug)]
struct Test {
    f: i64,
}

impl Phenotype<MyFitness> for Test {
    fn fitness(&self) -> MyFitness {
        MyFitness { f: self.f.abs() }
    }

    fn crossover(&self, t: &Test) -> Test {
        Test {
            f: cmp::min(self.f, t.f),
        }
    }

    fn mutate(&self) -> Test {
        if self.f < 0 {
            Test { f: self.f + 1 }
        } else if self.f > 0 {
            Test { f: self.f - 1 }
        } else {
            *self
        }
    }
}

/// A fitness whose order is the reverse of its value: smaller is fitter.
#[derive(Clone, Copy, Debug, PartialEq, Eq)]
struct Smaller {
    v: i64,
}

impl Fitness for Smaller {
    fn zero() -> Self {
        Smaller { v: 0 }
    }

    fn abs_diff(&self, other: &Self) -> Self {
        Smaller {
            v: (self.v - other.v).abs(),
        }
    }

    fn score(&self) -> i128 {
        -(self.v as i128)
    }
}

#[derive(Clone, Copy, Debug)]
struct Near {
    i: i64,
}

impl Phenotype<Smaller> for Near {
    fn fitness(&self) -> Smaller {
        Smaller { v: self.i.abs() }
    }

    fn crossover(&self, t: &Near) -> Near {
        Near {
            i: cmp::min(self.i, t.i),
        }
    }

    fn mutate(&self) -> Near {
        if self.i < 0 {
            Near { i: self.i + 1 }
        } else if self.i > 0 {
            Near { i: self.i - 1 }
        } else {
            *self
        }
    }
}

/// Counts the calls it gets.
#[derive(Debug, Default)]
struct Counter {
    before: usize,
    after: usize,
    last_len: usize,
}

impl StatsCollector<MyFitness> for Counter {
    fn before_step(&mut self, pop_fitness: &[MyFitness]) {
        self.before += 1;
        self.last_len = pop_fitness.len();
    }

    fn after_step(&mut self, pop_fitness: &[MyFitness]) {
        self.after += 1;
        self.last_len = pop_fitness.len();
    }
}

#[test]
fn test_early_stopper_reset() {
    let mut stopper = EarlyStopper::new(MyFitness::new(10), 5);
    for _ in 0..4 {
        stopper.update(MyFitness::new(1));
    }
    assert_eq!(stopper.reached(), false);
    stopper.update(MyFitness::new(20));
    assert_eq!(stopper.reached(), false);
}

#[test]
fn test_early_stopper_reached() {
    let mut stopper = EarlyStopper::new(MyFitness::new(10), 5);
    for _ in 0..5 {
        stopper.update(MyFitness::new(1));
    }
    assert!(stopper.reached());
}

#[test]
fn early_stopper_counts_again_after_a_jump() {
    let mut stopper = EarlyStopper::new(MyFitness::new(10), 2);
    stopper.update(MyFitness::new(5));
    // 5 to 20 is a change of 15: the count starts again and 5 stays recorded.
    stopper.update(MyFitness::new(20));
    assert!(!stopper.reached());
    stopper.update(MyFitness::new(9));
    assert!(!stopper.reached());
    stopper.update(MyFitness::new(18));
    assert!(stopper.reached());
}

#[test]
fn early_stopper_change_equal_to_delta_is_a_jump() {
    let mut stopper = EarlyStopper::new(10i64, 1);
    stopper.update(10);
    assert!(!stopper.reached());
    stopper.update(9);
    assert!(stopper.reached());
}

#[test]
fn test_iter_limit_reset() {
    let mut limit = IterLimit::new(5);
    for _ in 0..4 {
        limit.inc();
    }
    assert_eq!(limit.reached(), false);
    limit.reset();
    assert_eq!(limit.reached(), false);
}

#[test]
fn test_iter_limit_reached() {
    let mut limit = IterLimit::new(5);
    for _ in 0..5 {
        limit.inc();
    }
    assert!(limit.reached());
    for _ in 0..10 {
        limit.inc();
    }
    assert!(limit.reached());
    assert_eq!(limit.get(), 15);
}

#[test]
fn iter_limit_zero_is_reached_at_once() {
    let mut limit = IterLimit::new(0);
    assert!(limit.reached());
    limit.reset();
    assert!(limit.reached());
    assert_eq!(limit.get(), 0);
}

#[test]
fn test_kill_off_count() {
    let selector = MaximizeSelector::new(2);
    let population: Vec<Test> = (0..100).map(|i| Test { f: i }).collect();
    let mut s: Simulator<Test, MyFitness, NoStats, _> = Simulator::builder(population)
        .set_selector(selector)
        .build();
    s.kill_off(10);
    assert_eq!(s.population().len(), 90);
}

#[test]
fn test_stats_collector() {
    let selector = MaximizeSelector::new(2);
    let population: Vec<Test> = (0..100).map(|i| Test { f: i }).collect();
    let mut s: Simulator<_, _, NoStats, _> = Simulator::builder(population)
        .set_selector(selector)
        .build();
    s.kill_off(10);
    assert_eq!(s.population().len(), 90);
}

#[test]
fn test_() {
    let selector = MaximizeSelector::new(2);
    let population: Vec<Test> = (0..100).map(|i| Test { f: i }).collect();
    let mut s: Simulator<_, _, NoStats, _> = Simulator::builder(population)
        .set_selector(selector)
        .build();
    s.kill_off(10);
    assert_eq!(s.population().len(), 90);
}

#[test]
fn test_max_iters() {
    let selector = MaximizeSelector::new(2);
    let population: Vec<Test> = (0..100).map(|i| Test { f: i }).collect();
    let mut s: Simulator<_, _, NoStats, _> = Simulator::builder(population)
        .set_selector(selector)
        .set_max_iters(2)
        .build();
    s.run();
    assert!(s.iterations() <= 2);
}

#[test]
fn test_early_stopping() {
    let selector = MaximizeSelector::new(2);
    let population: Vec<Test> = (0..100).map(|_| Test { f: 0 }).collect();
    let mut s: Simulator<_, _, NoStats, _> = Simulator::builder(population)
        .set_selector(selector)
        .set_early_stop(MyFitness { f: 10 }, 5)
        .set_max_iters(10)
        .build();
    s.run();
    assert!(s.iterations() <= 5);
}

#[test]
fn test_selector_error_propagate() {
    let selector = MaximizeSelector::new(0);
    let population: Vec<Test> = (0..100).map(|i| Test { f: i }).collect();
    let mut s: Simulator<_, _, NoStats, _> = Simulator::builder(population)
        .set_selector(selector)
        .build();
    s.run();
    assert!(s.get().is_err());
}

#[test]
fn test_population_get() {
    let selector = MaximizeSelector::new(0);
    let population: Vec<Test> = (0..100).map(|i| Test { f: i }).collect();
    let population_len = population.len();
    let s: Simulator<_, _, NoStats, _> = Simulator::builder(population)
        .set_selector(selector)
        .build();
    let gotten_population = s.population();
    assert!(gotten_population.len() == population_len);
}

#[test]
fn simple_convergence_test_maximize() {
    let tests: Vec<Near> = (0..100).map(|i| Near { i: i + 10 }).collect();
    let mut s: Simulator<_, _, NoStats, _> = Simulator::builder(tests)
        .set_selector(MaximizeSelector::new(10))
        .set_max_iters(1000)
        .build();
    s.run();
    assert_eq!(s.get().unwrap().i, 0);
}

#[test]
fn simple_convergence_test_tournament() {
    let tests: Vec<Near> = (0..100).map(|i| Near { i: i + 10 }).collect();
    let mut s: Simulator<_, _, NoStats, _> = Simulator::builder(tests)
        .set_selector(TournamentSelector::new(10, 3))
        .set_max_iters(1000)
        .build();
    s.run();
    assert_eq!(s.get().unwrap().i, 0);
}

#[test]
fn simple_convergence_test_stochastic() {
    let tests: Vec<Near> = (0..100).map(|i| Near { i: i + 10 }).collect();
    let mut s: Simulator<_, _, NoStats, _> = Simulator::builder(tests)
        .set_selector(StochasticSelector::new(10))
        .set_max_iters(1000)
        .build();
    s.run();
    assert_eq!(s.get().unwrap().i, 0);
}

#[test]
fn empty_population_fails_at_first_step() {
    let mut s: Simulator<Test, MyFitness, NoStats, _> = Simulator::builder(Vec::new()).build();
    assert!(s.get().is_err());
    assert_eq!(s.step(), StepResult::Failure);
    assert!(s.get().is_err());
}

#[test]
fn zero_count_selector_fails_the_run() {
    let population: Vec<Test> = (0..100).map(|i| Test { f: i }).collect();
    let mut s: Simulator<_, _, NoStats, _> = Simulator::builder(population)
        .set_selector(MaximizeSelector::new(0))
        .build();
    assert_eq!(s.run(), RunResult::Failure);
    assert!(s.get().is_err());
    assert_eq!(s.iterations(), 0);
}

#[test]
fn steps_keep_the_population_size() {
    let population: Vec<Test> = (0..100).map(|i| Test { f: i }).collect();
    let mut s: Simulator<_, _, NoStats, _> = Simulator::builder(population)
        .set_selector(StochasticSelector::new(20))
        .set_max_iters(3)
        .build();
    for _ in 0..3 {
        assert_eq!(s.checked_step(), StepResult::Success);
        assert_eq!(s.population().len(), 100);
    }
    assert_eq!(s.step(), StepResult::Done);
    assert_eq!(s.iterations(), 3);
    assert_eq!(s.run(), RunResult::Done);
    assert_eq!(s.time(), None);
}

#[test]
fn get_returns_the_fittest() {
    let population: Vec<Test> = vec![3, -8, 1, 7].into_iter().map(|f| Test { f }).collect();
    let s: Simulator<_, _, NoStats, _> = Simulator::builder(population).build();
    assert_eq!(s.get().unwrap().f, -8);
}

#[test]
fn kill_off_keeps_members_only() {
    let population: Vec<Test> = (0..20).map(|i| Test { f: i }).collect();
    let mut s: Simulator<_, _, NoStats, _> = Simulator::builder(population).build();
    s.kill_off(19);
    let left = s.population();
    assert_eq!(left.len(), 1);
    assert!(left[0].f >= 0 && left[0].f < 20);
}

#[test]
fn stats_collector_sees_each_step() {
    let population: Vec<Test> = (0..100).map(|i| Test { f: i }).collect();
    let mut s: Simulator<_, _, Counter, _> = Simulator::builder(population)
        .set_selector(MaximizeSelector::new(10))
        .set_stats_collector(Some(Counter::default()))
        .set_max_iters(4)
        .build();
    assert_eq!(s.run(), RunResult::Done);
    assert_eq!(s.iterations(), 4);
    let seen = s.stats().unwrap();
    // Four successful steps, and the step that found the limit reached.
    assert_eq!(seen.before, 5);
    assert_eq!(seen.after, 4);
    assert_eq!(seen.last_len, 100);
}

#[test]
fn no_stats_collector_by_default() {
    let population: Vec<Test> = (0..10).map(|i| Test { f: i }).collect();
    let s: Simulator<_, _, Counter, _> = Simulator::builder(population).build();
    assert!(s.stats().is_none());
}

#[test]
fn breed_makes_one_child_per_pair() {
    let a = Test { f: 5 };
    let b = Test { f: -3 };
    let c = Test { f: 0 };
    let parents = vec![(&a, &b), (&a, &c), (&c, &a)];
    let kids = breed::<MyFitness, Test>(&parents);
    let values: Vec<i64> = kids.iter().map(|k| k.f).collect();
    assert_eq!(values, vec![-2, 0, 0]);
}

#[test]
fn replace_with_children_keeps_the_size() {
    let population: Vec<Test> = (0..10).map(|i| Test { f: i }).collect();
    let mut s: Simulator<_, _, NoStats, _> = Simulator::builder(population).build();
    s.replace_with_children(vec![Test { f: 100 }, Test { f: 101 }, Test { f: 102 }]);
    let now = s.population();
    assert_eq!(now.len(), 10);
    assert_eq!(now[7].f, 100);
    assert_eq!(now[8].f, 101);
    assert_eq!(now[9].f, 102);
    assert!(now[..7].iter().all(|t| t.f >= 0 && t.f < 10));
}

#[test]
fn run_with_zero_count_keeps_the_population() {
    let population: Vec<Test> = (0..100).map(|i| Test { f: i }).collect();
    let mut s: Simulator<_, _, NoStats, _> = Simulator::builder(population)
        .set_selector(MaximizeSelector::new(0))
        .build();
    assert_eq!(s.run(), RunResult::Failure);
    let after: Vec<i64> = s.population().iter().map(|t| t.f).collect();
    assert_eq!(after, (0..100).collect::<Vec<i64>>());
    assert_eq!(s.iterations(), 0);
}

#[test]
fn run_ends_at_the_iteration_limit() {
    let population: Vec<Test> = (0..100).map(|i| Test { f: i }).collect();
    let mut s: Simulator<_, _, NoStats, _> = Simulator::builder(population)
        .set_selector(TournamentSelector::new(10, 4))
        .set_max_iters(7)
        .build();
    assert_eq!(s.run(), RunResult::Done);
    assert_eq!(s.iterations(), 7);
    assert_eq!(s.population().len(), 100);
}

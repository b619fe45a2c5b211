use rand::SeedableRng;
use rsgenetic::pheno::{Fitness, Phenotype};
use rsgenetic::sim::select::roulette::roulette_pick;
use rsgenetic::sim::select::stochastic::sampling_positions;
use rsgenetic::sim::select::{
    selector_maximize, top_ranked, MaximizeSelector, RouletteSelector, Selector,
    StochasticSelector, TournamentSelector, UnstableMaximizeSelector,
};
use std::cmp;

#[derive(Clone, Copy, Debug, PartialOrd, Ord, PartialEq, Eq)]
struct MyFitness {
    f: i64,
}

impl Fitness for MyFitness {
    fn zero() -> Self {
        MyFitness { f: 0 }
    }

    fn abs_diff(&self, other: &Self) -> Self {
        MyFitness {
            f: (self.f - other.f).abs(),
        }
    }

    fn score(&self) -> i128 {
        self.f as i128
    }
}

#[derive(Clone, Copy, Debug)]
struct Test {
    f: i64,
}

impl Phenotype<MyFitness> for Test {
    fn fitness(&self) -> MyFitness {
        MyFitness { f: self.f.abs() }
    }

    fn crossover(&self, t: &Test) -> Test {
        Test {
            f: cmp::min(self.f, t.f),
        }
    }

    fn mutate(&self) -> Test {
        if self.f < 0 {
            Test { f: self.f + 1 }
        } else if self.f > 0 {
            Test { f: self.f - 1 }
        } else {
            *self
        }
    }
}

fn hundred() -> Vec<Test> {
    (0..100).map(|i| Test { f: i }).collect()
}

#[test]
fn max_test_count_zero() {
    let selector = MaximizeSelector::new(0);
    let population: Vec<Test> = (0..100).map(|i| Test { f: i }).collect();
    assert!(selector.select(&population).is_err());
}

#[test]
fn max_test_count_odd() {
    let selector = MaximizeSelector::new(5);
    let population: Vec<Test> = (0..100).map(|i| Test { f: i }).collect();
    assert!(selector.select(&population).is_err());
}

#[test]
fn max_test_count_too_large() {
    let selector = MaximizeSelector::new(100);
    let population: Vec<Test> = (0..100).map(|i| Test { f: i }).collect();
    assert!(selector.select(&population).is_err());
}

#[test]
fn max_test_result_size() {
    let selector = MaximizeSelector::new(20);
    let population: Vec<Test> = (0..100).map(|i| Test { f: i }).collect();
    assert_eq!(20, selector.select(&population).unwrap().len() * 2);
}

#[test]
fn max_test_result_ok() {
    let selector = MaximizeSelector::new(20);
    let population: Vec<Test> = (0..100).map(|i| Test { f: i }).collect();
    // The greatest fitness should be 99.
    assert_eq!(selector.select(&population).unwrap()[0].0.fitness().f, 99);
}

#[test]
fn max_test_contains_best() {
    let selector = MaximizeSelector::new(2);
    let population: Vec<Test> = (0..100).map(|i| Test { f: i }).collect();
    let parents = selector.select(&population).unwrap()[0];
    assert_eq!(
        parents.0.fitness(),
        population
            .iter()
            .max_by_key(|x| x.fitness())
            .unwrap()
            .fitness()
    );
}

#[test]
fn max_unstable_test_count_zero() {
    let selector = UnstableMaximizeSelector::new(0);
    let population: Vec<Test> = (0..100).map(|i| Test { f: i }).collect();
    assert!(selector.select(&population).is_err());
}

#[test]
fn max_unstable_test_count_odd() {
    let selector = UnstableMaximizeSelector::new(5);
    let population: Vec<Test> = (0..100).map(|i| Test { f: i }).collect();
    assert!(selector.select(&population).is_err());
}

#[test]
fn max_unstable_test_count_too_large() {
    let selector = UnstableMaximizeSelector::new(100);
    let population: Vec<Test> = (0..100).map(|i| Test { f: i }).collect();
    assert!(selector.select(&population).is_err());
}

#[test]
fn max_unstable_test_result_size() {
    let selector = UnstableMaximizeSelector::new(20);
    let population: Vec<Test> = (0..100).map(|i| Test { f: i }).collect();
    assert_eq!(20, selector.select(&population).unwrap().len() * 2);
}

#[test]
fn max_unstable_test_result_ok() {
    let selector = UnstableMaximizeSelector::new(20);
    let population: Vec<Test> = (0..100).map(|i| Test { f: i }).collect();
    // The greatest fitness should be 99.
    assert!(selector.select(&population).unwrap()[0].0.fitness().f == 99);
}

#[test]
fn max_unstable_test_contains_best() {
    let selector = UnstableMaximizeSelector::new(2);
    let population: Vec<Test> = (0..100).map(|i| Test { f: i }).collect();
    let parents = selector.select(&population).unwrap()[0];
    assert!(
        parents.0.fitness()
            == population
                .iter()
                .max_by_key(|x| x.fitness())
                .unwrap()
                .fitness()
    );
}

#[test]
fn roulette_test_count_zero() {
    let selector = RouletteSelector::new(0);
    let population: Vec<Test> = (0..100).map(|i| Test { f: i }).collect();
    assert!(selector.select(&population).is_err());
}

#[test]
fn roulette_test_count_odd() {
    let selector = RouletteSelector::new(5);
    let population: Vec<Test> = (0..100).map(|i| Test { f: i }).collect();
    assert!(selector.select(&population).is_err());
}

#[test]
fn roulette_test_count_too_large() {
    let selector = RouletteSelector::new(100);
    let population: Vec<Test> = (0..100).map(|i| Test { f: i }).collect();
    assert!(selector.select(&population).is_err());
}

#[test]
fn roulette_test_result_size() {
    let selector = RouletteSelector::new(20);
    let population: Vec<Test> = (0..100).map(|i| Test { f: i }).collect();
    assert_eq!(20, selector.select(&population).unwrap().len() * 2);
}

#[test]
fn stochastic_test_count_zero() {
    let selector = StochasticSelector::new(0);
    let population: Vec<Test> = (0..100).map(|i| Test { f: i }).collect();
    assert!(selector.select(&population).is_err());
}

#[test]
fn stochastic_test_count_odd() {
    let selector = StochasticSelector::new(5);
    let population: Vec<Test> = (0..100).map(|i| Test { f: i }).collect();
    assert!(selector.select(&population).is_err());
}

#[test]
fn stochastic_test_count_too_large() {
    let selector = StochasticSelector::new(100);
    let population: Vec<Test> = (0..100).map(|i| Test { f: i }).collect();
    assert!(selector.select(&population).is_err());
}

#[test]
fn stochastic_test_result_size() {
    let selector = StochasticSelector::new(20);
    let population: Vec<Test> = (0..100).map(|i| Test { f: i }).collect();
    assert_eq!(20, selector.select(&population).unwrap().len() * 2);
}

#[test]
fn tournament_test_count_zero() {
    let selector = TournamentSelector::new(0, 1);
    let population: Vec<Test> = (0..100).map(|i| Test { f: i }).collect();
    assert!(selector.select(&population).is_err());
}

#[test]
fn test_participants_zero() {
    let selector = TournamentSelector::new(2, 0);
    let population: Vec<Test> = (0..100).map(|i| Test { f: i }).collect();
    assert!(selector.select(&population).is_err());
}

#[test]
fn tournament_test_count_odd() {
    let selector = TournamentSelector::new(5, 1);
    let population: Vec<Test> = (0..100).map(|i| Test { f: i }).collect();
    assert!(selector.select(&population).is_err());
}

#[test]
fn tournament_test_count_too_large() {
    let selector = TournamentSelector::new(100, 1);
    let population: Vec<Test> = (0..100).map(|i| Test { f: i }).collect();
    assert!(selector.select(&population).is_err());
}

#[test]
fn test_participants_too_large() {
    let selector = TournamentSelector::new(2, 100);
    let population: Vec<Test> = (0..100).map(|i| Test { f: i }).collect();
    assert!(selector.select(&population).is_err());
}

#[test]
fn tournament_test_result_size() {
    let selector = TournamentSelector::new(20, 5);
    let population: Vec<Test> = (0..100).map(|i| Test { f: i }).collect();
    assert_eq!(20, selector.select(&population).unwrap().len() * 2);
}

#[test]
fn test_new_checked_count_0() {
    let selector = TournamentSelector::new_checked(0, 2);
    assert!(selector.is_err());
}

#[test]
fn test_new_checked_count_odd() {
    let selector = TournamentSelector::new_checked(3, 2);
    assert!(selector.is_err());
}

#[test]
fn test_new_checked_participants() {
    let selector = TournamentSelector::new_checked(2, 1);
    assert!(selector.is_err());
}

#[test]
fn test_new_checked_ok() {
    let selector = TournamentSelector::new_checked(2, 2);
    assert!(selector.is_ok());
}

#[test]
fn tournament_one_participant_is_rejected() {
    let selector = TournamentSelector::new(2, 1);
    assert!(selector.select(&hundred()).is_err());
}

#[test]
fn tournament_pairs_are_members_best_first() {
    let population = hundred();
    let selector = TournamentSelector::new(20, 5);
    for (a, b) in selector.select(&population).unwrap() {
        assert!(a.f >= 0 && a.f < 100 && b.f >= 0 && b.f < 100);
        assert!(a.fitness() >= b.fitness());
    }
}

#[test]
fn stochastic_pairs_are_members() {
    let population = hundred();
    let selector = StochasticSelector::new(20);
    let parents = selector.select(&population).unwrap();
    // Population of 100, 20 parents: each pair spans a jump of 100 / 20 - 1 = 4.
    for (a, b) in parents.iter() {
        assert_eq!((a.f + 4) % 100, b.f);
    }
    for k in 1..parents.len() {
        assert_eq!(parents[k - 1].1.f, parents[k].0.f);
    }
}

#[test]
fn stochastic_positions_exact() {
    assert_eq!(
        sampling_positions(10, 4, 7),
        vec![7, 8, 8, 9]
    );
    assert_eq!(
        sampling_positions(100, 20, 98),
        vec![98, 2, 2, 6, 6, 10, 10, 14, 14, 18, 18, 22, 22, 26, 26, 30, 30, 34, 34, 38]
    );
    // A jump of zero: len / count == 1.
    assert_eq!(sampling_positions(5, 4, 3), vec![3, 3, 3, 3]);
}

#[test]
fn roulette_selects_least_fit() {
    let population: Vec<Test> = (0..100).map(|i| Test { f: 50 - i }).collect();
    let selector = RouletteSelector::new(20);
    for (a, b) in selector.select(&population).unwrap() {
        assert_eq!(a.f, 0);
        assert_eq!(b.f, 0);
    }
}

#[test]
fn roulette_pick_first_at_most_draw() {
    assert_eq!(roulette_pick(&vec![3, 5, 9], 4), Some(0));
    assert_eq!(roulette_pick(&vec![3, 5, 9], 2), None);
    assert_eq!(roulette_pick(&vec![7, 5, 9], 6), Some(1));
    assert_eq!(roulette_pick(&vec![], 6), None);
}

#[test]
fn top_ranked_is_stable() {
    assert_eq!(top_ranked(&vec![5, 9, 5, 9, 1], 5), vec![1, 3, 0, 2, 4]);
    assert_eq!(top_ranked(&vec![5, 9, 5, 9, 1], 3), vec![1, 3, 0]);
    assert_eq!(top_ranked(&vec![5, 9], 0), Vec::<usize>::new());
}

#[test]
fn maximize_pairs_in_rank_order() {
    let population: Vec<Test> = vec![3, -8, 1, 8, 0, 5, 2, 7, -7, 4]
        .into_iter()
        .map(|f| Test { f })
        .collect();
    let parents = MaximizeSelector::new(4).select(&population).unwrap();
    assert_eq!(parents.len(), 2);
    assert_eq!((parents[0].0.f, parents[0].1.f), (-8, 8));
    assert_eq!((parents[1].0.f, parents[1].1.f), (7, -7));
}

#[test]
fn unstable_maximize_finds_the_best_of_a_shuffled_population() {
    let population: Vec<Test> = vec![3, 90, 1, 8, 0, 50, 2, 7, 60, 4, 11, 12]
        .into_iter()
        .map(|f| Test { f })
        .collect();
    let parents = UnstableMaximizeSelector::new(4).select(&population).unwrap();
    assert_eq!((parents[0].0.f, parents[0].1.f), (90, 60));
    assert_eq!((parents[1].0.f, parents[1].1.f), (50, 12));
}

#[test]
fn maximize_half_population_is_rejected() {
    // count * 2 must stay below the population size.
    let population: Vec<Test> = (0..8).map(|i| Test { f: i }).collect();
    assert!(MaximizeSelector::new(4).select(&population).is_err());
    assert!(MaximizeSelector::new(2).select(&population).is_ok());
}

#[test]
fn selector_maximize_builds_selector() {
    let population = hundred();
    let parents = selector_maximize(2).select(&population).unwrap();
    assert_eq!(parents[0].0.f, 99);
    assert_eq!(parents[0].1.f, 98);
}

#[test]
fn seeded_generator_repeats_the_selection() {
    let population = hundred();
    let selector = StochasticSelector::new(20);
    let mut first = rand::rngs::StdRng::seed_from_u64(7);
    let mut second = rand::rngs::StdRng::seed_from_u64(7);
    let a: Vec<(i64, i64)> = selector
        .select_with(&population, &mut first)
        .unwrap()
        .iter()
        .map(|(x, y)| (x.f, y.f))
        .collect();
    let b: Vec<(i64, i64)> = selector
        .select_with(&population, &mut second)
        .unwrap()
        .iter()
        .map(|(x, y)| (x.f, y.f))
        .collect();
    assert_eq!(a, b);
    assert_eq!(a.len(), 10);
}

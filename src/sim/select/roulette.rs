//! Fitness-proportionate selection.
use vstd::prelude::*;
use crate::pheno::{Fitness, Phenotype};
use crate::random::draw_between;
use crate::sim::select::{as_ints, fitness_scores, pair_up, ranks, Parents, Selector};
use crate::sort::{keys_ascending, keys_of, lemma_sorted_keys, sort_keys};

verus! {

/// Whether `count` parents can be drawn from `len` phenotypes: it is larger
/// than zero, a multiple of two and less than `len`.
pub open spec fn roulette_count_ok(count: int, len: int) -> bool {
    count > 0 && count % 2 == 0 && count < len
}

/// `x` held within the bounds of `i128`.
pub open spec fn clamped(x: int) -> int {
    if x > i128::MAX {
        i128::MAX as int
    } else if x < i128::MIN {
        i128::MIN as int
    } else {
        x
    }
}

/// The sum of two scores, held within the bounds of `i128`.
fn clamped_add(a: i128, b: i128) -> (r: i128)
    ensures
        r == clamped(a + b),
{
    if b > 0 && a > i128::MAX - b {
        i128::MAX
    } else if b < 0 && a < i128::MIN - b {
        i128::MIN
    } else {
        a + b
    }
}

/// The first position whose cumulative fitness is at most `draw`, if any.
pub fn roulette_pick(cumulative: &Vec<i128>, draw: i128) -> (r: Option<usize>)
    ensures
        r is Some <==> exists|k: int| 0 <= k < cumulative@.len() && #[trigger] cumulative@[k] <= draw,
        r is Some ==> {
            &&& r->0 < cumulative@.len()
            &&& cumulative@[r->0 as int] <= draw
            &&& forall|k: int| 0 <= k < r->0 ==> #[trigger] cumulative@[k] > draw
        },
{
    let mut k: usize = 0;
    while k < cumulative.len()
        invariant
            k <= cumulative@.len(),
            forall|j: int| 0 <= j < k ==> #[trigger] cumulative@[j] > draw,
        decreases cumulative@.len() - k,
    {
        if cumulative[k] <= draw {
            return Some(k);
        }
        k = k + 1;
    }
    None
}

/// Selects phenotypes with a probability based on their fitness value.
///
/// Commonly known as *Roulette Wheel Selection*. The population is ordered by
/// ascending fitness and its cumulative fitness computed (held within the
/// bounds of `i128`); each draw is a value between the first and the last
/// cumulative fitness, and selects the first phenotype whose cumulative
/// fitness is at most the draw. Fitness values should not be negative.
#[derive(Clone, Copy, Debug)]
pub struct RouletteSelector {
    count: usize,
}

impl RouletteSelector {
    /// The number of parents selected.
    pub closed spec fn count(&self) -> usize {
        self.count
    }

    /// Create and return a roulette selector.
    ///
    /// This selector yields `count` parents.
    ///
    /// * `count`: must be larger than zero, a multiple of two and less than the
    ///   population size.
    pub fn new(count: usize) -> (r: RouletteSelector)
        ensures
            r.count() == count,
    {
        RouletteSelector { count }
    }
}

impl<T: Phenotype<F>, F: Fitness> Selector<T, F> for RouletteSelector {
    open spec fn accepts(&self, len: nat) -> bool {
        roulette_count_ok(self.count() as int, len as int)
    }

    open spec fn pair_count(&self, len: nat) -> nat {
        (self.count() / 2) as nat
    }

    /// Every draw falls at or above the first cumulative fitness, so each
    /// parent selected is a least fit phenotype.
    fn select_with<'a>(&self, population: &'a [T], rng: &mut rand::rngs::StdRng) -> (r: Result<
        Parents<&'a T>,
        String,
    >)
        ensures
            r is Ok <==> roulette_count_ok(self.count() as int, population@.len() as int),
            r is Ok ==> r->Ok_0@.len() * 2 == self.count(),
            r is Ok ==> forall|k: int, j: int|
                0 <= k < r->Ok_0@.len() && 0 <= j < population@.len() ==> {
                    &&& (*(#[trigger] r->Ok_0@[k]).0).fitness_rank() <= (
                    #[trigger] population@[j]).fitness_rank()
                    &&& (*r->Ok_0@[k].1).fitness_rank() <= population@[j].fitness_rank()
                },
    {
        let len = population.len();
        if self.count == 0 || self.count % 2 != 0 || self.count >= len {
            return Err(
                "Invalid parameter `count`: should be larger than zero, a multiple of two and less than the population size.".to_owned(),
            );
        }
        let scores = fitness_scores::<F, T>(population);
        let ghost s = ranks::<F, T>(population@);
        let mut keys = keys_of(&scores);
        sort_keys(&mut keys);
        proof {
            lemma_sorted_keys(scores@, keys@);
        }
        let mut cumulative: Vec<i128> = Vec::new();
        let mut total: i128 = 0;
        let mut i: usize = 0;
        while i < len
            invariant
                len == keys@.len(),
                i <= len,
                cumulative@.len() == i,
            decreases len - i,
        {
            total = clamped_add(total, keys[i].0);
            cumulative.push(total);
            i = i + 1;
        }
        let low = cumulative[0];
        let high = cumulative[len - 1];
        // The least fit phenotype: first in the ascending order.
        let least = keys[0].1;
        proof {
            assert forall|j: int| 0 <= j < len implies s[least as int] <= s[j] by {
                assert(keys@.contains((scores@[j], j as usize)));
                let p = choose|p: int| 0 <= p < keys@.len() && keys@[p] == (scores@[j], j as usize);
                if p > 0 {
                    assert(keys_ascending(keys@));
                    assert(keys@[0].0 <= keys@[p].0);
                }
                assert(as_ints(scores@)[j] == s[j]);
                assert(as_ints(scores@)[least as int] == s[least as int]);
            }
        }
        let mut chosen: Vec<usize> = Vec::new();
        while chosen.len() < self.count
            invariant
                len == population@.len(),
                len == keys@.len(),
                cumulative@.len() == len,
                low == cumulative@[0],
                least < len,
                least == keys@[0].1,
                chosen@.len() <= self.count,
                forall|a: int| 0 <= a < chosen@.len() ==> #[trigger] chosen@[a] == least,
            decreases self.count - chosen@.len(),
        {
            let draw = if low < high {
                draw_between(rng, low, high)
            } else {
                low
            };
            match roulette_pick(&cumulative, draw) {
                Some(k) => {
                    assert(k == 0);
                    chosen.push(keys[k].1);
                },
                None => {
                    assert(cumulative@[0] <= draw);
                    return Err("Could not complete roulette selection.".to_owned());
                },
            }
        }
        let r = pair_up(population, &chosen);
        proof {
            assert forall|k: int, j: int|
                0 <= k < r@.len() && 0 <= j < population@.len() implies {
                &&& (*(#[trigger] r@[k]).0).fitness_rank() <= (
                #[trigger] population@[j]).fitness_rank()
                &&& (*r@[k].1).fitness_rank() <= population@[j].fitness_rank()
            } by {
                assert(chosen@[2 * k] == least);
                assert(chosen@[2 * k + 1] == least);
                assert(s[least as int] <= s[j]);
            }
        }
        Ok(r)
    }
}

} // verus!

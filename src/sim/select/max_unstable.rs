//! Selection of the best performing phenotypes by a parallel sort.
use vstd::prelude::*;
use crate::pheno::{Fitness, Phenotype};
use crate::sim::select::{as_ints, fitness_scores, pair_up, paired_in_order, ranks, Parents, Selector};
use crate::sim::select::max::maximize_count_ok;
use crate::sort::{keys_ascending, keys_of, lemma_sorted_keys, par_sort_keys};

verus! {

/// `idx` lists positions of `s` from the fittest down, and no position left
/// out is fitter than any listed one.
pub open spec fn is_best_ranked(s: Seq<int>, idx: Seq<usize>) -> bool {
    &&& forall|a: int| 0 <= a < idx.len() ==> #[trigger] idx[a] < s.len()
    &&& forall|a: int, b: int|
        0 <= a < b < idx.len() ==> s[#[trigger] idx[a] as int] >= s[#[trigger] idx[b] as int]
    &&& forall|a: int, j: int|
        0 <= a < idx.len() && 0 <= j < s.len() && !idx.contains(j as usize) ==> s[#[trigger] idx[a] as int]
            >= #[trigger] s[j]
}

/// Selects the best performing phenotypes from the population, sorting it in
/// parallel; equally fit phenotypes may come in any order.
#[derive(Clone, Copy, Debug)]
pub struct UnstableMaximizeSelector {
    count: usize,
}

impl UnstableMaximizeSelector {
    /// The number of parents selected.
    pub closed spec fn count(&self) -> usize {
        self.count
    }

    /// Create and return a maximizing selector with unstable parallel sorting.
    ///
    /// Such a selector selects only the `count` best performing phenotypes
    /// as parents.
    ///
    /// * `count`: must be larger than zero, a multiple of two and less than half
    ///   the population size.
    pub fn new(count: usize) -> (r: UnstableMaximizeSelector)
        ensures
            r.count() == count,
    {
        UnstableMaximizeSelector { count }
    }
}

impl<T: Phenotype<F>, F: Fitness> Selector<T, F> for UnstableMaximizeSelector {
    open spec fn accepts(&self, len: nat) -> bool {
        maximize_count_ok(self.count() as int, len as int)
    }

    open spec fn pair_count(&self, len: nat) -> nat {
        (self.count() / 2) as nat
    }

    /// The `count` best phenotypes, best first, paired two by two.
    fn select_with<'a>(&self, population: &'a [T], rng: &mut rand::rngs::StdRng) -> (r: Result<
        Parents<&'a T>,
        String,
    >)
        ensures
            r is Ok <==> maximize_count_ok(self.count() as int, population@.len() as int),
            r is Ok ==> r->Ok_0@.len() * 2 == self.count(),
            r is Ok ==> exists|idx: Seq<usize>|
                {
                    &&& idx.len() == self.count()
                    &&& is_best_ranked(ranks::<F, T>(population@), idx)
                    &&& #[trigger] paired_in_order(r->Ok_0@, population@, idx)
                },
            r is Ok ==> forall|j: int|
                0 <= j < population@.len() ==> (*r->Ok_0@[0].0).fitness_rank()
                    >= #[trigger] population@[j].fitness_rank(),
    {
        let len = population.len();
        if self.count == 0 || self.count % 2 != 0 || self.count > len || self.count >= len
            - self.count {
            return Err(
                "Invalid parameter `count`: should be larger than zero, a multiple of two and less than half the population size.".to_owned(),
            );
        }
        let scores = fitness_scores::<F, T>(population);
        let ghost s = ranks::<F, T>(population@);
        let mut keys = keys_of(&scores);
        par_sort_keys(&mut keys);
        proof {
            lemma_sorted_keys(scores@, keys@);
        }
        let mut idx: Vec<usize> = Vec::new();
        while idx.len() < self.count
            invariant
                len == population@.len(),
                len == keys@.len(),
                self.count < len,
                idx@.len() <= self.count,
                forall|a: int| 0 <= a < idx@.len() ==> #[trigger] idx@[a] == keys@[len - 1 - a].1,
            decreases self.count - idx@.len(),
        {
            let a = idx.len();
            idx.push(keys[len - 1 - a].1);
        }
        proof {
            assert(keys_ascending(keys@));
            assert forall|p: int| 0 <= p < len implies (#[trigger] keys@[p]).0 as int == s[keys@[p].1 as int] by {
                assert(as_ints(scores@)[keys@[p].1 as int] == s[keys@[p].1 as int]);
            }
            assert forall|a: int| 0 <= a < idx@.len() implies #[trigger] idx@[a] < s.len() by {
                assert(keys@[len - 1 - a].1 < len);
            }
            assert forall|a: int, b: int| 0 <= a < b < idx@.len() implies s[#[trigger] idx@[a] as int]
                >= s[#[trigger] idx@[b] as int] by {
                assert(keys@[len - 1 - b].0 <= keys@[len - 1 - a].0);
                assert(keys@[len - 1 - a].0 as int == s[keys@[len - 1 - a].1 as int]);
                assert(keys@[len - 1 - b].0 as int == s[keys@[len - 1 - b].1 as int]);
            }
            assert forall|a: int, j: int|
                0 <= a < idx@.len() && 0 <= j < s.len() && !idx@.contains(j as usize) implies s[#[trigger] idx@[a] as int]
                >= #[trigger] s[j] by {
                assert(keys@.contains((scores@[j], j as usize)));
                let q = choose|q: int| 0 <= q < keys@.len() && keys@[q] == (scores@[j], j as usize);
                if q >= len - self.count {
                    assert(idx@[len - 1 - q] == j as usize);
                    assert(idx@.contains(j as usize));
                }
                let p = len - 1 - a;
                if q < p {
                    assert(keys@[q].0 <= keys@[p].0);
                }
                assert(keys@[p].0 as int == s[keys@[p].1 as int]);
                assert(as_ints(scores@)[j] == s[j]);
            }
            assert(is_best_ranked(s, idx@));
        }
        let r = pair_up(population, &idx);
        proof {
            assert forall|j: int| 0 <= j < population@.len() implies (*r@[0].0).fitness_rank()
                >= #[trigger] population@[j].fitness_rank() by {
                assert(*r@[0].0 == population@[idx@[0] as int]);
                assert(s[j] == population@[j].fitness_rank());
                assert(s[idx@[0] as int] == population@[idx@[0] as int].fitness_rank());
                if idx@.contains(j as usize) {
                    let a = choose|a: int| 0 <= a < idx@.len() && idx@[a] == j as usize;
                    if a > 0 {
                        assert(s[idx@[0] as int] >= s[idx@[a] as int]);
                    }
                } else {
                    assert(s[idx@[0] as int] >= s[j]);
                }
            }
        }
        let res: Result<Parents<&'a T>, String> = Ok(r);
        assert(paired_in_order(res->Ok_0@, population@, idx@));
        res
    }
}

} // verus!

//! Selection of the best performing phenotypes.
use vstd::prelude::*;
use crate::pheno::{Fitness, Phenotype};
use crate::sim::select::{
    fitness_scores, is_top_ranked, lemma_top_ranked_first_is_best, pair_up, paired_in_order,
    ranks, top_ranked, Parents, Selector,
};

verus! {

/// Whether `count` parents can be taken from the best of `len` phenotypes: it
/// is larger than zero, a multiple of two and less than half of `len`.
pub open spec fn maximize_count_ok(count: int, len: int) -> bool {
    count > 0 && count % 2 == 0 && count * 2 < len
}

/// Selects the best performing phenotypes from the population.
#[derive(Clone, Copy, Debug)]
pub struct MaximizeSelector {
    count: usize,
}

impl MaximizeSelector {
    /// The number of parents selected.
    pub closed spec fn count(&self) -> usize {
        self.count
    }

    /// Create and return a maximizing selector.
    ///
    /// Such a selector selects only the `count` best performing phenotypes
    /// as parents.
    ///
    /// * `count`: must be larger than zero, a multiple of two and less than half
    ///   the population size.
    pub fn new(count: usize) -> (r: MaximizeSelector)
        ensures
            r.count() == count,
    {
        MaximizeSelector { count }
    }
}

impl<T: Phenotype<F>, F: Fitness> Selector<T, F> for MaximizeSelector {
    open spec fn accepts(&self, len: nat) -> bool {
        maximize_count_ok(self.count() as int, len as int)
    }

    open spec fn pair_count(&self, len: nat) -> nat {
        (self.count() / 2) as nat
    }

    /// The `count` best phenotypes, best first, paired two by two; among equally
    /// fit phenotypes the earlier one in the population comes first.
    fn select_with<'a>(&self, population: &'a [T], rng: &mut rand::rngs::StdRng) -> (r: Result<
        Parents<&'a T>,
        String,
    >)
        ensures
            r is Ok <==> maximize_count_ok(self.count() as int, population@.len() as int),
            r is Ok ==> r->Ok_0@.len() * 2 == self.count(),
            r is Ok ==> exists|idx: Seq<usize>|
                {
                    &&& idx.len() == self.count()
                    &&& is_top_ranked(ranks::<F, T>(population@), idx)
                    &&& #[trigger] paired_in_order(r->Ok_0@, population@, idx)
                },
            r is Ok ==> forall|j: int|
                0 <= j < population@.len() ==> (*r->Ok_0@[0].0).fitness_rank()
                    >= #[trigger] population@[j].fitness_rank(),
    {
        let len = population.len();
        if self.count == 0 || self.count % 2 != 0 || self.count > len || self.count >= len
            - self.count {
            return Err(
                "Invalid parameter `count`: should be larger than zero, a multiple of two and less than half the population size.".to_owned(),
            );
        }
        let scores = fitness_scores::<F, T>(population);
        let idx = top_ranked(&scores, self.count);
        let r = pair_up(population, &idx);
        proof {
            let s = ranks::<F, T>(population@);
            lemma_top_ranked_first_is_best(s, idx@);
            assert(*r@[0].0 == population@[idx@[0] as int]);
            assert forall|j: int| 0 <= j < population@.len() implies (*r@[0].0).fitness_rank()
                >= #[trigger] population@[j].fitness_rank() by {
                assert(s[j] == population@[j].fitness_rank());
                assert(s[idx@[0] as int] == population@[idx@[0] as int].fitness_rank());
            }
        }
        let res: Result<Parents<&'a T>, String> = Ok(r);
        assert(paired_in_order(res->Ok_0@, population@, idx@));
        res
    }
}

} // verus!

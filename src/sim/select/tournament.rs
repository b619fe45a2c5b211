//! Tournament selection.
use vstd::prelude::*;
use crate::pheno::{Fitness, Phenotype};
use crate::random::draw_below;
use crate::sim::select::{
    as_ints, drawn_from, fitness_scores, is_top_ranked, precedes, ranks, top_ranked, Parents,
    Selector,
};

verus! {

/// Whether `count` parents can be chosen by tournaments of `participants`
/// among `len` phenotypes: `count` is larger than zero, a multiple of two and
/// less than half of `len`; `participants` is larger than one and less than
/// `len`.
pub open spec fn tournament_params_ok(count: int, participants: int, len: int) -> bool {
    &&& count > 0
    &&& count % 2 == 0
    &&& count * 2 < len
    &&& participants >= 2
    &&& participants < len
}

/// The ranks of the positions drawn for a tournament, in the order drawn.
pub open spec fn sample_ranks(s: Seq<int>, sample: Seq<usize>) -> Seq<int> {
    sample.map_values(|i: usize| s[i as int])
}

/// `pair` holds the two best, best first, of a tournament among the
/// phenotypes at the positions `sample` (ties going to the earlier draw).
pub open spec fn wins_tournament<T>(
    pair: (&T, &T),
    population: Seq<T>,
    s: Seq<int>,
    sample: Seq<usize>,
) -> bool {
    exists|w: Seq<usize>|
        {
            &&& w.len() == 2
            &&& #[trigger] is_top_ranked(sample_ranks(s, sample), w)
            &&& *pair.0 == population[sample[w[0] as int] as int]
            &&& *pair.1 == population[sample[w[1] as int] as int]
        }
}

/// `pair` is the outcome of a tournament among `participants` phenotypes
/// drawn from the population.
pub open spec fn is_tournament_pair<T>(
    pair: (&T, &T),
    population: Seq<T>,
    s: Seq<int>,
    participants: int,
) -> bool {
    exists|sample: Seq<usize>|
        {
            &&& sample.len() == participants
            &&& forall|a: int| 0 <= a < sample.len() ==> #[trigger] sample[a] < population.len()
            &&& #[trigger] wins_tournament(pair, population, s, sample)
        }
}

/// Runs several tournaments, and selects the best performing phenotypes from
/// each tournament.
#[derive(Copy, Clone, Debug)]
pub struct TournamentSelector {
    count: usize,
    participants: usize,
}

impl TournamentSelector {
    /// The number of parents selected.
    pub closed spec fn count(&self) -> usize {
        self.count
    }

    /// The number of phenotypes in each tournament.
    pub closed spec fn participants(&self) -> usize {
        self.participants
    }

    /// Create and return a tournament selector.
    ///
    /// Such a selector runs `count / 2` tournaments, each with `participants`
    /// participants. From each tournament, the best 2 phenotypes are selected,
    /// yielding `count` parents.
    ///
    /// * `count`: must be larger than zero, a multiple of two and less than half
    ///   the population size.
    /// * `participants`: must be larger than one and less than the population
    ///   size.
    ///
    /// The parameters are checked when selecting; `new_checked` checks what it
    /// can at once.
    pub fn new(count: usize, participants: usize) -> (r: TournamentSelector)
        ensures
            r.count() == count,
            r.participants() == participants,
    {
        TournamentSelector { count, participants }
    }

    /// Create and return a tournament selector, or an error where `count` is
    /// zero or odd, or `participants` is smaller than two.
    pub fn new_checked(count: usize, participants: usize) -> (r: Result<TournamentSelector, String>)
        ensures
            r is Ok <==> (count > 0 && count % 2 == 0 && participants >= 2),
            r is Ok ==> r->Ok_0.count() == count && r->Ok_0.participants() == participants,
    {
        if count == 0 || count % 2 != 0 || participants < 2 {
            Err(
                "count must be larger than zero and a multiple of two; participants must be larger than one".to_owned(),
            )
        } else {
            Ok(TournamentSelector { count, participants })
        }
    }
}

impl<T: Phenotype<F>, F: Fitness> Selector<T, F> for TournamentSelector {
    open spec fn accepts(&self, len: nat) -> bool {
        tournament_params_ok(self.count() as int, self.participants() as int, len as int)
    }

    open spec fn pair_count(&self, len: nat) -> nat {
        (self.count() / 2) as nat
    }

    /// `count / 2` tournaments, each among `participants` phenotypes drawn at
    /// random with replacement; each gives its two best as a pair.
    fn select_with<'a>(&self, population: &'a [T], rng: &mut rand::rngs::StdRng) -> (r: Result<
        Parents<&'a T>,
        String,
    >)
        ensures
            r is Ok <==> tournament_params_ok(
                self.count() as int,
                self.participants() as int,
                population@.len() as int,
            ),
            r is Ok ==> r->Ok_0@.len() * 2 == self.count(),
            r is Ok ==> forall|k: int|
                0 <= k < r->Ok_0@.len() ==> is_tournament_pair(
                    #[trigger] r->Ok_0@[k],
                    population@,
                    ranks::<F, T>(population@),
                    self.participants() as int,
                ),
            r is Ok ==> forall|k: int|
                0 <= k < r->Ok_0@.len() ==> (*(#[trigger] r->Ok_0@[k]).0).fitness_rank() >= (
                *r->Ok_0@[k].1).fitness_rank(),
    {
        let len = population.len();
        if self.count == 0 || self.count % 2 != 0 || self.count > len || self.count >= len
            - self.count {
            return Err(
                "Invalid parameter `count`: should be larger than zero, a multiple of two and less than half the population size.".to_owned(),
            );
        }
        if self.participants < 2 || self.participants >= len {
            return Err(
                "Invalid parameter `participants`: should be larger than one and less than the population size.".to_owned(),
            );
        }
        let scores = fitness_scores::<F, T>(population);
        let ghost s = ranks::<F, T>(population@);
        let half = self.count / 2;
        let mut result: Parents<&'a T> = Vec::new();
        let mut t: usize = 0;
        while t < half
            invariant
                len == population@.len(),
                scores@.len() == len,
                as_ints(scores@) == s,
                s == ranks::<F, T>(population@),
                2 <= self.participants < len,
                t <= half,
                result@.len() == t,
                drawn_from(result@, population@),
                forall|k: int|
                    0 <= k < t ==> is_tournament_pair(
                        #[trigger] result@[k],
                        population@,
                        s,
                        self.participants as int,
                    ),
                forall|k: int|
                    0 <= k < t ==> (*(#[trigger] result@[k]).0).fitness_rank() >= (
                    *result@[k].1).fitness_rank(),
            decreases half - t,
        {
            let mut sample: Vec<usize> = Vec::new();
            let mut sample_scores: Vec<i128> = Vec::new();
            let mut p: usize = 0;
            while p < self.participants
                invariant
                    len == population@.len(),
                    len > 0,
                    scores@.len() == len,
                    as_ints(scores@) == s,
                    p <= self.participants,
                    sample@.len() == p,
                    sample_scores@.len() == p,
                    forall|a: int| 0 <= a < p ==> #[trigger] sample@[a] < len,
                    forall|a: int| 0 <= a < p ==> #[trigger] sample_scores@[a] == scores@[sample@[a] as int],
                decreases self.participants - p,
            {
                let j = draw_below(rng, len);
                sample.push(j);
                sample_scores.push(scores[j]);
                p = p + 1;
            }
            let w = top_ranked(&sample_scores, 2);
            let a = sample[w[0]];
            let b = sample[w[1]];
            let pair = (&population[a], &population[b]);
            proof {
                assert(as_ints(sample_scores@) =~= sample_ranks(s, sample@)) by {
                    assert forall|q: int| 0 <= q < sample@.len() implies #[trigger] as_ints(
                        sample_scores@,
                    )[q] == sample_ranks(s, sample@)[q] by {
                        assert(s[sample@[q] as int] == scores@[sample@[q] as int] as int);
                    }
                }
                assert(is_top_ranked(sample_ranks(s, sample@), w@));
                assert(wins_tournament(pair, population@, s, sample@));
                assert(is_tournament_pair(pair, population@, s, self.participants as int));
                assert(precedes(sample_ranks(s, sample@), w@[0] as int, w@[1] as int));
                assert(s[a as int] == population@[a as int].fitness_rank());
                assert(s[b as int] == population@[b as int].fitness_rank());
            }
            let ghost old_result = result@;
            result.push(pair);
            proof {
                assert forall|k: int| 0 <= k < result@.len() implies population@.contains(
                    *(#[trigger] result@[k]).0,
                ) && population@.contains(*result@[k].1) by {
                    if k < t {
                        assert(result@[k] == old_result[k]);
                    } else {
                        assert(population@[a as int] == *result@[k].0);
                        assert(population@[b as int] == *result@[k].1);
                    }
                }
                assert forall|k: int| 0 <= k < t + 1 implies is_tournament_pair(
                    #[trigger] result@[k],
                    population@,
                    s,
                    self.participants as int,
                ) by {
                    if k < t {
                        assert(result@[k] == old_result[k]);
                    }
                }
            }
            t = t + 1;
        }
        Ok(result)
    }
}

} // verus!

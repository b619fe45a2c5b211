//! Selection of parents: the `Selector` trait and the algorithms that implement it.
//!
//! Each selector has a parameter `count`, the number of parents it selects.
use vstd::prelude::*;
use crate::pheno::{Fitness, Phenotype};
use crate::random::entropy_rng;

pub mod max;
pub mod max_unstable;
pub mod roulette;
pub mod stochastic;
pub mod tournament;

pub use self::max::MaximizeSelector;
pub use self::max_unstable::UnstableMaximizeSelector;
pub use self::roulette::RouletteSelector;
pub use self::stochastic::StochasticSelector;
pub use self::tournament::TournamentSelector;



verus! {

/// Parents come in pairs.
pub type Parents<T> = Vec<(T, T)>;

/// A `Selector` selects parents for a new iteration of a simulation.
///
/// Whether a selector accepts a population, and how many pairs it then
/// gives, depends on the population's size alone.
pub trait Selector<T: Phenotype<F>, F: Fitness> {
    /// Whether the selector's parameters are valid for a population of `len`.
    spec fn accepts(&self, len: nat) -> bool;

    /// The number of pairs selected from a population of `len` it accepts.
    spec fn pair_count(&self, len: nat) -> nat;

    /// Select pairs of parents from a `population` for breeding, drawing
    /// random numbers from `rng`.
    ///
    /// On invalid parameters the result is an error message. Otherwise every
    /// parent is a member of the population, and there are fewer pairs than
    /// individuals.
    fn select_with<'a>(&self, population: &'a [T], rng: &mut rand::rngs::StdRng) -> (r: Result<
        Parents<&'a T>,
        String,
    >)
        ensures
            r is Ok <==> self.accepts(population@.len()),
            r is Ok ==> r->Ok_0@.len() == self.pair_count(population@.len()),
            r is Ok ==> r->Ok_0@.len() < population@.len(),
            r is Ok ==> drawn_from(r->Ok_0@, population@),
    ;

    /// Select pairs of parents from a `population`, as `select_with` does,
    /// drawing from a generator seeded by the operating system.
    fn select<'a>(&self, population: &'a [T]) -> (r: Result<Parents<&'a T>, String>)
        ensures
            r is Ok <==> self.accepts(population@.len()),
            r is Ok ==> r->Ok_0@.len() == self.pair_count(population@.len()),
            r is Ok ==> r->Ok_0@.len() < population@.len(),
            r is Ok ==> drawn_from(r->Ok_0@, population@),
    {
        let mut rng = entropy_rng();
        self.select_with(population, &mut rng)
    }
}

/// Every parent of every pair is a member of the population.
pub open spec fn drawn_from<T>(parents: Seq<(&T, &T)>, population: Seq<T>) -> bool {
    forall|k: int|
        0 <= k < parents.len() ==> population.contains(*(#[trigger] parents[k]).0)
            && population.contains(*parents[k].1)
}

/// The fitness ranks of a population, in its order.
pub open spec fn ranks<F: Fitness, T: Phenotype<F>>(population: Seq<T>) -> Seq<int> {
    population.map_values(|t: T| t.fitness_rank())
}

/// Scores as mathematical integers.
pub open spec fn as_ints(scores: Seq<i128>) -> Seq<int> {
    scores.map_values(|x: i128| x as int)
}

/// In the order of descending rank that keeps ties in population order,
/// position `i` comes before position `j`.
pub open spec fn precedes(s: Seq<int>, i: int, j: int) -> bool {
    s[i] > s[j] || (s[i] == s[j] && i < j)
}

/// `idx` lists, best first, the leading positions of `s` in the order of
/// `precedes`: exactly the first `idx.len()` positions of a stable sort by
/// descending rank.
pub open spec fn is_top_ranked(s: Seq<int>, idx: Seq<usize>) -> bool {
    &&& forall|a: int| 0 <= a < idx.len() ==> #[trigger] idx[a] < s.len()
    &&& forall|a: int, b: int|
        0 <= a < b < idx.len() ==> precedes(s, #[trigger] idx[a] as int, #[trigger] idx[b] as int)
    &&& forall|a: int, j: int|
        0 <= a < idx.len() && 0 <= j < s.len() && !idx.contains(j as usize)
            ==> #[trigger] precedes(s, idx[a] as int, j)
}

/// Pair `k` holds the individuals at positions `idx[2k]` and `idx[2k + 1]`.
pub open spec fn paired_in_order<T>(
    parents: Seq<(&T, &T)>,
    population: Seq<T>,
    idx: Seq<usize>,
) -> bool {
    &&& idx.len() == 2 * parents.len()
    &&& forall|k: int|
        0 <= k < parents.len() ==> *(#[trigger] parents[k]).0 == population[idx[2 * k] as int]
            && *parents[k].1 == population[idx[2 * k + 1] as int]
}

/// The first of a non-empty top list is at least as fit as every position.
pub proof fn lemma_top_ranked_first_is_best(s: Seq<int>, idx: Seq<usize>)
    requires
        is_top_ranked(s, idx),
        idx.len() > 0,
        s.len() <= usize::MAX,
    ensures
        forall|j: int| 0 <= j < s.len() ==> s[idx[0] as int] >= #[trigger] s[j],
{
    assert forall|j: int| 0 <= j < s.len() implies s[idx[0] as int] >= #[trigger] s[j] by {
        if idx.contains(j as usize) {
            let a = choose|a: int| 0 <= a < idx.len() && idx[a] == j as usize;
            if a > 0 {
                assert(precedes(s, idx[0] as int, idx[a] as int));
            }
        } else {
            assert(precedes(s, idx[0] as int, j));
        }
    }
}

/// Create and return a maximizing selector that selects `count` parents.
pub fn selector_maximize(count: usize) -> (r: MaximizeSelector)
    ensures
        r.count() == count,
{
    MaximizeSelector::new(count)
}

/// The pairs of the individuals at positions `idx[0]` and `idx[1]`, `idx[2]`
/// and `idx[3]`, and so on.
pub fn pair_up<'a, T>(population: &'a [T], idx: &Vec<usize>) -> (r: Parents<&'a T>)
    requires
        idx@.len() % 2 == 0,
        forall|a: int| 0 <= a < idx@.len() ==> #[trigger] idx@[a] < population@.len(),
    ensures
        paired_in_order(r@, population@, idx@),
        drawn_from(r@, population@),
{
    let mut r: Parents<&'a T> = Vec::new();
    let half = idx.len() / 2;
    let mut k: usize = 0;
    while k < half
        invariant
            half * 2 == idx@.len(),
            idx@.len() <= usize::MAX,
            forall|a: int| 0 <= a < idx@.len() ==> #[trigger] idx@[a] < population@.len(),
            k <= half,
            r@.len() == k,
            forall|m: int|
                0 <= m < k ==> *(#[trigger] r@[m]).0 == population@[idx@[2 * m] as int]
                    && *r@[m].1 == population@[idx@[2 * m + 1] as int],
        decreases half - k,
    {
        assert(2 * k + 1 < idx@.len());
        let a = idx[2 * k];
        let b = idx[2 * k + 1];
        r.push((&population[a], &population[b]));
        k = k + 1;
    }
    assert forall|m: int| 0 <= m < r@.len() implies population@.contains(*(#[trigger] r@[m]).0)
        && population@.contains(*r@[m].1) by {
        assert(population@[idx@[2 * m] as int] == *r@[m].0);
        assert(population@[idx@[2 * m + 1] as int] == *r@[m].1);
    }
    r
}

/// The fitness score of each member of the population, in its order.
pub fn fitness_scores<F: Fitness, T: Phenotype<F>>(population: &[T]) -> (r: Vec<i128>)
    ensures
        r@.len() == population@.len(),
        as_ints(r@) == ranks::<F, T>(population@),
{
    let mut r: Vec<i128> = Vec::new();
    let mut i: usize = 0;
    while i < population.len()
        invariant
            i <= population@.len(),
            r@.len() == i,
            forall|j: int| 0 <= j < i ==> r@[j] as int == population@[j].fitness_rank(),
        decreases population@.len() - i,
    {
        let f = population[i].fitness();
        r.push(f.score());
        i = i + 1;
    }
    assert(as_ints(r@) =~= ranks::<F, T>(population@));
    r
}

/// The first `k` positions of `scores` in the order of descending score that
/// keeps ties in population order.
pub fn top_ranked(scores: &Vec<i128>, k: usize) -> (idx: Vec<usize>)
    requires
        k <= scores@.len(),
    ensures
        idx@.len() == k,
        is_top_ranked(as_ints(scores@), idx@),
{
    let ghost s = as_ints(scores@);
    let n = scores.len();
    let mut rest: Vec<usize> = Vec::new();
    let mut i: usize = 0;
    while i < n
        invariant
            n == scores@.len(),
            i <= n,
            rest@.len() == i,
            forall|p: int| 0 <= p < i ==> rest@[p] == p,
        decreases n - i,
    {
        rest.push(i);
        i = i + 1;
    }
    assert forall|j: int| 0 <= j < n implies #[trigger] rest@.contains(j as usize) by {
        assert(rest@[j] == j as usize);
    }
    let mut idx: Vec<usize> = Vec::new();
    while idx.len() < k
        invariant
            n == scores@.len(),
            s == as_ints(scores@),
            k <= n,
            idx@.len() <= k,
            rest@.len() + idx@.len() == n,
            forall|p: int| 0 <= p < rest@.len() ==> #[trigger] rest@[p] < n,
            forall|j: int|
                0 <= j < n ==> #[trigger] idx@.contains(j as usize) || rest@.contains(j as usize),
            forall|p: int| 0 <= p < rest@.len() ==> !idx@.contains(#[trigger] rest@[p]),
            forall|p: int, q: int|
                0 <= p < q < rest@.len() ==> #[trigger] rest@[p] != #[trigger] rest@[q],
            forall|a: int| 0 <= a < idx@.len() ==> #[trigger] idx@[a] < n,
            forall|a: int, b: int|
                0 <= a < b < idx@.len() ==> precedes(
                    s,
                    #[trigger] idx@[a] as int,
                    #[trigger] idx@[b] as int,
                ),
            forall|a: int, p: int|
                0 <= a < idx@.len() && 0 <= p < rest@.len() ==> precedes(
                    s,
                    #[trigger] idx@[a] as int,
                    #[trigger] rest@[p] as int,
                ),
        decreases k - idx@.len(),
    {
        let mut best: usize = 0;
        let mut p: usize = 1;
        while p < rest.len()
            invariant
                n == scores@.len(),
                s == as_ints(scores@),
                0 < rest@.len(),
                forall|q: int| 0 <= q < rest@.len() ==> #[trigger] rest@[q] < n,
                forall|q: int, r: int|
                    0 <= q < r < rest@.len() ==> #[trigger] rest@[q] != #[trigger] rest@[r],
                best < p <= rest@.len(),
                forall|q: int|
                    0 <= q < p && q != best ==> precedes(
                        s,
                        rest@[best as int] as int,
                        #[trigger] rest@[q] as int,
                    ),
            decreases rest@.len() - p,
        {
            let c = rest[p];
            let b = rest[best];
            if scores[c] > scores[b] || (scores[c] == scores[b] && c < b) {
                assert forall|q: int| 0 <= q < p + 1 && q != p implies precedes(
                    s,
                    rest@[p as int] as int,
                    #[trigger] rest@[q] as int,
                ) by {
                    if q != best {
                        assert(precedes(s, rest@[best as int] as int, rest@[q] as int));
                    }
                }
                best = p;
            } else {
                assert(rest@[p as int] != rest@[best as int]);
                assert(precedes(s, b as int, c as int));
            }
            p = p + 1;
        }
        let ghost old_rest = rest@;
        let ghost old_idx = idx@;
        let chosen = rest.remove(best);
        idx.push(chosen);
        assert(rest@ == old_rest.remove(best as int));
        assert(idx@ == old_idx.push(chosen));
        assert forall|j: int| 0 <= j < n implies #[trigger] idx@.contains(j as usize) || rest@.contains(
            j as usize,
        ) by {
            if old_idx.contains(j as usize) {
                let a = choose|a: int| 0 <= a < old_idx.len() && old_idx[a] == j as usize;
                assert(idx@[a] == j as usize);
            } else {
                let q = choose|q: int| 0 <= q < old_rest.len() && old_rest[q] == j as usize;
                if q == best {
                    assert(idx@[old_idx.len() as int] == j as usize);
                } else if q < best {
                    assert(rest@[q] == j as usize);
                } else {
                    assert(rest@[q - 1] == j as usize);
                }
            }
        }
        assert forall|p: int| 0 <= p < rest@.len() implies !idx@.contains(#[trigger] rest@[p]) by {
            let q = if p < best { p } else { p + 1 };
            assert(rest@[p] == old_rest[q]);
            assert(!old_idx.contains(old_rest[q]));
            assert(old_rest[q] != old_rest[best as int]);
            if idx@.contains(rest@[p]) {
                let a = choose|a: int| 0 <= a < idx@.len() && idx@[a] == rest@[p];
                if a < old_idx.len() {
                    assert(old_idx[a] == rest@[p]);
                }
            }
        }
        assert forall|a: int, p: int|
            0 <= a < idx@.len() && 0 <= p < rest@.len() implies precedes(
            s,
            #[trigger] idx@[a] as int,
            #[trigger] rest@[p] as int,
        ) by {
            let q = if p < best { p } else { p + 1 };
            assert(rest@[p] == old_rest[q]);
            if a < old_idx.len() {
                assert(idx@[a] == old_idx[a]);
            }
        }
        assert forall|a: int, b: int| 0 <= a < b < idx@.len() implies precedes(
            s,
            #[trigger] idx@[a] as int,
            #[trigger] idx@[b] as int,
        ) by {
            if b < old_idx.len() {
                assert(idx@[a] == old_idx[a] && idx@[b] == old_idx[b]);
            } else {
                assert(idx@[a] == old_idx[a]);
                assert(idx@[b] == old_rest[best as int]);
            }
        }
        assert forall|p: int, q: int| 0 <= p < q < rest@.len() implies #[trigger] rest@[p]
            != #[trigger] rest@[q] by {
            let p0 = if p < best { p } else { p + 1 };
            let q0 = if q < best { q } else { q + 1 };
            assert(rest@[p] == old_rest[p0] && rest@[q] == old_rest[q0]);
        }
    }
    assert forall|a: int, j: int|
        0 <= a < idx@.len() && 0 <= j < s.len() && !idx@.contains(j as usize)
        implies #[trigger] precedes(s, idx@[a] as int, j) by {
        let q = choose|q: int| 0 <= q < rest@.len() && rest@[q] == j as usize;
        assert(precedes(s, idx@[a] as int, rest@[q] as int));
    }
    idx
}

} // verus!

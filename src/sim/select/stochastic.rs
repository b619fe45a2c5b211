//! Stochastic universal sampling.
use vstd::prelude::*;
use vstd::arithmetic::div_mod::{lemma_mod_add_multiples_vanish, lemma_small_mod};
use crate::pheno::{Fitness, Phenotype};
use crate::random::draw_below;
use crate::sim::select::{pair_up, paired_in_order, Parents, Selector};

verus! {

/// Whether `count` parents can be sampled from `len` phenotypes: it is larger
/// than zero, a multiple of two and less than `len`.
pub open spec fn stochastic_count_ok(count: int, len: int) -> bool {
    count > 0 && count % 2 == 0 && count < len
}

/// The position reached from `start` after `m` jumps of `step` around a circle
/// of `len` positions.
pub open spec fn sampling_point(start: int, step: int, len: int, m: nat) -> int
    decreases m,
{
    if m == 0 {
        start % len
    } else {
        (sampling_point(start, step, len, (m - 1) as nat) + step) % len
    }
}

/// `idx` holds the pairs of stochastic universal sampling from `start` with
/// jumps of `step`: pair `k` is made of the points `k` and `k + 1`.
pub open spec fn sampled_pairs(idx: Seq<usize>, start: int, step: int, len: int) -> bool {
    forall|k: int|
        0 <= k < idx.len() / 2 ==> #[trigger] idx[2 * k] == sampling_point(start, step, len, k as nat)
            && idx[2 * k + 1] == sampling_point(start, step, len, (k + 1) as nat)
}

/// One jump of `step` from position `i` around a circle of `len` positions.
pub(crate) fn jump(i: usize, step: usize, len: usize) -> (r: usize)
    requires
        i < len,
        step < len,
    ensures
        r == (i + step) % (len as int),
        r < len,
{
    if i >= len - step {
        proof {
            lemma_mod_add_multiples_vanish((i + step - len) as int, len as int);
            lemma_small_mod((i + step - len) as nat, len as nat);
        }
        i - (len - step)
    } else {
        proof {
            lemma_small_mod((i + step) as nat, len as nat);
        }
        i + step
    }
}

/// The positions selected by stochastic universal sampling of `count`
/// parents among `len` phenotypes, starting at `start`: the jump between the
/// two parents of a pair, and from one pair to the next, is `len / count - 1`.
pub fn sampling_positions(len: usize, count: usize, start: usize) -> (idx: Vec<usize>)
    requires
        stochastic_count_ok(count as int, len as int),
        start < len,
    ensures
        idx@.len() == count,
        forall|a: int| 0 <= a < idx@.len() ==> #[trigger] idx@[a] < len,
        sampled_pairs(idx@, start as int, (len / count - 1) as int, len as int),
{
    let ratio = len / count;
    assert(ratio >= 1) by {
        vstd::arithmetic::div_mod::lemma_fundamental_div_mod(len as int, count as int);
        assert(ratio * count <= len) by (nonlinear_arith)
            requires
                ratio == len / count,
                count > 0,
                len > count,
        ;
        if ratio == 0 {
            vstd::arithmetic::div_mod::lemma_div_is_ordered(count as int, len as int, count as int);
            vstd::arithmetic::div_mod::lemma_div_by_self(count as int);
        }
    }
    let step = ratio - 1;
    assert(step < len) by {
        vstd::arithmetic::div_mod::lemma_div_is_ordered_by_denominator(len as int, 1, count as int);
    }
    let mut idx: Vec<usize> = Vec::new();
    let mut i = start;
    proof {
        lemma_small_mod(start as nat, len as nat);
    }
    let mut k: usize = 0;
    while 2 * k < count
        invariant
            stochastic_count_ok(count as int, len as int),
            step < len,
            step == len / count - 1,
            i < len,
            i == sampling_point(start as int, step as int, len as int, k as nat),
            2 * k <= count,
            idx@.len() == 2 * k,
            forall|a: int| 0 <= a < idx@.len() ==> #[trigger] idx@[a] < len,
            sampled_pairs(idx@, start as int, step as int, len as int),
        decreases count - 2 * k,
    {
        let next = jump(i, step, len);
        let ghost old_idx = idx@;
        idx.push(i);
        idx.push(next);
        assert(sampled_pairs(idx@, start as int, step as int, len as int)) by {
            assert forall|m: int| 0 <= m < idx@.len() / 2 implies #[trigger] idx@[2 * m]
                == sampling_point(start as int, step as int, len as int, m as nat) && idx@[2 * m
                + 1] == sampling_point(start as int, step as int, len as int, (m + 1) as nat) by {
                if m < k {
                    assert(old_idx[2 * m] == idx@[2 * m]);
                    assert(old_idx[2 * m + 1] == idx@[2 * m + 1]);
                }
            }
        }
        i = next;
        k = k + 1;
    }
    idx
}

/// Selects phenotypes at random, starting from a random index and taking
/// equidistant jumps.
///
/// Commonly known as *Stochastic Universal Sampling*.
#[derive(Clone, Copy, Debug)]
pub struct StochasticSelector {
    count: usize,
}

impl StochasticSelector {
    /// The number of parents selected.
    pub closed spec fn count(&self) -> usize {
        self.count
    }

    /// Create and return a stochastic selector.
    ///
    /// Such a selector selects elements using stochastic universal sampling,
    /// yielding parents with low, medium and high fitness values. In total,
    /// `count` parents are selected.
    ///
    /// * `count`: must be larger than zero, a multiple of two and less than the
    ///   population size.
    pub fn new(count: usize) -> (r: StochasticSelector)
        ensures
            r.count() == count,
    {
        StochasticSelector { count }
    }
}

impl<T: Phenotype<F>, F: Fitness> Selector<T, F> for StochasticSelector {
    open spec fn accepts(&self, len: nat) -> bool {
        stochastic_count_ok(self.count() as int, len as int)
    }

    open spec fn pair_count(&self, len: nat) -> nat {
        (self.count() / 2) as nat
    }

    /// Stochastic universal sampling from a random start.
    fn select_with<'a>(&self, population: &'a [T], rng: &mut rand::rngs::StdRng) -> (r: Result<
        Parents<&'a T>,
        String,
    >)
        ensures
            r is Ok <==> stochastic_count_ok(self.count() as int, population@.len() as int),
            r is Ok ==> r->Ok_0@.len() * 2 == self.count(),
            r is Ok ==> exists|start: int, idx: Seq<usize>|
                {
                    &&& 0 <= start < population@.len()
                    &&& #[trigger] sampled_pairs(
                        idx,
                        start,
                        population@.len() as int / self.count() as int - 1,
                        population@.len() as int,
                    )
                    &&& #[trigger] paired_in_order(r->Ok_0@, population@, idx)
                },
    {
        let len = population.len();
        if self.count == 0 || self.count % 2 != 0 || self.count >= len {
            return Err(
                "Invalid parameter `count`: should be larger than zero, a multiple of two and less than the population size.".to_owned(),
            );
        }
        let start = draw_below(rng, len);
        let idx = sampling_positions(len, self.count, start);
        let r = pair_up(population, &idx);
        let res: Result<Parents<&'a T>, String> = Ok(r);
        assert(paired_in_order(res->Ok_0@, population@, idx@));
        assert(sampled_pairs(
            idx@,
            start as int,
            population@.len() as int / self.count() as int - 1,
            population@.len() as int,
        ));
        res
    }
}

} // verus!

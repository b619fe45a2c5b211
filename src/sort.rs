//! Sorting of (score, position) keys.
use vstd::prelude::*;

verus! {

/// The keys ascend by score, and by position among equal scores.
pub open spec fn keys_ascending(keys: Seq<(i128, usize)>) -> bool {
    forall|p: int, q: int|
        0 <= p < q < keys.len() ==> (#[trigger] keys[p]).0 < (#[trigger] keys[q]).0 || (keys[p].0
            == keys[q].0 && keys[p].1 <= keys[q].1)
}

/// Relies on std's `slice::sort_unstable`: the same keys, in ascending order
/// (tuples compare field by field).
#[verifier::external_body]
pub(crate) fn sort_keys(keys: &mut Vec<(i128, usize)>)
    ensures
        keys_ascending(final(keys)@),
        final(keys)@.to_multiset() == old(keys)@.to_multiset(),
{
    keys.sort_unstable()
}

/// Relies on rayon's `ParallelSliceMut::par_sort_unstable`: the same keys, in
/// ascending order (tuples compare field by field), sorted on several threads.
#[verifier::external_body]
pub(crate) fn par_sort_keys(keys: &mut Vec<(i128, usize)>)
    ensures
        keys_ascending(final(keys)@),
        final(keys)@.to_multiset() == old(keys)@.to_multiset(),
{
    rayon::slice::ParallelSliceMut::par_sort_unstable(keys.as_mut_slice())
}

/// The keys `(scores[i], i)` of each position `i`.
pub open spec fn keyed(scores: Seq<i128>) -> Seq<(i128, usize)> {
    Seq::new(scores.len(), |i: int| (scores[i], i as usize))
}

/// Each position of `scores` with its score, in the order of positions.
pub fn keys_of(scores: &Vec<i128>) -> (keys: Vec<(i128, usize)>)
    ensures
        keys@ == keyed(scores@),
{
    let mut keys: Vec<(i128, usize)> = Vec::new();
    let mut i: usize = 0;
    while i < scores.len()
        invariant
            i <= scores@.len(),
            keys@ == keyed(scores@).take(i as int),
        decreases scores@.len() - i,
    {
        keys.push((scores[i], i));
        i = i + 1;
        assert(keys@ =~= keyed(scores@).take(i as int));
    }
    assert(keys@ =~= keyed(scores@));
    keys
}

/// A sorted arrangement of the keys of `scores` holds each key once more: each
/// entry is the key of its position, and each position's key has an entry.
pub proof fn lemma_sorted_keys(scores: Seq<i128>, sorted: Seq<(i128, usize)>)
    requires
        scores.len() <= usize::MAX,
        sorted.to_multiset() == keyed(scores).to_multiset(),
    ensures
        sorted.len() == scores.len(),
        forall|p: int|
            0 <= p < sorted.len() ==> (#[trigger] sorted[p]).1 < scores.len() && sorted[p].0
                == scores[sorted[p].1 as int],
        forall|i: int| 0 <= i < scores.len() ==> #[trigger] sorted.contains((scores[i], i as usize)),
{
    broadcast use vstd::seq_lib::group_to_multiset_ensures;

    let k = keyed(scores);
    assert(sorted.len() == k.len()) by {
        assert(sorted.len() == sorted.to_multiset().len());
        assert(k.len() == k.to_multiset().len());
    }
    assert forall|p: int| 0 <= p < sorted.len() implies (#[trigger] sorted[p]).1 < scores.len()
        && sorted[p].0 == scores[sorted[p].1 as int] by {
        assert(sorted.contains(sorted[p]));
        assert(sorted.to_multiset().count(sorted[p]) > 0);
        assert(k.contains(sorted[p]));
        let i = choose|i: int| 0 <= i < k.len() && k[i] == sorted[p];
        assert(k[i] == (scores[i], i as usize));
    }
    assert forall|i: int| 0 <= i < scores.len() implies #[trigger] sorted.contains(
        (scores[i], i as usize),
    ) by {
        assert(k[i] == (scores[i], i as usize));
        assert(k.contains(k[i]));
        assert(k.to_multiset().count(k[i]) > 0);
        assert(sorted.contains(k[i]));
    }
}

} // verus!

use vstd::prelude::*;

use itertools::Itertools;
use vstd::relations::sorted_by;
use vstd::seq_lib::lemma_sorted_unique;

verus! {

/// Ascending lexicographic order on pairs: by first component, ties by
/// second.
pub open spec fn pair_leq(a: (u64, u64), b: (u64, u64)) -> bool {
    a.0 < b.0 || (a.0 == b.0 && a.1 <= b.1)
}

/// `pair_leq` as a comparison function, in the shape the sequence sorting
/// vocabulary of vstd expects.
pub open spec fn pair_order() -> spec_fn((u64, u64), (u64, u64)) -> bool {
    |a: (u64, u64), b: (u64, u64)| pair_leq(a, b)
}

pub proof fn lemma_pair_order_total()
    ensures
        vstd::relations::total_ordering(pair_order()),
{
}

/// Relies on itertools' `Itertools::sorted_by_key` with the identity key:
/// it returns the same elements (it sorts a copy of its input), in ascending
/// key order. With the whole pair as the key, ascending means lexicographic.
#[verifier::external_body]
fn sorted_pairs(pairs: Vec<(u64, u64)>) -> (r: Vec<(u64, u64)>)
    ensures
        r@.len() == pairs@.len(),
        r@.to_multiset() == pairs@.to_multiset(),
        sorted_by(r@, pair_order()),
{
    pairs.into_iter().sorted_by_key(|p: &(u64, u64)| *p).collect()
}

/// The unique ascending reordering of `pairs`.
pub open spec fn spec_sorted_pairs(pairs: Seq<(u64, u64)>) -> Seq<(u64, u64)> {
    pairs.sort_by(pair_order())
}

/// Sorts key/tag pairs ascending; the engine's one sorting primitive. It
/// backs both the load-balancing order (count, bucket index) and the frame
/// order of a clip (frame number, position).
pub fn sort_pairs(pairs: Vec<(u64, u64)>) -> (r: Vec<(u64, u64)>)
    ensures
        r@ == spec_sorted_pairs(pairs@),
{
    let r = sorted_pairs(pairs);
    proof {
        lemma_pair_order_total();
        pairs@.lemma_sort_by_ensures(pair_order());
        lemma_sorted_unique(r@, pairs@.sort_by(pair_order()), pair_order());
    }
    r
}

/// What `sort_pairs` hands back: the same pairs, ascending.
pub proof fn lemma_sorted_pairs_ensures(pairs: Seq<(u64, u64)>)
    ensures
        spec_sorted_pairs(pairs).len() == pairs.len(),
        spec_sorted_pairs(pairs).to_multiset() == pairs.to_multiset(),
        sorted_by(spec_sorted_pairs(pairs), pair_order()),
        forall|x: (u64, u64)| pairs.contains(x) == #[trigger] spec_sorted_pairs(pairs).contains(x),
{
    broadcast use vstd::seq_lib::group_to_multiset_ensures;

    lemma_pair_order_total();
    pairs.lemma_sort_by_ensures(pair_order());
    assert(pairs.to_multiset().len() == pairs.len());
    assert(spec_sorted_pairs(pairs).to_multiset().len() == spec_sorted_pairs(pairs).len());
    assert forall|x: (u64, u64)|
        pairs.contains(x) == #[trigger] spec_sorted_pairs(pairs).contains(x) by {
        assert(pairs.contains(x) <==> pairs.to_multiset().count(x) > 0);
        assert(spec_sorted_pairs(pairs).contains(x) <==> spec_sorted_pairs(
            pairs,
        ).to_multiset().count(x) > 0);
    }
}

} // verus!

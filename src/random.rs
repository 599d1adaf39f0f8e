use vstd::prelude::*;

use crate::tetromino::KIND_COUNT;

verus! {

/// The piece kinds in their catalog order.
pub open spec fn all_kinds() -> Seq<usize> {
    seq![0usize, 1, 2, 3, 4, 5, 6]
}

/// Whether `order` holds each piece kind exactly once.
pub open spec fn is_bag(order: Seq<usize>) -> bool {
    order.to_multiset() == all_kinds().to_multiset()
}

/// Relies on rand's `Rng::gen_range` on a half-open range, which yields a
/// value inside the range and panics on an empty one.
#[verifier::external_body]
pub(crate) fn random_below(n: usize) -> (k: usize)
    requires
        n > 0,
    ensures
        k < n,
{
    rand::Rng::gen_range(&mut rand::thread_rng(), 0..n)
}

/// Relies on rand's `SliceRandom::shuffle`, which reorders the slice by
/// swapping its elements and so keeps them as a multiset.
#[verifier::external_body]
fn shuffle(order: &mut Vec<usize>)
    ensures
        final(order)@.to_multiset() == old(order)@.to_multiset(),
{
    rand::seq::SliceRandom::shuffle(order.as_mut_slice(), &mut rand::thread_rng())
}

/// A bag holds only valid kinds, seven of them.
pub proof fn lemma_bag_kinds(order: Seq<usize>)
    requires
        is_bag(order),
    ensures
        order.len() == KIND_COUNT,
        forall|i: int| 0 <= i < order.len() ==> #[trigger] order[i] < KIND_COUNT,
{
    broadcast use vstd::seq_lib::group_to_multiset_ensures;

    assert(order.len() == order.to_multiset().len());
    assert(all_kinds().len() == all_kinds().to_multiset().len());
    assert forall|i: int| 0 <= i < order.len() implies #[trigger] order[i] < KIND_COUNT by {
        assert(order.contains(order[i]));
        assert(order.to_multiset().count(order[i]) > 0);
        assert(all_kinds().contains(order[i]));
    }
}

/// A freshly shuffled bag: every piece kind once, in random order.
pub fn fresh_bag() -> (order: Vec<usize>)
    ensures
        is_bag(order@),
        order@.len() == KIND_COUNT,
        forall|i: int| 0 <= i < order@.len() ==> #[trigger] order@[i] < KIND_COUNT,
{
    let mut order: Vec<usize> = Vec::new();
    let mut k: usize = 0;
    while k < KIND_COUNT
        invariant
            k <= KIND_COUNT,
            order@ =~= all_kinds().take(k as int),
        decreases KIND_COUNT - k,
    {
        order.push(k);
        k += 1;
    }
    assert(order@ =~= all_kinds());
    shuffle(&mut order);
    proof {
        lemma_bag_kinds(order@);
    }
    order
}

} // verus!

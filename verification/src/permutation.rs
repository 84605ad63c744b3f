//! Facts about sequences that hold the same elements in another order.

use vstd::multiset::Multiset;
use vstd::prelude::*;
use vstd::seq_lib::*;

verus! {

/// The step that collects what `pick` selects into a multiset.
pub open spec fn collect<A, B>(pick: spec_fn(A) -> Option<B>) -> spec_fn(Multiset<B>, A) -> Multiset<
    B,
> {
    |m: Multiset<B>, x: A|
        match pick(x) {
            Some(y) => m.insert(y),
            None => m,
        }
}

/// What `filter_map` keeps, as a multiset, is a fold over the sequence.
pub proof fn lemma_filter_map_as_fold<A, B>(s: Seq<A>, pick: spec_fn(A) -> Option<B>)
    ensures
        s.filter_map(pick).to_multiset() == s.fold_left(Multiset::<B>::empty(), collect(pick)),
    decreases s.len(),
{
    broadcast use group_to_multiset_ensures;

    if s.len() == 0 {
        assert(s.filter_map(pick).to_multiset() =~= Multiset::<B>::empty());
    } else {
        lemma_filter_map_as_fold(s.drop_last(), pick);
        match pick(s.last()) {
            Some(y) => {
                assert(s.filter_map(pick) == s.drop_last().filter_map(pick).push(y));
            },
            None => {},
        }
    }
}

/// `filter_map` of a reordered sequence keeps the same elements.
pub proof fn lemma_filter_map_permutation<A, B>(a: Seq<A>, b: Seq<A>, pick: spec_fn(A) -> Option<B>)
    requires
        a.to_multiset() == b.to_multiset(),
    ensures
        a.filter_map(pick).to_multiset() == b.filter_map(pick).to_multiset(),
{
    let step = collect(pick);
    assert(commutative_foldl(step)) by {
        assert forall|x: A, y: A, v: Multiset<B>| #[trigger]
            step(step(v, x), y) == step(step(v, y), x) by {
            assert(step(step(v, x), y) =~= step(step(v, y), x));
        }
    }
    lemma_filter_map_as_fold(a, pick);
    lemma_filter_map_as_fold(b, pick);
    lemma_fold_left_permutation(a, b, step, Multiset::<B>::empty());
}

/// The choice that keeps exactly what `keep` accepts.
pub open spec fn keeping<A>(keep: spec_fn(A) -> bool) -> spec_fn(A) -> Option<A> {
    |x: A|
        if keep(x) {
            Some(x)
        } else {
            None
        }
}

/// `filter` is `filter_map` with a choice that hands the element back.
pub proof fn lemma_filter_as_filter_map<A>(s: Seq<A>, keep: spec_fn(A) -> bool)
    ensures
        s.filter(keep) == s.filter_map(keeping(keep)),
    decreases s.len(),
{
    reveal(Seq::filter);
    if s.len() > 0 {
        lemma_filter_as_filter_map(s.drop_last(), keep);
    }
}

/// `filter` of a reordered sequence keeps the same elements.
pub proof fn lemma_filter_permutation<A>(a: Seq<A>, b: Seq<A>, keep: spec_fn(A) -> bool)
    requires
        a.to_multiset() == b.to_multiset(),
    ensures
        a.filter(keep).to_multiset() == b.filter(keep).to_multiset(),
{
    lemma_filter_as_filter_map(a, keep);
    lemma_filter_as_filter_map(b, keep);
    lemma_filter_map_permutation(a, b, keeping(keep));
}

} // verus!

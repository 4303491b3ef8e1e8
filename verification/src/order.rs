//! Total orders and a sort that is proved to put items in order.

use vstd::prelude::*;
use vstd::relations::{sorted_by, total_ordering};
use vstd::seq_lib::{
    lemma_sorted_unique, to_multiset_build, to_multiset_contains, to_multiset_insert,
    to_multiset_len,
};

verus! {

/// Values that can be put in order: `spec_at_most` is a total order, and
/// `at_most` decides it.
pub trait Ranked: Copy {
    /// `self` comes no later than `other`.
    spec fn spec_at_most(self, other: Self) -> bool;

    fn at_most(&self, other: &Self) -> (r: bool)
        ensures
            r == self.spec_at_most(*other),
    ;

    /// `spec_at_most` is reflexive, antisymmetric, transitive and total.
    proof fn lemma_total_order()
        ensures
            forall|a: Self| #[trigger] a.spec_at_most(a),
            forall|a: Self, b: Self|
                #[trigger] a.spec_at_most(b) && #[trigger] b.spec_at_most(a) ==> a == b,
            forall|a: Self, b: Self, c: Self|
                #[trigger] a.spec_at_most(b) && #[trigger] b.spec_at_most(c) ==> a.spec_at_most(c),
            forall|a: Self, b: Self| #[trigger] a.spec_at_most(b) || #[trigger] b.spec_at_most(a),
    ;
}

/// The order of a ranked type as a relation.
pub open spec fn rank_order<T: Ranked>() -> spec_fn(T, T) -> bool {
    |a: T, b: T| a.spec_at_most(b)
}

/// The items put in order, least first.
pub open spec fn ranked<T: Ranked>(items: Seq<T>) -> Seq<T> {
    items.sort_by(rank_order::<T>())
}

impl Ranked for u64 {
    open spec fn spec_at_most(self, other: Self) -> bool {
        self <= other
    }

    fn at_most(&self, other: &Self) -> (r: bool) {
        *self <= *other
    }

    proof fn lemma_total_order() {
    }
}

/// The order of a ranked type is a total order.
pub proof fn lemma_rank_order_total<T: Ranked>()
    ensures
        total_ordering(rank_order::<T>()),
{
    T::lemma_total_order();
    let leq = rank_order::<T>();
    assert forall|a: T, b: T| #[trigger] leq(a, b) || #[trigger] leq(b, a) by {
        assert(a.spec_at_most(b) || b.spec_at_most(a));
    }
    assert forall|a: T, b: T, c: T| #[trigger] leq(a, b) && #[trigger] leq(b, c) implies leq(
        a,
        c,
    ) by {
        assert(a.spec_at_most(b) && b.spec_at_most(c));
    }
}

/// What `ranked` gives: the same items, each as often as before, in
/// nondecreasing order; and it is the only sequence of which this holds.
pub proof fn lemma_ranked<T: Ranked>(items: Seq<T>)
    ensures
        ranked(items).len() == items.len(),
        ranked(items).to_multiset() == items.to_multiset(),
        sorted_by(ranked(items), rank_order::<T>()),
        forall|x: T| #[trigger] ranked(items).contains(x) <==> items.contains(x),
        forall|other: Seq<T>|
            other.to_multiset() == items.to_multiset() && sorted_by(other, rank_order::<T>())
                ==> other == #[trigger] ranked(items),
{
    lemma_rank_order_total::<T>();
    items.lemma_sort_by_ensures(rank_order::<T>());
    to_multiset_len(items);
    to_multiset_len(ranked(items));
    assert forall|x: T| #[trigger] ranked(items).contains(x) <==> items.contains(x) by {
        to_multiset_contains(items, x);
        to_multiset_contains(ranked(items), x);
    }
    assert forall|other: Seq<T>|
        other.to_multiset() == items.to_multiset() && sorted_by(
            other,
            rank_order::<T>(),
        ) implies other == ranked(items) by {
        lemma_sorted_unique(other, ranked(items), rank_order::<T>());
    }
}

/// Puts the items in order, least first.
pub fn sort_ranked<T: Ranked>(items: &[T]) -> (sorted: Vec<T>)
    ensures
        sorted@ == ranked(items@),
{
    let ghost leq = rank_order::<T>();
    let mut sorted: Vec<T> = Vec::new();
    let mut i: usize = 0;
    proof {
        lemma_rank_order_total::<T>();
        assert(items@.take(0) =~= Seq::<T>::empty());
    }
    while i < items.len()
        invariant
            i <= items.len(),
            leq == rank_order::<T>(),
            total_ordering(leq),
            sorted_by(sorted@, leq),
            sorted@.to_multiset() == items@.take(i as int).to_multiset(),
            sorted@.len() == i,
        decreases items.len() - i,
    {
        let item = items[i];
        let mut at: usize = 0;
        while at < sorted.len() && sorted[at].at_most(&item)
            invariant
                at <= sorted.len(),
                leq == rank_order::<T>(),
                forall|j: int| 0 <= j < at ==> leq(#[trigger] sorted@[j], item),
            decreases sorted.len() - at,
        {
            at += 1;
        }
        let ghost before = sorted@;
        sorted.insert(at, item);
        proof {
            assert(at < before.len() ==> !leq(before[at as int], item));
            assert forall|a: int, b: int| 0 <= a < b < sorted@.len() implies leq(
                sorted@[a],
                sorted@[b],
            ) by {
                if b == at {
                    assert(sorted@[a] == before[a]);
                } else if a == at {
                    assert(sorted@[b] == before[b - 1]);
                    assert(leq(item, before[at as int]) || leq(before[at as int], item));
                    if b - 1 > at {
                        assert(leq(before[at as int], before[b - 1]));
                    }
                } else {
                    let a0 = if a < at { a } else { a - 1 };
                    let b0 = if b < at { b } else { b - 1 };
                    assert(sorted@[a] == before[a0]);
                    assert(sorted@[b] == before[b0]);
                    assert(leq(before[a0], before[b0]));
                }
            }
            to_multiset_insert(before, at as int, item);
            to_multiset_build(items@.take(i as int), item);
            assert(items@.take(i + 1) =~= items@.take(i as int).push(item));
        }
        i += 1;
    }
    proof {
        assert(items@.take(i as int) =~= items@);
        lemma_ranked(items@);
    }
    sorted
}

} // verus!

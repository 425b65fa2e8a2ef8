//! Sequences that hold the same elements in another order.
//!
//! Votes may arrive in any order. What an accumulator makes of them is built
//! from sums over the votes and from the collection of their parts, and
//! neither depends on the order. This module proves that once, for any
//! sequence.

use vstd::prelude::*;
use vstd::seq_lib::group_to_multiset_ensures;

verus! {

/// `second` holds the elements of `first`, each as often, in any order.
pub open spec fn reordered<A>(first: Seq<A>, second: Seq<A>) -> bool {
    first.to_multiset() == second.to_multiset()
}

/// The sum of `f` over the elements of `s`.
pub open spec fn sum_by<A>(s: Seq<A>, f: spec_fn(A) -> nat) -> nat
    decreases s.len(),
{
    if s.len() == 0 {
        0
    } else {
        sum_by(s.drop_last(), f) + f(s.last())
    }
}

/// Taking one element out of a sequence lowers the sum by that element's
/// part.
pub proof fn lemma_sum_without<A>(s: Seq<A>, f: spec_fn(A) -> nat, at: int)
    requires
        0 <= at < s.len(),
    ensures
        sum_by(s, f) == sum_by(s.remove(at), f) + f(s[at]),
    decreases s.len(),
{
    if at == s.len() - 1 {
        assert(s.remove(at) =~= s.drop_last());
    } else {
        lemma_sum_without(s.drop_last(), f, at);
        assert(s.remove(at).drop_last() =~= s.drop_last().remove(at));
        assert(s.remove(at).last() == s.last());
    }
}

/// The last element of a sequence stands somewhere in each of its
/// reorderings, and what is left of both without it are reorderings of each
/// other again.
pub proof fn lemma_last_stands_elsewhere<A>(first: Seq<A>, second: Seq<A>) -> (at: int)
    requires
        reordered(first, second),
        first.len() > 0,
    ensures
        0 <= at < second.len(),
        second[at] == first.last(),
        reordered(first.drop_last(), second.remove(at)),
{
    broadcast use group_to_multiset_ensures;

    let x = first.last();
    assert(first[first.len() - 1] == x);
    assert(first.contains(x));
    assert(second.to_multiset().count(x) > 0);
    assert(second.contains(x));
    let at = choose|at: int| 0 <= at < second.len() && second[at] == x;
    assert(first.drop_last() =~= first.remove(first.len() - 1));
    at
}

/// Reorderings have the same length.
pub proof fn lemma_reordered_same_length<A>(first: Seq<A>, second: Seq<A>)
    requires
        reordered(first, second),
    ensures
        first.len() == second.len(),
{
    broadcast use group_to_multiset_ensures;

    assert(first.len() == first.to_multiset().len());
    assert(second.len() == second.to_multiset().len());
}

/// A sum does not depend on the order of what is summed.
pub proof fn lemma_sum_reordered<A>(first: Seq<A>, second: Seq<A>, f: spec_fn(A) -> nat)
    requires
        reordered(first, second),
    ensures
        sum_by(first, f) == sum_by(second, f),
    decreases first.len(),
{
    lemma_reordered_same_length(first, second);
    if first.len() > 0 {
        let at = lemma_last_stands_elsewhere(first, second);
        lemma_sum_reordered(first.drop_last(), second.remove(at), f);
        lemma_sum_without(second, f, at);
    }
}

/// Reorderings hold the same elements.
pub proof fn lemma_reordered_same_elements<A>(first: Seq<A>, second: Seq<A>, x: A)
    requires
        reordered(first, second),
    ensures
        first.contains(x) <==> second.contains(x),
{
    broadcast use group_to_multiset_ensures;

    assert(first.contains(x) <==> first.to_multiset().count(x) > 0);
    assert(second.contains(x) <==> second.to_multiset().count(x) > 0);
}

/// Applying a function to each element of two reorderings gives two
/// reorderings.
pub proof fn lemma_mapped_reordered<A, B>(first: Seq<A>, second: Seq<A>, f: spec_fn(A) -> B)
    requires
        reordered(first, second),
    ensures
        reordered(first.map_values(f), second.map_values(f)),
    decreases first.len(),
{
    broadcast use group_to_multiset_ensures;

    lemma_reordered_same_length(first, second);
    if first.len() == 0 {
        assert(first.map_values(f) =~= second.map_values(f));
    } else {
        let at = lemma_last_stands_elsewhere(first, second);
        lemma_mapped_reordered(first.drop_last(), second.remove(at), f);
        let y = f(first.last());
        let mapped_first = first.map_values(f);
        let mapped_second = second.map_values(f);
        assert(mapped_first =~= first.drop_last().map_values(f).push(y));
        assert(mapped_second.remove(at) =~= second.remove(at).map_values(f));
        assert(mapped_second[at] == y);
        assert(mapped_second =~= mapped_second.remove(at).insert(at, y));
        assert(mapped_second.to_multiset() == mapped_second.remove(at).to_multiset().insert(y));
        assert(mapped_first.to_multiset() == first.drop_last().map_values(f).to_multiset().insert(
            y,
        ));
    }
}

} // verus!

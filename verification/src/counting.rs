//! Counting the items of a sequence that pass a test.
//!
//! The scheduler's bookkeeping is a handful of counters, and each is kept
//! equal to such a count. The lemmas here say how a count moves when the
//! sequence grows or one item changes, and that it does not depend on the
//! order of the items.

use vstd::prelude::*;

verus! {

/// How many items of `s` pass `test`.
pub open spec fn count<A>(s: Seq<A>, test: spec_fn(A) -> bool) -> nat
    decreases s.len(),
{
    if s.len() == 0 {
        0
    } else {
        count(s.drop_last(), test) + if test(s.last()) {
            1nat
        } else {
            0nat
        }
    }
}

/// 1 where `b` holds, else 0.
pub open spec fn one_if(b: bool) -> int {
    if b {
        1
    } else {
        0
    }
}

/// A count is never more than the length.
pub proof fn lemma_count_bound<A>(s: Seq<A>, test: spec_fn(A) -> bool)
    ensures
        count(s, test) <= s.len(),
    decreases s.len(),
{
    if s.len() > 0 {
        lemma_count_bound(s.drop_last(), test);
    }
}

/// Adding an item at the end adds it to the count if it passes.
pub proof fn lemma_count_push<A>(s: Seq<A>, x: A, test: spec_fn(A) -> bool)
    ensures
        count(s.push(x), test) == count(s, test) + one_if(test(x)),
{
    assert(s.push(x).drop_last() =~= s);
}

/// Replacing one item takes the old item out of the count and puts the new
/// one in.
pub proof fn lemma_count_update<A>(s: Seq<A>, i: int, x: A, test: spec_fn(A) -> bool)
    requires
        0 <= i < s.len(),
    ensures
        count(s.update(i, x), test) == count(s, test) - one_if(test(s[i])) + one_if(test(x)),
    decreases s.len(),
{
    let t = s.update(i, x);
    if i == s.len() - 1 {
        assert(t.drop_last() =~= s.drop_last());
    } else {
        assert(t.drop_last() =~= s.drop_last().update(i, x));
        lemma_count_update(s.drop_last(), i, x, test);
    }
}

/// Taking one item out takes it out of the count.
pub proof fn lemma_count_remove<A>(s: Seq<A>, i: int, test: spec_fn(A) -> bool)
    requires
        0 <= i < s.len(),
    ensures
        count(s.remove(i), test) == count(s, test) - one_if(test(s[i])),
    decreases s.len(),
{
    let t = s.remove(i);
    if i == s.len() - 1 {
    } else {
        assert(t.drop_last() =~= s.drop_last().remove(i));
        lemma_count_remove(s.drop_last(), i, test);
    }
}

/// Where the count is zero, no item passes.
pub proof fn lemma_count_zero<A>(s: Seq<A>, test: spec_fn(A) -> bool)
    requires
        count(s, test) == 0,
    ensures
        forall|i: int| 0 <= i < s.len() ==> !test(#[trigger] s[i]),
    decreases s.len(),
{
    if s.len() > 0 {
        lemma_count_zero(s.drop_last(), test);
        assert forall|i: int| 0 <= i < s.len() implies !test(#[trigger] s[i]) by {
            if i < s.len() - 1 {
                assert(s[i] == s.drop_last()[i]);
            }
        }
    }
}

/// Where no item passes, the count is zero.
pub proof fn lemma_count_none<A>(s: Seq<A>, test: spec_fn(A) -> bool)
    requires
        forall|i: int| 0 <= i < s.len() ==> !test(#[trigger] s[i]),
    ensures
        count(s, test) == 0,
    decreases s.len(),
{
    if s.len() > 0 {
        lemma_count_none(s.drop_last(), test);
    }
}

/// Where every item passes, the count is the length.
pub proof fn lemma_count_all<A>(s: Seq<A>, test: spec_fn(A) -> bool)
    requires
        forall|i: int| 0 <= i < s.len() ==> test(#[trigger] s[i]),
    ensures
        count(s, test) == s.len(),
    decreases s.len(),
{
    if s.len() > 0 {
        lemma_count_all(s.drop_last(), test);
    }
}

/// Where the count is the length, every item passes.
pub proof fn lemma_count_full<A>(s: Seq<A>, test: spec_fn(A) -> bool)
    requires
        count(s, test) == s.len(),
    ensures
        forall|i: int| 0 <= i < s.len() ==> test(#[trigger] s[i]),
    decreases s.len(),
{
    if s.len() > 0 {
        lemma_count_bound(s.drop_last(), test);
        lemma_count_full(s.drop_last(), test);
        assert forall|i: int| 0 <= i < s.len() implies test(#[trigger] s[i]) by {
            if i < s.len() - 1 {
                assert(s[i] == s.drop_last()[i]);
            }
        }
    }
}

/// Where a test is the disjunction of two tests that no item passes both
/// of, its count is the sum of theirs.
pub proof fn lemma_count_split<A>(
    s: Seq<A>,
    whole: spec_fn(A) -> bool,
    left: spec_fn(A) -> bool,
    right: spec_fn(A) -> bool,
)
    requires
        forall|x: A| #[trigger] whole(x) <==> left(x) || right(x),
        forall|x: A| !(#[trigger] left(x) && right(x)),
    ensures
        count(s, whole) == count(s, left) + count(s, right),
    decreases s.len(),
{
    if s.len() > 0 {
        lemma_count_split(s.drop_last(), whole, left, right);
        let x = s.last();
    }
}

/// Two sequences of one length, with a test each, such that an item of the
/// first passes its test exactly when the item at the same place in the
/// second passes the other, have the same count.
pub proof fn lemma_count_pointwise<A, B>(
    s: Seq<A>,
    t: Seq<B>,
    first: spec_fn(A) -> bool,
    second: spec_fn(B) -> bool,
)
    requires
        s.len() == t.len(),
        forall|i: int| 0 <= i < s.len() ==> first(#[trigger] s[i]) == second(t[i]),
    ensures
        count(s, first) == count(t, second),
    decreases s.len(),
{
    if s.len() > 0 {
        assert forall|i: int| 0 <= i < s.drop_last().len() implies first(
            #[trigger] s.drop_last()[i],
        ) == second(t.drop_last()[i]) by {
        }
        lemma_count_pointwise(s.drop_last(), t.drop_last(), first, second);
    }
}

/// Two sequences that hold the same items, each as often as the other,
/// have the same count, whatever the order of their items.
pub proof fn lemma_count_permutation<A>(s: Seq<A>, t: Seq<A>, test: spec_fn(A) -> bool)
    requires
        s.to_multiset() == t.to_multiset(),
    ensures
        count(s, test) == count(t, test),
    decreases s.len(),
{
    broadcast use vstd::seq_lib::group_to_multiset_ensures;

    s.to_multiset_ensures();
    t.to_multiset_ensures();
    if s.len() > 0 {
        let x = s.last();
        assert(s.to_multiset().count(x) > 0);
        let j = choose|j: int| 0 <= j < t.len() && t[j] == x;
        assert(s.drop_last().push(x) =~= s);
        assert(s.drop_last().to_multiset() =~= s.to_multiset().remove(x));
        lemma_count_permutation(s.drop_last(), t.remove(j), test);
        lemma_count_remove(t, j, test);
    }
}

} // verus!

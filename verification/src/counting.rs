//! Counting and summing over sequences, the arithmetic behind every report
//! aggregate: how many elements satisfy a predicate, and the total of a measure.
use vstd::prelude::*;

verus! {

/// The number of elements of `s` that satisfy `p`.
pub open spec fn count<T>(s: Seq<T>, p: spec_fn(T) -> bool) -> nat
    decreases s.len(),
{
    if s.len() == 0 {
        0
    } else {
        count(s.drop_last(), p) + if p(s.last()) { 1nat } else { 0nat }
    }
}

/// The total of `f` over the elements of `s`.
pub open spec fn sum<T>(s: Seq<T>, f: spec_fn(T) -> nat) -> nat
    decreases s.len(),
{
    if s.len() == 0 {
        0
    } else {
        sum(s.drop_last(), f) + f(s.last())
    }
}

/// At most every element is counted.
pub proof fn lemma_count_bound<T>(s: Seq<T>, p: spec_fn(T) -> bool)
    ensures
        count(s, p) <= s.len(),
    decreases s.len(),
{
    if s.len() > 0 {
        lemma_count_bound(s.drop_last(), p);
    }
}

/// Counting one more element of a prefix.
pub proof fn lemma_count_prefix<T>(s: Seq<T>, p: spec_fn(T) -> bool, i: int)
    requires
        0 <= i < s.len(),
    ensures
        count(s.subrange(0, i + 1), p) == count(s.subrange(0, i), p) + if p(s[i]) { 1nat } else { 0nat },
        count(s.subrange(0, i), p) <= i,
{
    assert(s.subrange(0, i + 1).drop_last() =~= s.subrange(0, i));
    lemma_count_bound(s.subrange(0, i), p);
}

/// Summing one more element of a prefix.
pub proof fn lemma_sum_prefix<T>(s: Seq<T>, f: spec_fn(T) -> nat, i: int)
    requires
        0 <= i < s.len(),
    ensures
        sum(s.subrange(0, i + 1), f) == sum(s.subrange(0, i), f) + f(s[i]),
{
    assert(s.subrange(0, i + 1).drop_last() =~= s.subrange(0, i));
}

/// A sum grows along prefixes.
pub proof fn lemma_sum_prefix_monotone<T>(s: Seq<T>, f: spec_fn(T) -> nat, i: int)
    requires
        0 <= i <= s.len(),
    ensures
        sum(s.subrange(0, i), f) <= sum(s, f),
    decreases s.len() - i,
{
    if i < s.len() {
        lemma_sum_prefix(s, f, i);
        lemma_sum_prefix_monotone(s, f, i + 1);
    } else {
        assert(s.subrange(0, i) =~= s);
    }
}

/// A count grows along prefixes.
pub proof fn lemma_count_prefix_monotone<T>(s: Seq<T>, p: spec_fn(T) -> bool, i: int)
    requires
        0 <= i <= s.len(),
    ensures
        count(s.subrange(0, i), p) <= count(s, p),
    decreases s.len() - i,
{
    if i < s.len() {
        lemma_count_prefix(s, p, i);
        lemma_count_prefix_monotone(s, p, i + 1);
    } else {
        assert(s.subrange(0, i) =~= s);
    }
}

/// A whole sequence is its own longest prefix.
pub proof fn lemma_full_prefix<T>(s: Seq<T>)
    ensures
        s.subrange(0, s.len() as int) == s,
{
    assert(s.subrange(0, s.len() as int) =~= s);
}

/// Counting with a stronger predicate counts no more.
pub proof fn lemma_count_implies<T>(s: Seq<T>, p: spec_fn(T) -> bool, q: spec_fn(T) -> bool)
    requires
        forall|x: T| #[trigger] p(x) ==> q(x),
    ensures
        count(s, p) <= count(s, q),
    decreases s.len(),
{
    if s.len() > 0 {
        lemma_count_implies(s.drop_last(), p, q);
    }
}

/// Elements satisfying one of two exclusive predicates are counted apart.
pub proof fn lemma_count_split<T>(s: Seq<T>, p: spec_fn(T) -> bool, a: spec_fn(T) -> bool, b: spec_fn(T) -> bool)
    requires
        forall|x: T| #[trigger] p(x) <==> (a(x) || b(x)),
        forall|x: T| !(#[trigger] a(x) && b(x)),
    ensures
        count(s, p) == count(s, a) + count(s, b),
    decreases s.len(),
{
    if s.len() > 0 {
        lemma_count_split(s.drop_last(), p, a, b);
    }
}

/// A pointwise smaller measure has a smaller total.
pub proof fn lemma_sum_pointwise_le<T>(s: Seq<T>, f: spec_fn(T) -> nat, g: spec_fn(T) -> nat)
    requires
        forall|x: T| #[trigger] f(x) <= g(x),
    ensures
        sum(s, f) <= sum(s, g),
    decreases s.len(),
{
    if s.len() > 0 {
        lemma_sum_pointwise_le(s.drop_last(), f, g);
    }
}

} // verus!

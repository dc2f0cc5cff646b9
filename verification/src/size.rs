//! Sums of per-element sizes, as the size computations of the wire types use.

use vstd::prelude::*;

verus! {

/// The sum of `f` over the elements of `s`.
pub open spec fn sum_of<T>(s: Seq<T>, f: spec_fn(T) -> int) -> int
    decreases s.len(),
{
    if s.len() == 0 {
        0
    } else {
        sum_of(s.drop_last(), f) + f(s.last())
    }
}

/// Taking one more element adds that element's share.
pub proof fn lemma_sum_of_take_next<T>(s: Seq<T>, f: spec_fn(T) -> int, i: int)
    requires
        0 <= i < s.len(),
    ensures
        sum_of(s.take(i + 1), f) == sum_of(s.take(i), f) + f(s[i]),
{
    assert(s.take(i + 1).drop_last() =~= s.take(i));
}

/// Adding an element at the end adds that element's share.
pub proof fn lemma_sum_of_push<T>(s: Seq<T>, x: T, f: spec_fn(T) -> int)
    ensures
        sum_of(s.push(x), f) == sum_of(s, f) + f(x),
{
    assert(s.push(x).drop_last() =~= s);
}

/// With shares that are never negative, a prefix sums to no more than the
/// whole sequence.
pub proof fn lemma_sum_of_prefix_le<T>(s: Seq<T>, f: spec_fn(T) -> int, i: int)
    requires
        0 <= i <= s.len(),
        forall|x: T| #[trigger] f(x) >= 0,
    ensures
        sum_of(s.take(i), f) <= sum_of(s, f),
        sum_of(s.take(i), f) >= 0,
    decreases s.len() - i,
{
    if i == s.len() {
        assert(s.take(i) =~= s);
        lemma_sum_of_nonneg(s, f);
    } else {
        lemma_sum_of_take_next(s, f, i);
        lemma_sum_of_prefix_le(s, f, i + 1);
        lemma_sum_of_nonneg(s.take(i), f);
    }
}

/// With shares that are never negative, the sum is never negative.
pub proof fn lemma_sum_of_nonneg<T>(s: Seq<T>, f: spec_fn(T) -> int)
    requires
        forall|x: T| #[trigger] f(x) >= 0,
    ensures
        sum_of(s, f) >= 0,
    decreases s.len(),
{
    if s.len() > 0 {
        lemma_sum_of_nonneg(s.drop_last(), f);
    }
}

} // verus!

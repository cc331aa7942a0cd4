use vstd::prelude::*;

verus! {

/// Sum of `f` over the elements of `s`.
pub open spec fn sum_of<T>(s: Seq<T>, f: spec_fn(T) -> int) -> int
    decreases s.len(),
{
    if s.len() == 0 {
        0
    } else {
        sum_of(s.drop_last(), f) + f(s.last())
    }
}

pub proof fn lemma_sum_push<T>(s: Seq<T>, x: T, f: spec_fn(T) -> int)
    ensures
        sum_of(s.push(x), f) == sum_of(s, f) + f(x),
{
    assert(s.push(x).drop_last() =~= s);
}

pub proof fn lemma_sum_update<T>(s: Seq<T>, j: int, x: T, f: spec_fn(T) -> int)
    requires
        0 <= j < s.len(),
    ensures
        sum_of(s.update(j, x), f) == sum_of(s, f) - f(s[j]) + f(x),
    decreases s.len(),
{
    let u = s.update(j, x);
    if j == s.len() - 1 {
        assert(u.drop_last() =~= s.drop_last());
    } else {
        assert(u.drop_last() =~= s.drop_last().update(j, x));
        lemma_sum_update(s.drop_last(), j, x, f);
    }
}

/// A sum is zero when `f` is zero on every element.
pub proof fn lemma_sum_zero<T>(s: Seq<T>, f: spec_fn(T) -> int)
    requires
        forall|j: int| 0 <= j < s.len() ==> f(#[trigger] s[j]) == 0,
    ensures
        sum_of(s, f) == 0,
    decreases s.len(),
{
    if s.len() > 0 {
        lemma_sum_zero(s.drop_last(), f);
    }
}

/// The sum over the first `n` elements, one element at a time.
pub proof fn lemma_sum_take<T>(s: Seq<T>, n: int, f: spec_fn(T) -> int)
    requires
        0 < n <= s.len(),
    ensures
        sum_of(s.take(n), f) == sum_of(s.take(n - 1), f) + f(s[n - 1]),
{
    assert(s.take(n).drop_last() =~= s.take(n - 1));
}

} // verus!

//! Facts about sums of amounts.

use vstd::prelude::*;
use crate::model::sum_amounts;

verus! {

/// Appending a term adds it to the sum.
pub proof fn lemma_sum_push(s: Seq<i128>, x: i128)
    ensures
        sum_amounts(s.push(x)) == sum_amounts(s) + x,
{
    assert(s.push(x).drop_last() =~= s);
}

/// A sum of terms that are each at most the matching term of another sum is
/// at most that sum.
pub proof fn lemma_sum_pointwise(s: Seq<i128>, t: Seq<i128>)
    requires
        s.len() == t.len(),
        forall|i: int| 0 <= i < s.len() ==> s[i] <= t[i],
    ensures
        sum_amounts(s) <= sum_amounts(t),
    decreases s.len(),
{
    if s.len() > 0 {
        lemma_sum_pointwise(s.drop_last(), t.drop_last());
    }
}

/// A sum of terms that are not negative is not negative.
pub proof fn lemma_sum_nonnegative(s: Seq<i128>)
    requires
        forall|i: int| 0 <= i < s.len() ==> s[i] >= 0,
    ensures
        sum_amounts(s) >= 0,
    decreases s.len(),
{
    if s.len() > 0 {
        lemma_sum_nonnegative(s.drop_last());
    }
}

/// Among terms that are not negative, none exceeds the sum.
pub proof fn lemma_term_within_sum(s: Seq<i128>, i: int)
    requires
        0 <= i < s.len(),
        forall|j: int| 0 <= j < s.len() ==> s[j] >= 0,
    ensures
        s[i] <= sum_amounts(s),
    decreases s.len(),
{
    lemma_sum_nonnegative(s.drop_last());
    if i < s.len() - 1 {
        lemma_term_within_sum(s.drop_last(), i);
    }
}

} // verus!

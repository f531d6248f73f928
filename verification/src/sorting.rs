//! Ascending sort of integer sequences.
use vstd::prelude::*;

verus! {

/// `s` sorted in ascending order.
pub open spec fn sorted_values(s: Seq<u64>) -> Seq<u64> {
    s.sort_by(|a: u64, b: u64| a <= b)
}

/// Whether `s` is in ascending order.
pub open spec fn is_sorted(s: Seq<u64>) -> bool {
    forall|i: int, j: int| 0 <= i <= j < s.len() ==> s[i] <= s[j]
}

/// `slice::sort` on a vector of integers: afterwards the vector holds its
/// values in ascending order.
#[verifier::external_body]
pub(crate) fn sort_values(values: &mut Vec<u64>)
    ensures
        final(values)@ == sorted_values(old(values)@),
{
    values.sort();
}

/// Sorting keeps the length.
pub proof fn lemma_sorted_len(s: Seq<u64>)
    ensures
        sorted_values(s).len() == s.len(),
{
    let leq = |a: u64, b: u64| a <= b;
    assert(vstd::relations::total_ordering(leq));
    s.lemma_sort_by_ensures(leq);
    vstd::seq_lib::to_multiset_len(s);
    vstd::seq_lib::to_multiset_len(sorted_values(s));
}

/// Sorting gives an ascending sequence with the same items.
pub proof fn lemma_sorted_values(s: Seq<u64>)
    ensures
        is_sorted(sorted_values(s)),
        sorted_values(s).to_multiset() == s.to_multiset(),
        sorted_values(s).len() == s.len(),
{
    let leq = |a: u64, b: u64| a <= b;
    assert(vstd::relations::total_ordering(leq));
    s.lemma_sort_by_ensures(leq);
    lemma_sorted_len(s);
    let t = sorted_values(s);
    assert forall|i: int, j: int| 0 <= i <= j < t.len() implies t[i] <= t[j] by {
        if i < j {
            assert(leq(t[i], t[j]));
        }
    }
}

} // verus!

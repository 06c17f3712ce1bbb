//! Post-processing for the ctags (tag index) backend.
//!
//! In a well-formed tags file a symbol's definition conventionally precedes
//! its implementations, so the hits are put in ascending `line_number` order
//! before they reach the merge. The sort is stable: hits on the same line
//! number keep the order in which the backend produced them, which makes the
//! whole step a function of its input.

use vstd::prelude::*;
use itertools::Itertools;
use crate::usage::AddressableUsage;

verus! {

/// The records of `s` whose line number is `n`, in their order in `s`.
pub open spec fn with_line_number(s: Seq<AddressableUsage>, n: usize) -> Seq<AddressableUsage> {
    s.filter(|u: AddressableUsage| u.line_number == n)
}

/// The sequence is non-decreasing under `line_number`.
pub open spec fn sorted_by_line_number(s: Seq<AddressableUsage>) -> bool {
    forall|i: int, j: int|
        0 <= i < j < s.len() ==> (#[trigger] s[i]).line_number <= (#[trigger] s[j]).line_number
}

/// Relies on itertools' `Itertools::sorted_by_key`: a stable sort of the
/// elements by the given key, returned as a new collection. Stability is
/// stated per key: the subsequence of records carrying any one line number
/// is unchanged.
#[verifier::external_body]
fn sorted_by_line_number_stable(v: Vec<AddressableUsage>) -> (r: Vec<AddressableUsage>)
    ensures
        r@.to_multiset() == v@.to_multiset(),
        sorted_by_line_number(r@),
        forall|n: usize| #[trigger] with_line_number(r@, n) == with_line_number(v@, n),
{
    v.into_iter().sorted_by_key(|u| u.line_number).collect()
}

/// Order a ctags result set ascending by line number, keeping the backend's
/// own order among hits with the same line number.
pub fn ctags_postprocess(hits: Vec<AddressableUsage>) -> (r: Vec<AddressableUsage>)
    ensures
        r@.to_multiset() == hits@.to_multiset(),
        sorted_by_line_number(r@),
        forall|n: usize| #[trigger] with_line_number(r@, n) == with_line_number(hits@, n),
{
    sorted_by_line_number_stable(hits)
}

/// One unfolding step of `with_line_number` at the back of the sequence.
proof fn lemma_wln_unfold(s: Seq<AddressableUsage>, n: usize)
    requires
        s.len() > 0,
    ensures
        with_line_number(s, n) == if s.last().line_number == n {
            with_line_number(s.drop_last(), n).push(s.last())
        } else {
            with_line_number(s.drop_last(), n)
        },
{
    reveal(Seq::filter);
}

/// A non-empty per-line-number subsequence comes from some record of `s`.
proof fn lemma_wln_member(s: Seq<AddressableUsage>, n: usize)
    requires
        with_line_number(s, n).len() > 0,
    ensures
        exists|k: int| 0 <= k < s.len() && (#[trigger] s[k]).line_number == n,
    decreases s.len(),
{
    reveal(Seq::filter);
    if s.len() == 0 {
        assert(with_line_number(s, n).len() == 0);
    } else {
        lemma_wln_unfold(s, n);
        if s.last().line_number == n {
            assert(s[s.len() - 1].line_number == n);
        } else {
            lemma_wln_member(s.drop_last(), n);
            let k = choose|k: int|
                0 <= k < s.drop_last().len() && (#[trigger] s.drop_last()[k]).line_number == n;
            assert(s[k] == s.drop_last()[k]);
        }
    }
}

/// Two line-number-sorted sequences whose per-line-number subsequences agree
/// are the same sequence.
proof fn lemma_sorted_same_filters_equal(r1: Seq<AddressableUsage>, r2: Seq<AddressableUsage>)
    requires
        sorted_by_line_number(r1),
        sorted_by_line_number(r2),
        forall|n: usize| #[trigger] with_line_number(r1, n) == with_line_number(r2, n),
    ensures
        r1 == r2,
    decreases r1.len(),
{
    reveal(Seq::filter);
    if r1.len() == 0 {
        if r2.len() > 0 {
            let n = r2.last().line_number;
            lemma_wln_unfold(r2, n);
            assert(with_line_number(r2, n).len() > 0);
            assert(with_line_number(r1, n).len() == 0);
        }
        assert(r1 =~= r2);
    } else if r2.len() == 0 {
        let n = r1.last().line_number;
        lemma_wln_unfold(r1, n);
        assert(with_line_number(r1, n).len() > 0);
        assert(with_line_number(r2, n).len() == 0);
    } else {
        let n1 = r1.last().line_number;
        let n2 = r2.last().line_number;
        lemma_wln_unfold(r1, n1);
        assert(with_line_number(r2, n1).len() > 0);
        lemma_wln_member(r2, n1);
        let k2 = choose|k: int| 0 <= k < r2.len() && (#[trigger] r2[k]).line_number == n1;
        assert(n1 <= n2);
        lemma_wln_unfold(r2, n2);
        assert(with_line_number(r1, n2).len() > 0);
        lemma_wln_member(r1, n2);
        let k1 = choose|k: int| 0 <= k < r1.len() && (#[trigger] r1[k]).line_number == n2;
        assert(n2 <= n1);
        lemma_wln_unfold(r2, n1);
        assert(with_line_number(r1, n1).last() == r1.last());
        assert(with_line_number(r2, n1).last() == r2.last());
        assert(r1.last() == r2.last());
        assert forall|n: usize| #[trigger] with_line_number(r1.drop_last(), n) == with_line_number(
            r2.drop_last(),
            n,
        ) by {
            lemma_wln_unfold(r1, n);
            lemma_wln_unfold(r2, n);
            if n == n1 {
                let a = with_line_number(r1.drop_last(), n);
                let b = with_line_number(r2.drop_last(), n);
                assert(a.push(r1.last()) == b.push(r2.last()));
                assert(a.len() == b.len());
                assert forall|i: int| 0 <= i < a.len() implies a[i] == b[i] by {
                    assert(a.push(r1.last())[i] == b.push(r2.last())[i]);
                }
                assert(a =~= b);
            }
        }
        assert forall|i: int, j: int| 0 <= i < j < r1.drop_last().len() implies (
        #[trigger] r1.drop_last()[i]).line_number <= (#[trigger] r1.drop_last()[j]).line_number by {
            assert(r1.drop_last()[i] == r1[i] && r1.drop_last()[j] == r1[j]);
        }
        assert forall|i: int, j: int| 0 <= i < j < r2.drop_last().len() implies (
        #[trigger] r2.drop_last()[i]).line_number <= (#[trigger] r2.drop_last()[j]).line_number by {
            assert(r2.drop_last()[i] == r2[i] && r2.drop_last()[j] == r2[j]);
        }
        lemma_sorted_same_filters_equal(r1.drop_last(), r2.drop_last());
        assert(r1 =~= r1.drop_last().push(r1.last()));
        assert(r2 =~= r2.drop_last().push(r2.last()));
        assert(r1 == r2);
    }
}

/// LAW (determinism of the ctags sort step): the contract of
/// [`ctags_postprocess`] — line-number-sorted, with every per-line-number
/// subsequence preserved — pins the output down completely, so two runs on
/// the same input produce the same list, independent of anything else.
pub proof fn lemma_ctags_sort_deterministic(
    v: Seq<AddressableUsage>,
    r1: Seq<AddressableUsage>,
    r2: Seq<AddressableUsage>,
)
    requires
        sorted_by_line_number(r1),
        sorted_by_line_number(r2),
        forall|n: usize| #[trigger] with_line_number(r1, n) == with_line_number(v, n),
        forall|n: usize| #[trigger] with_line_number(r2, n) == with_line_number(v, n),
    ensures
        r1 == r2,
{
    lemma_sorted_same_filters_equal(r1, r2);
}

} // verus!

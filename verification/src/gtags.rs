//! Post-processing for the gtags (global tag index) backend.
//!
//! The native output order of a gtags query is not useful, so every hit is
//! first given a ranking key `(kind_weight, path, line_number)` and the whole
//! result set is sorted by that key ascending before it is converted to the
//! canonical usage record. Paths are ordered by their UTF-8 bytes, which is
//! the lexicographic order of Rust strings.

use vstd::prelude::*;
use rayon::slice::ParallelSliceMut;
use core::cmp::Ordering;
use crate::usage::AddressableUsage;

verus! {

/// A gtags hit after classification, rendering and filtering: the canonical
/// record's fields plus the relevance weight of its reference kind, kept
/// only until the result set has been sorted.
#[derive(Debug)]
pub struct GtagsUsage {
    /// The rendered text for this usage.
    pub line: String,
    /// Offsets into `line` marking the characters to highlight.
    pub indices: Vec<usize>,
    /// 1-based line number of the usage.
    pub line_number: usize,
    /// Path of the file containing the usage.
    pub path: String,
    /// Relevance of the reference kind: a definition ranks before a plain
    /// reference. Lower weights sort first.
    pub kind_weight: usize,
}

/// Strict lexicographic order on byte sequences; a proper prefix comes first.
pub open spec fn bytes_lt(a: Seq<u8>, b: Seq<u8>) -> bool
    decreases a.len(),
{
    if b.len() == 0 {
        false
    } else if a.len() == 0 {
        true
    } else if a[0] != b[0] {
        a[0] < b[0]
    } else {
        bytes_lt(a.drop_first(), b.drop_first())
    }
}

/// The UTF-8 bytes of a hit's path, the form in which paths are compared.
pub open spec fn path_bytes(g: GtagsUsage) -> Seq<u8> {
    vstd::utf8::encode_utf8(g.path@)
}

/// Strict order on the ranking key `(kind_weight, path, line_number)`,
/// lexicographic over the three components.
pub open spec fn ranking_lt(a: GtagsUsage, b: GtagsUsage) -> bool {
    ||| a.kind_weight < b.kind_weight
    ||| (a.kind_weight == b.kind_weight && bytes_lt(path_bytes(a), path_bytes(b)))
    ||| (a.kind_weight == b.kind_weight && path_bytes(a) == path_bytes(b) && a.line_number
        < b.line_number)
}

/// Two hits carry the same ranking key (their payloads may still differ).
pub open spec fn ranking_key_eq(a: GtagsUsage, b: GtagsUsage) -> bool {
    &&& a.kind_weight == b.kind_weight
    &&& path_bytes(a) == path_bytes(b)
    &&& a.line_number == b.line_number
}

pub open spec fn ranking_le(a: GtagsUsage, b: GtagsUsage) -> bool {
    ranking_lt(a, b) || ranking_key_eq(a, b)
}

/// The sequence is non-decreasing under the ranking key.
pub open spec fn sorted_by_ranking(s: Seq<GtagsUsage>) -> bool {
    forall|i: int, j: int| 0 <= i < j < s.len() ==> ranking_le(#[trigger] s[i], #[trigger] s[j])
}

/// On a common prefix the lexicographic order is decided by the suffixes.
proof fn lemma_bytes_lt_skip(a: Seq<u8>, b: Seq<u8>, i: int)
    requires
        0 <= i <= a.len(),
        i <= b.len(),
        forall|j: int| 0 <= j < i ==> a[j] == b[j],
    ensures
        bytes_lt(a, b) == bytes_lt(a.skip(i), b.skip(i)),
    decreases i,
{
    if i > 0 {
        assert(a.drop_first() =~= a.skip(1));
        assert(b.drop_first() =~= b.skip(1));
        lemma_bytes_lt_skip(a.skip(1), b.skip(1), i - 1);
        assert(a.skip(1).skip(i - 1) =~= a.skip(i));
        assert(b.skip(1).skip(i - 1) =~= b.skip(i));
    } else {
        assert(a.skip(0) =~= a);
        assert(b.skip(0) =~= b);
    }
}

/// Three-way comparison of two byte slices in lexicographic order.
fn bytes_cmp(a: &[u8], b: &[u8]) -> (r: Ordering)
    ensures
        (r == Ordering::Less) == bytes_lt(a@, b@),
        (r == Ordering::Equal) == (a@ == b@),
        (r == Ordering::Greater) == bytes_lt(b@, a@),
{
    let a_len = a.len();
    let b_len = b.len();
    let n = if a_len < b_len {
        a_len
    } else {
        b_len
    };
    for i in iter: 0..n
        invariant
            n <= a@.len(),
            n <= b@.len(),
            forall|j: int| 0 <= j < i ==> a@[j] == b@[j],
    {
        if a[i] < b[i] {
            proof {
                lemma_bytes_lt_skip(a@, b@, i as int);
                lemma_bytes_lt_skip(b@, a@, i as int);
            }
            return Ordering::Less;
        }
        if a[i] > b[i] {
            proof {
                lemma_bytes_lt_skip(a@, b@, i as int);
                lemma_bytes_lt_skip(b@, a@, i as int);
            }
            return Ordering::Greater;
        }
    }
    proof {
        lemma_bytes_lt_skip(a@, b@, n as int);
        lemma_bytes_lt_skip(b@, a@, n as int);
    }
    if a_len < b_len {
        Ordering::Less
    } else if a_len > b_len {
        Ordering::Greater
    } else {
        proof {
            assert(a@ =~= b@);
        }
        Ordering::Equal
    }
}

impl GtagsUsage {
    /// Three-way comparison by the ranking key; payload fields take no part.
    pub fn ranking_cmp(&self, other: &Self) -> (r: Ordering)
        ensures
            (r == Ordering::Less) == ranking_lt(*self, *other),
            (r == Ordering::Equal) == ranking_key_eq(*self, *other),
            (r == Ordering::Greater) == ranking_lt(*other, *self),
    {
        if self.kind_weight < other.kind_weight {
            return Ordering::Less;
        }
        if self.kind_weight > other.kind_weight {
            return Ordering::Greater;
        }
        let pc = bytes_cmp(self.path.as_str().as_bytes(), other.path.as_str().as_bytes());
        match pc {
            Ordering::Less => Ordering::Less,
            Ordering::Greater => Ordering::Greater,
            Ordering::Equal => {
                if self.line_number < other.line_number {
                    Ordering::Less
                } else if self.line_number > other.line_number {
                    Ordering::Greater
                } else {
                    Ordering::Equal
                }
            },
        }
    }

    /// Discard the ranking weight and keep the canonical record.
    pub fn into_addressable_usage(self) -> (r: AddressableUsage)
        ensures
            r == usage_of(self),
    {
        AddressableUsage {
            line: self.line,
            indices: self.indices,
            path: self.path,
            line_number: self.line_number,
        }
    }
}

/// The canonical record a gtags hit turns into once it is sorted.
pub open spec fn usage_of(g: GtagsUsage) -> AddressableUsage {
    AddressableUsage { path: g.path, line_number: g.line_number, line: g.line, indices: g.indices }
}

/// Relies on rayon's `par_sort_unstable_by`: sorts the slice in place
/// according to the comparator, as a permutation of the input. The
/// comparator is this crate's verified `ranking_cmp`, a total order on the
/// ranking key; hits with equal keys may land in any order.
#[verifier::external_body]
fn par_sort_by_ranking(v: &mut Vec<GtagsUsage>)
    ensures
        final(v)@.to_multiset() == old(v)@.to_multiset(),
        sorted_by_ranking(final(v)@),
{
    v.par_sort_unstable_by(|a, b| a.ranking_cmp(b));
}

/// Sort a gtags result set ascending by the ranking key
/// `(kind_weight, path, line_number)`. The result is a permutation of the
/// input and non-decreasing under the key.
pub fn sort_by_ranking_key(v: &mut Vec<GtagsUsage>)
    ensures
        final(v)@.to_multiset() == old(v)@.to_multiset(),
        sorted_by_ranking(final(v)@),
{
    par_sort_by_ranking(v);
}

/// Order a gtags result set by the ranking key and convert it to canonical
/// records: the output is, record for record, the image of a key-sorted
/// permutation of the input.
pub fn gtags_postprocess(hits: Vec<GtagsUsage>) -> (r: Vec<AddressableUsage>)
    ensures
        r@.len() == hits@.len(),
        exists|s: Seq<GtagsUsage>|
            {
                &&& #[trigger] s.to_multiset() == hits@.to_multiset()
                &&& sorted_by_ranking(s)
                &&& r@ == s.map_values(|g: GtagsUsage| usage_of(g))
            },
{
    let mut sorted = hits;
    sort_by_ranking_key(&mut sorted);
    let ghost sorted_seq = sorted@;
    let ghost orig = sorted@;
    let mut out: Vec<AddressableUsage> = Vec::new();
    proof {
        hits@.to_multiset_ensures();
        sorted@.to_multiset_ensures();
    }
    while sorted.len() > 0
        invariant
            sorted@ =~= orig.subrange(orig.len() - sorted@.len(), orig.len() as int),
            out@.len() + sorted@.len() == orig.len(),
            out@ =~= orig.subrange(0, out@.len() as int).map_values(
                |g: GtagsUsage| usage_of(g),
            ),
        decreases sorted@.len(),
    {
        let g = sorted.remove(0);
        let ghost k = out@.len() as int;
        out.push(g.into_addressable_usage());
        proof {
            assert(orig.subrange(0, k + 1).drop_last() =~= orig.subrange(0, k));
            assert(out@ =~= orig.subrange(0, k + 1).map_values(|g: GtagsUsage| usage_of(g)));
        }
    }
    proof {
        assert(orig.subrange(0, orig.len() as int) =~= orig);
        assert(out@ == sorted_seq.map_values(|g: GtagsUsage| usage_of(g)));
        assert(sorted_seq.to_multiset() == hits@.to_multiset());
        assert(sorted_by_ranking(sorted_seq));
    }
    out
}

/// No two hits of `s` share a ranking key.
pub open spec fn distinct_ranking_keys(s: Seq<GtagsUsage>) -> bool {
    forall|i: int, j: int|
        0 <= i < j < s.len() ==> !ranking_key_eq(#[trigger] s[i], #[trigger] s[j])
}

/// The lexicographic byte order never holds in both directions.
proof fn lemma_bytes_lt_asymmetric(a: Seq<u8>, b: Seq<u8>)
    ensures
        !(bytes_lt(a, b) && bytes_lt(b, a)),
    decreases a.len(),
{
    if a.len() > 0 && b.len() > 0 && a[0] == b[0] {
        lemma_bytes_lt_asymmetric(a.drop_first(), b.drop_first());
    }
}

/// Two hits each at most the other under the ranking order share their key.
proof fn lemma_ranking_le_antisymmetric(a: GtagsUsage, b: GtagsUsage)
    ensures
        ranking_le(a, b) && ranking_le(b, a) ==> ranking_key_eq(a, b),
{
    lemma_bytes_lt_asymmetric(path_bytes(a), path_bytes(b));
    lemma_bytes_lt_asymmetric(path_bytes(a), path_bytes(a));
    lemma_bytes_lt_asymmetric(path_bytes(b), path_bytes(b));
}

/// LAW (determinism of the gtags sort step): when no two hits share a
/// ranking key, a key-sorted permutation of the input is unique, so two runs
/// of the sort on the same input produce the same list. Hits that do share
/// the full key `(kind_weight, path, line_number)` while differing in their
/// payload may come out in either order, which is why the law asks for
/// distinct keys.
pub proof fn lemma_ranking_sort_deterministic(r1: Seq<GtagsUsage>, r2: Seq<GtagsUsage>)
    requires
        sorted_by_ranking(r1),
        sorted_by_ranking(r2),
        r1.to_multiset() == r2.to_multiset(),
        distinct_ranking_keys(r1),
    ensures
        r1 == r2,
    decreases r1.len(),
{
    broadcast use vstd::seq_lib::group_to_multiset_ensures;
    broadcast use vstd::multiset::group_multiset_axioms;

    r1.to_multiset_ensures();
    r2.to_multiset_ensures();
    if r1.len() == 0 {
        assert(r2.to_multiset().len() == 0);
        assert(r1 =~= r2);
    } else {
        let x1 = r1.last();
        let x2 = r2.last();
        assert(r1.contains(x1));
        assert(r2.to_multiset().contains(x1));
        assert(r2.contains(x1));
        assert(r2.contains(x2));
        assert(r1.to_multiset().contains(x2));
        assert(r1.contains(x2));
        let i2 = choose|i: int| 0 <= i < r2.len() && r2[i] == x1;
        let i1 = choose|i: int| 0 <= i < r1.len() && r1[i] == x2;
        assert(ranking_le(x1, x2) || x1 == x2) by {
            if i2 < r2.len() - 1 {
                assert(ranking_le(r2[i2], r2[r2.len() - 1]));
            }
        }
        assert(ranking_le(x2, x1) || x1 == x2) by {
            if i1 < r1.len() - 1 {
                assert(ranking_le(r1[i1], r1[r1.len() - 1]));
            }
        }
        lemma_ranking_le_antisymmetric(x1, x2);
        assert(x1 == x2) by {
            if x1 != x2 {
                assert(ranking_key_eq(x1, x2));
                assert(r1[i1] == x2 && r1[r1.len() - 1] == x1);
                if i1 < r1.len() - 1 {
                    assert(!ranking_key_eq(r1[i1], r1[r1.len() - 1]));
                    assert(ranking_key_eq(x2, x1));
                }
            }
        }
        let d1 = r1.drop_last();
        let d2 = r2.drop_last();
        assert(d1.push(x1) =~= r1);
        assert(d2.push(x2) =~= r2);
        vstd::seq_lib::to_multiset_build(d1, x1);
        vstd::seq_lib::to_multiset_build(d2, x2);
        assert(d1.to_multiset().insert(x1) == d2.to_multiset().insert(x1));
        assert forall|y: GtagsUsage| #[trigger] d1.to_multiset().count(y) == d2.to_multiset().count(
            y,
        ) by {
            if y == x1 {
                assert(d1.to_multiset().insert(x1).count(x1) == d1.to_multiset().count(x1) + 1);
                assert(d2.to_multiset().insert(x1).count(x1) == d2.to_multiset().count(x1) + 1);
            } else {
                assert(d1.to_multiset().insert(x1).count(y) == d1.to_multiset().count(y));
                assert(d2.to_multiset().insert(x1).count(y) == d2.to_multiset().count(y));
            }
        }
        assert(d1.to_multiset() =~= d2.to_multiset());
        assert forall|i: int, j: int| 0 <= i < j < d1.len() implies ranking_le(
            #[trigger] d1[i],
            #[trigger] d1[j],
        ) by {
            assert(d1[i] == r1[i] && d1[j] == r1[j]);
        }
        assert forall|i: int, j: int| 0 <= i < j < d2.len() implies ranking_le(
            #[trigger] d2[i],
            #[trigger] d2[j],
        ) by {
            assert(d2[i] == r2[i] && d2[j] == r2[j]);
        }
        assert forall|i: int, j: int| 0 <= i < j < d1.len() implies !ranking_key_eq(
            #[trigger] d1[i],
            #[trigger] d1[j],
        ) by {
            assert(d1[i] == r1[i] && d1[j] == r1[j]);
        }
        lemma_ranking_sort_deterministic(d1, d2);
        assert(r1 == r2);
    }
}

} // verus!

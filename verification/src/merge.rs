//! The merge engine: combines up to three backend result sets into one
//! deduplicated, precedence-ordered list.
//!
//! Precedence is ctags > gtags > regex. A record already surfaced by a
//! higher-precedence backend must not reappear from the regex backend, so
//! every regex record equal (by the full-field equality) to some ctags or
//! gtags record is dropped. Within each tier the tier's own order is kept.

use vstd::prelude::*;
use crate::usage::{usage_eq, AddressableUsage};

verus! {

/// Some record of `s` equals `u` by the full-field equality.
pub open spec fn contains_eq(s: Seq<AddressableUsage>, u: AddressableUsage) -> bool {
    exists|i: int| 0 <= i < s.len() && usage_eq(s[i], u)
}

/// The regex records that survive the merge: those equal to no record of the
/// higher-precedence tiers.
pub open spec fn retained_regex(
    high: Seq<AddressableUsage>,
    regex: Seq<AddressableUsage>,
) -> Seq<AddressableUsage> {
    regex.filter(|u: AddressableUsage| !contains_eq(high, u))
}

/// The higher-precedence portion of the merged list: the ctags records, then
/// the gtags records if that backend ran.
pub open spec fn high_tier(
    ctag: Seq<AddressableUsage>,
    gtags: Option<Seq<AddressableUsage>>,
) -> Seq<AddressableUsage> {
    match gtags {
        Some(g) => ctag + g,
        None => ctag,
    }
}

/// The merged list: the higher tiers in order, then the surviving regex
/// records in their own order.
pub open spec fn merge_spec(
    ctag: Seq<AddressableUsage>,
    gtags: Option<Seq<AddressableUsage>>,
    regex: Seq<AddressableUsage>,
) -> Seq<AddressableUsage> {
    high_tier(ctag, gtags) + retained_regex(high_tier(ctag, gtags), regex)
}

pub open spec fn opt_view(o: Option<Vec<AddressableUsage>>) -> Option<Seq<AddressableUsage>> {
    match o {
        Some(v) => Some(v@),
        None => None,
    }
}

/// Whether `v` holds a record equal to `u` by the full-field equality.
pub fn usages_contain(v: &Vec<AddressableUsage>, u: &AddressableUsage) -> (b: bool)
    ensures
        b == contains_eq(v@, *u),
{
    for i in iter: 0..v.len()
        invariant
            forall|j: int| 0 <= j < i ==> !usage_eq(v@[j], *u),
    {
        let cur: &AddressableUsage = &v[i];
        if cur.eq(u) {
            return true;
        }
    }
    false
}

/// Membership in a concatenation is membership in one of the parts.
proof fn lemma_contains_eq_add(a: Seq<AddressableUsage>, b: Seq<AddressableUsage>, u: AddressableUsage)
    ensures
        contains_eq(a + b, u) == (contains_eq(a, u) || contains_eq(b, u)),
{
    if contains_eq(a, u) {
        let i = choose|i: int| 0 <= i < a.len() && usage_eq(a[i], u);
        assert((a + b)[i] == a[i]);
    }
    if contains_eq(b, u) {
        let i = choose|i: int| 0 <= i < b.len() && usage_eq(b[i], u);
        assert((a + b)[a.len() + i] == b[i]);
    }
    if contains_eq(a + b, u) {
        let i = choose|i: int| 0 <= i < (a + b).len() && usage_eq((a + b)[i], u);
        if i < a.len() {
            assert(a[i] == (a + b)[i]);
        } else {
            assert(b[i - a.len()] == (a + b)[i]);
        }
    }
}

/// Combine the backend results in the order ctags, gtags, regex, dropping
/// every regex record that a higher-precedence backend already surfaced.
pub fn merge_all(
    ctag_results: Vec<AddressableUsage>,
    maybe_gtags_results: Option<Vec<AddressableUsage>>,
    regex_results: Vec<AddressableUsage>,
) -> (r: Vec<AddressableUsage>)
    ensures
        r@ == merge_spec(ctag_results@, opt_view(maybe_gtags_results), regex_results@),
{
    let ghost high_seq = high_tier(ctag_results@, opt_view(maybe_gtags_results));
    let ghost orig_regex = regex_results@;

    let mut kept: Vec<AddressableUsage> = Vec::new();
    let mut rest = regex_results;
    while rest.len() > 0
        invariant
            rest@.len() <= orig_regex.len(),
            rest@ =~= orig_regex.subrange(
                orig_regex.len() - rest@.len(),
                orig_regex.len() as int,
            ),
            kept@ =~= retained_regex(
                high_seq,
                orig_regex.subrange(0, orig_regex.len() - rest@.len()),
            ),
            high_seq == high_tier(ctag_results@, opt_view(maybe_gtags_results)),
        decreases rest@.len(),
    {
        let ghost k = orig_regex.len() - rest@.len();
        let ghost processed = orig_regex.subrange(0, k as int);
        let u = rest.remove(0);
        let in_ctags = usages_contain(&ctag_results, &u);
        let in_gtags = match &maybe_gtags_results {
            Some(g) => usages_contain(g, &u),
            None => false,
        };
        proof {
            if maybe_gtags_results is Some {
                lemma_contains_eq_add(ctag_results@, maybe_gtags_results->0@, u);
            }
            assert((in_ctags || in_gtags) == contains_eq(high_seq, u));
            reveal(Seq::filter);
            assert(rest@ =~= orig_regex.subrange(k + 1, orig_regex.len() as int));
            assert(processed.push(u).drop_last() =~= processed);
            assert(processed.push(u) =~= orig_regex.subrange(0, k + 1));
        }
        if !in_ctags && !in_gtags {
            kept.push(u);
        }
    }

    let mut result = ctag_results;
    match maybe_gtags_results {
        Some(mut g) => {
            result.append(&mut g);
        },
        None => {},
    }
    proof {
        assert(orig_regex.subrange(0, orig_regex.len() as int) =~= orig_regex);
        assert(result@ == high_seq);
    }
    result.append(&mut kept);
    result
}

/// No two records of `s` are equal by the full-field equality.
pub open spec fn distinct_usages(s: Seq<AddressableUsage>) -> bool {
    forall|i: int, j: int| 0 <= i < j < s.len() ==> !usage_eq(#[trigger] s[i], #[trigger] s[j])
}

/// A subsequence chosen by `filter` keeps pairwise-distinct records distinct.
proof fn lemma_filter_distinct(s: Seq<AddressableUsage>, pred: spec_fn(AddressableUsage) -> bool)
    requires
        distinct_usages(s),
    ensures
        distinct_usages(s.filter(pred)),
    decreases s.len(),
{
    reveal(Seq::filter);
    if s.len() > 0 {
        let rest = s.drop_last();
        assert forall|i: int, j: int| 0 <= i < j < rest.len() implies !usage_eq(
            #[trigger] rest[i],
            #[trigger] rest[j],
        ) by {
            assert(rest[i] == s[i] && rest[j] == s[j]);
        }
        lemma_filter_distinct(rest, pred);
        let f = s.filter(pred);
        if pred(s.last()) {
            assert(f == rest.filter(pred).push(s.last()));
            assert forall|i: int, j: int| 0 <= i < j < f.len() implies !usage_eq(
                #[trigger] f[i],
                #[trigger] f[j],
            ) by {
                if j == f.len() - 1 {
                    assert(f[i] == rest.filter(pred)[i]);
                    assert(rest.filter(pred).contains(f[i]));
                    rest.lemma_filter_contains_rev(pred, f[i]);
                    let k = choose|k: int| 0 <= k < rest.len() && rest[k] == f[i];
                    assert(s[k] == f[i] && f[j] == s.last());
                    assert(!usage_eq(s[k], s[s.len() - 1]));
                } else {
                    assert(f[i] == rest.filter(pred)[i] && f[j] == rest.filter(pred)[j]);
                }
            }
        }
    }
}

/// LAW (no duplicates): when each backend's own list is free of duplicate
/// records and the ctags and gtags lists share no record, the merged list
/// holds no two records that are equal by the full-field equality.
/// The merge itself never removes a duplicate inside a higher tier; that is
/// why the tiers' own distinctness is assumed here.
pub proof fn lemma_merge_no_duplicates(
    ctag: Seq<AddressableUsage>,
    gtags: Option<Seq<AddressableUsage>>,
    regex: Seq<AddressableUsage>,
)
    requires
        distinct_usages(ctag),
        gtags matches Some(g) ==> distinct_usages(g),
        distinct_usages(regex),
        gtags matches Some(g) ==> forall|i: int, j: int|
            0 <= i < ctag.len() && 0 <= j < g.len() ==> !usage_eq(
                #[trigger] ctag[i],
                #[trigger] g[j],
            ),
    ensures
        distinct_usages(merge_spec(ctag, gtags, regex)),
{
    let high = high_tier(ctag, gtags);
    assert forall|i: int, j: int| 0 <= i < j < high.len() implies !usage_eq(
        #[trigger] high[i],
        #[trigger] high[j],
    ) by {
        if gtags is Some {
            let g = gtags->0;
            if i < ctag.len() && j >= ctag.len() {
                assert(high[i] == ctag[i] && high[j] == g[j - ctag.len()]);
            } else if i >= ctag.len() {
                assert(high[i] == g[i - ctag.len()] && high[j] == g[j - ctag.len()]);
            } else {
                assert(high[i] == ctag[i] && high[j] == ctag[j]);
            }
        }
    }
    let pred = |u: AddressableUsage| !contains_eq(high, u);
    let retained = regex.filter(pred);
    lemma_filter_distinct(regex, pred);
    let merged = merge_spec(ctag, gtags, regex);
    assert forall|i: int, j: int| 0 <= i < j < merged.len() implies !usage_eq(
        #[trigger] merged[i],
        #[trigger] merged[j],
    ) by {
        if i < high.len() && j >= high.len() {
            assert(merged[i] == high[i] && merged[j] == retained[j - high.len()]);
            regex.lemma_filter_pred(pred, j - high.len());
            if usage_eq(merged[i], merged[j]) {
                assert(contains_eq(high, merged[j]));
            }
        } else if i >= high.len() {
            assert(merged[i] == retained[i - high.len()] && merged[j] == retained[j - high.len()]);
        } else {
            assert(merged[i] == high[i] && merged[j] == high[j]);
        }
    }
}

/// LAW (precedence): a record that a higher-precedence backend surfaced
/// appears in the merged list at a higher-tier position, and no surviving
/// regex record equals it — together with the no-duplicates law it appears
/// exactly once, attributed to the higher tier.
pub proof fn lemma_merge_precedence(
    ctag: Seq<AddressableUsage>,
    gtags: Option<Seq<AddressableUsage>>,
    regex: Seq<AddressableUsage>,
    u: AddressableUsage,
)
    requires
        contains_eq(high_tier(ctag, gtags), u),
    ensures
        exists|i: int|
            0 <= i < high_tier(ctag, gtags).len() && usage_eq(
                #[trigger] merge_spec(ctag, gtags, regex)[i],
                u,
            ),
        forall|i: int|
            high_tier(ctag, gtags).len() <= i < merge_spec(ctag, gtags, regex).len()
                ==> !usage_eq(#[trigger] merge_spec(ctag, gtags, regex)[i], u),
{
    let high = high_tier(ctag, gtags);
    let pred = |x: AddressableUsage| !contains_eq(high, x);
    let retained = regex.filter(pred);
    let merged = merge_spec(ctag, gtags, regex);
    let k = choose|k: int| 0 <= k < high.len() && usage_eq(high[k], u);
    assert(merged[k] == high[k]);
    assert forall|i: int| high.len() <= i < merged.len() implies !usage_eq(
        #[trigger] merged[i],
        u,
    ) by {
        assert(merged[i] == retained[i - high.len()]);
        regex.lemma_filter_pred(pred, i - high.len());
        if usage_eq(merged[i], u) {
            assert(usage_eq(high[k], merged[i]));
            assert(contains_eq(high, merged[i]));
        }
    }
}

/// LAW (determinism): the merged list is a function of the three inputs
/// alone — two merges of the same backend outputs are the same list,
/// whatever the order in which the backends completed.
pub proof fn lemma_merge_deterministic(
    ctag: Seq<AddressableUsage>,
    gtags: Option<Seq<AddressableUsage>>,
    regex: Seq<AddressableUsage>,
    r1: Seq<AddressableUsage>,
    r2: Seq<AddressableUsage>,
)
    requires
        r1 == merge_spec(ctag, gtags, regex),
        r2 == merge_spec(ctag, gtags, regex),
    ensures
        r1 == r2,
{
}

} // verus!

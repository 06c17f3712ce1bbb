use dumb_jump::ctags::ctags_postprocess;
use dumb_jump::engine::{SearchEngine, SearchError};
use dumb_jump::gtags::{gtags_postprocess, GtagsUsage};
use dumb_jump::merge::{merge_all, usages_contain};
use dumb_jump::query::{keyword_ignorecase, QueryInfo, QueryType, SearchingWorker};
use dumb_jump::usage::{AddressableUsage, Usages};

fn usage(path: &str, line_number: usize, line: &str, indices: Vec<usize>) -> AddressableUsage {
    AddressableUsage {
        path: path.to_string(),
        line_number,
        line: line.to_string(),
        indices,
    }
}

fn gtags_usage(kind_weight: usize, path: &str, line_number: usize, line: &str) -> GtagsUsage {
    GtagsUsage {
        line: line.to_string(),
        indices: vec![],
        line_number,
        path: path.to_string(),
        kind_weight,
    }
}

fn worker(keyword: &str) -> SearchingWorker {
    SearchingWorker {
        cwd: ".".to_string(),
        extension: "rs".to_string(),
        query_info: QueryInfo {
            keyword: keyword.to_string(),
            query_type: QueryType::Definition,
        },
    }
}

#[test]
fn scenario_tag_and_regex_share_a_record() {
    // The same record surfaces from both ctags and regex: one copy survives,
    // in the tag tier's position, ahead of the regex-only record.
    let shared = usage("a.rs", 10, "fn shared()", vec![3]);
    let ctags = vec![shared.duplicate()];
    let regex = vec![shared.duplicate(), usage("b.rs", 3, "shared()", vec![0])];
    let engine = SearchEngine::CtagsAndRegex;
    let merged = engine
        .conclude(Some(Ok(ctags)), None, Some(Ok(regex)))
        .unwrap()
        .into_vec();
    assert_eq!(merged.len(), 2);
    assert_eq!(merged[0], usage("a.rs", 10, "fn shared()", vec![3]));
    assert_eq!(merged[1], usage("b.rs", 3, "shared()", vec![0]));
}

#[test]
fn scenario_fallback_on_unavailable_backend() {
    // Under the fallback strategy a failed tag branch yields exactly the
    // regex branch's output.
    let regex = vec![usage("x.rs", 1, "x", vec![]), usage("y.rs", 2, "y", vec![])];
    let engine = SearchEngine::CtagsElseRegex;
    let tag_outcome: Result<Vec<AddressableUsage>, SearchError> =
        Err(SearchError::BackendUnavailable);
    assert!(SearchEngine::fallback_tries_regex(&tag_outcome));
    let merged = engine
        .conclude(Some(tag_outcome), None, Some(Ok(regex)))
        .unwrap()
        .into_vec();
    assert_eq!(
        merged,
        vec![usage("x.rs", 1, "x", vec![]), usage("y.rs", 2, "y", vec![])]
    );
}

#[test]
fn scenario_gtags_sorted_by_kind_weight() {
    // A lighter kind weight ranks first whatever order the backend returned.
    let hits = vec![gtags_usage(2, "x", 5, "ref x"), gtags_usage(1, "y", 1, "def y")];
    let sorted = gtags_postprocess(hits);
    assert_eq!(sorted.len(), 2);
    assert_eq!(sorted[0], usage("y", 1, "def y", vec![]));
    assert_eq!(sorted[1], usage("x", 5, "ref x", vec![]));
}

#[test]
fn scenario_all_backends_empty() {
    // Three empty lists merge to an empty list, not an error.
    let engine = SearchEngine::All;
    let r = engine
        .conclude(Some(Ok(vec![])), Some(Ok(vec![])), Some(Ok(vec![])))
        .unwrap();
    assert!(r.is_empty());
    assert_eq!(r.len(), 0);
}

#[test]
fn fallback_on_empty_tag_result_uses_regex() {
    // "Succeeded but empty" triggers the fallback exactly like a failure.
    let empty_tags: Result<Vec<AddressableUsage>, SearchError> = Ok(vec![]);
    assert!(SearchEngine::fallback_tries_regex(&empty_tags));
    let regex = vec![usage("r.rs", 7, "r", vec![1, 2])];
    let engine = SearchEngine::CtagsElseRegex;
    let merged = engine
        .conclude(Some(empty_tags), None, Some(Ok(regex)))
        .unwrap()
        .into_vec();
    assert_eq!(merged, vec![usage("r.rs", 7, "r", vec![1, 2])]);
}

#[test]
fn fallback_with_nonempty_tags_skips_regex() {
    // A non-empty tag result is returned untouched; the regex branch never
    // starts.
    let tags = vec![usage("t.rs", 4, "t", vec![])];
    assert!(!SearchEngine::fallback_tries_regex(&Ok(vec![usage(
        "t.rs",
        4,
        "t",
        vec![]
    )])));
    let engine = SearchEngine::CtagsElseRegex;
    let merged = engine.conclude(Some(Ok(tags)), None, None).unwrap().into_vec();
    assert_eq!(merged, vec![usage("t.rs", 4, "t", vec![])]);
}

#[test]
fn fallback_propagates_regex_error() {
    let engine = SearchEngine::CtagsElseRegex;
    let r = engine.conclude(
        Some(Err(SearchError::BackendUnavailable)),
        None,
        Some(Err(SearchError::BackendExecutionFailed)),
    );
    assert_eq!(r.err(), Some(SearchError::BackendExecutionFailed));
}

#[test]
fn single_backend_errors_propagate() {
    let r = SearchEngine::Ctags.conclude(Some(Err(SearchError::BackendUnavailable)), None, None);
    assert_eq!(r.err(), Some(SearchError::BackendUnavailable));
    let r = SearchEngine::Regex.conclude(None, None, Some(Err(SearchError::BackendExecutionFailed)));
    assert_eq!(r.err(), Some(SearchError::BackendExecutionFailed));
}

#[test]
fn single_backend_results_pass_through() {
    let tags = vec![usage("t.rs", 9, "t", vec![0])];
    let r = SearchEngine::Ctags.conclude(Some(Ok(tags)), None, None).unwrap();
    assert_eq!(r.into_vec(), vec![usage("t.rs", 9, "t", vec![0])]);
    let rx = vec![usage("r.rs", 2, "r", vec![])];
    let r = SearchEngine::Regex.conclude(None, None, Some(Ok(rx))).unwrap();
    assert_eq!(r.into_vec(), vec![usage("r.rs", 2, "r", vec![])]);
}

#[test]
fn failed_branches_contribute_nothing_in_concurrent_strategies() {
    let regex = vec![usage("only.rs", 1, "only", vec![])];
    let merged = SearchEngine::CtagsAndRegex
        .conclude(Some(Err(SearchError::BackendExecutionFailed)), None, Some(Ok(regex)))
        .unwrap()
        .into_vec();
    assert_eq!(merged, vec![usage("only.rs", 1, "only", vec![])]);

    let ctags = vec![usage("c.rs", 2, "c", vec![])];
    let merged = SearchEngine::All
        .conclude(
            Some(Ok(ctags)),
            Some(Err(SearchError::BackendUnavailable)),
            Some(Err(SearchError::BackendExecutionFailed)),
        )
        .unwrap()
        .into_vec();
    assert_eq!(merged, vec![usage("c.rs", 2, "c", vec![])]);
}

#[test]
fn ctags_sort_orders_by_line_number() {
    let hits = vec![
        usage("m.rs", 30, "impl", vec![]),
        usage("m.rs", 10, "def", vec![]),
        usage("m.rs", 20, "use", vec![]),
    ];
    let sorted = ctags_postprocess(hits);
    let line_numbers: Vec<usize> = sorted.iter().map(|u| u.line_number).collect();
    assert_eq!(line_numbers, vec![10, 20, 30]);
}

#[test]
fn ctags_sort_is_stable_on_equal_line_numbers() {
    let hits = vec![
        usage("b.rs", 5, "second file", vec![]),
        usage("a.rs", 5, "first file", vec![]),
        usage("c.rs", 1, "front", vec![]),
    ];
    let sorted = ctags_postprocess(hits);
    assert_eq!(sorted[0], usage("c.rs", 1, "front", vec![]));
    // The two line-5 hits keep the backend's order.
    assert_eq!(sorted[1], usage("b.rs", 5, "second file", vec![]));
    assert_eq!(sorted[2], usage("a.rs", 5, "first file", vec![]));
}

#[test]
fn gtags_sort_breaks_ties_by_path_then_line() {
    let hits = vec![
        gtags_usage(1, "b.rs", 1, "w"),
        gtags_usage(1, "a.rs", 9, "x"),
        gtags_usage(1, "a.rs", 2, "y"),
        gtags_usage(1, "ab.rs", 1, "z"),
    ];
    let sorted = gtags_postprocess(hits);
    assert_eq!(sorted[0], usage("a.rs", 2, "y", vec![]));
    assert_eq!(sorted[1], usage("a.rs", 9, "x", vec![]));
    // "ab.rs" sorts after "a.rs" ('b' > '.') and before "b.rs".
    assert_eq!(sorted[2], usage("ab.rs", 1, "z", vec![]));
    assert_eq!(sorted[3], usage("b.rs", 1, "w", vec![]));
}

#[test]
fn merge_keeps_differently_rendered_records_apart() {
    // Same location, different rendered line: both survive, because the
    // dedup key is the full record.
    let ctags = vec![usage("a.rs", 10, "[tag] fn f()", vec![])];
    let regex = vec![usage("a.rs", 10, "fn f()", vec![])];
    let merged = merge_all(ctags, None, regex);
    assert_eq!(merged.len(), 2);
}

#[test]
fn merge_drops_regex_records_seen_in_either_higher_tier() {
    let ctags = vec![usage("c.rs", 1, "c", vec![])];
    let gtags = vec![usage("g.rs", 2, "g", vec![])];
    let regex = vec![
        usage("c.rs", 1, "c", vec![]),
        usage("g.rs", 2, "g", vec![]),
        usage("r.rs", 3, "r", vec![]),
    ];
    let merged = merge_all(ctags, Some(gtags), regex);
    assert_eq!(
        merged,
        vec![
            usage("c.rs", 1, "c", vec![]),
            usage("g.rs", 2, "g", vec![]),
            usage("r.rs", 3, "r", vec![]),
        ]
    );
}

#[test]
fn merge_respects_indices_in_the_dedup_key() {
    // Same path, line number and text, but different highlight offsets: not
    // duplicates.
    let ctags = vec![usage("a.rs", 1, "x", vec![0])];
    let regex = vec![usage("a.rs", 1, "x", vec![1])];
    let merged = merge_all(ctags, None, regex);
    assert_eq!(merged.len(), 2);
}

#[test]
fn usages_contain_uses_full_field_equality() {
    let v = vec![usage("a.rs", 1, "x", vec![0])];
    assert!(usages_contain(&v, &usage("a.rs", 1, "x", vec![0])));
    assert!(!usages_contain(&v, &usage("a.rs", 1, "x", vec![1])));
    assert!(!usages_contain(&v, &usage("a.rs", 2, "x", vec![0])));
    assert!(!usages_contain(&v, &usage("b.rs", 1, "x", vec![0])));
    assert!(!usages_contain(&v, &usage("a.rs", 1, "y", vec![0])));
}

#[test]
fn ignorecase_follows_keyword_case() {
    assert!(keyword_ignorecase("foobar"));
    assert!(!keyword_ignorecase("fooBar"));
    assert!(!keyword_ignorecase("F"));
    assert!(keyword_ignorecase(""));
    // Non-ASCII lowercase characters count as lowercase too.
    assert!(keyword_ignorecase("f\u{3c0}"));
    assert!(!keyword_ignorecase("\u{3a0}"));
    // An underscore is not a lowercase character, so such a keyword asks for
    // an exact-case search.
    assert!(!keyword_ignorecase("lowercase_word"));
    let w = worker("lowercaseword");
    assert!(w.ignorecase());
    let w = worker("CamelCase");
    assert!(!w.ignorecase());
}

#[test]
fn usages_wrapper_reports_its_contents() {
    let u = Usages::new(vec![usage("a.rs", 1, "x", vec![]), usage("b.rs", 2, "y", vec![])]);
    assert_eq!(u.len(), 2);
    assert!(!u.is_empty());
    assert_eq!(*u.get(0), usage("a.rs", 1, "x", vec![]));
    assert_eq!(*u.get(1), usage("b.rs", 2, "y", vec![]));
    let empty = Usages::new(vec![]);
    assert!(empty.is_empty());
}

//! The engine selector: a closed set of strategies, fixed per query, that
//! decides which backends to consult and how to react to a failing or empty
//! branch.
//!
//! The caller (an async orchestration layer outside this crate) runs the
//! backends the strategy asks for — concurrently where the strategy allows
//! it — and hands each branch's outcome to [`SearchEngine::conclude`], which
//! owns every decision: error propagation in the single-backend strategies,
//! downgrading a failed branch to an empty contribution in the multi-backend
//! ones, and the precedence merge. The fallback strategy is sequential: the
//! regex branch runs only once the tag branch's outcome is known, and only
//! when [`SearchEngine::fallback_tries_regex`] says so.

use vstd::prelude::*;
use crate::merge::{merge_all, merge_spec, opt_view};
use crate::usage::{AddressableUsage, Usages};

verus! {

/// Why a backend produced no result list. An empty list is not an error.
#[derive(Debug, Clone, Copy, PartialEq, Eq, Structural)]
pub enum SearchError {
    /// The backend's index is missing or uninitialized — expected for the
    /// gtags backend before its first explicit initialization.
    BackendUnavailable,
    /// A process or I/O failure while the backend ran.
    BackendExecutionFailed,
}

/// One backend branch's outcome as the orchestration layer reports it.
pub type BackendOutcome = Result<Vec<AddressableUsage>, SearchError>;

/// The five dispatch strategies. Each search engine has its own advantages
/// and disadvantages — ctags needs no initialization but knows only
/// definitions, gtags also knows references but must be initialized
/// explicitly, a regex scan always works but is slow and less accurate — so
/// the strategies combine them rather than crown one of them.
#[derive(Debug, Clone, Copy, PartialEq, Eq, Structural)]
pub enum SearchEngine {
    /// Run ctags only; its error propagates.
    Ctags,
    /// Run the regex scan only; its error propagates.
    Regex,
    /// Run ctags and regex concurrently and merge, treating a failed branch
    /// as empty.
    CtagsAndRegex,
    /// Run ctags; fall back to regex when ctags fails or finds nothing.
    CtagsElseRegex,
    /// Run all three concurrently and merge, treating failed ctags or regex
    /// branches as empty and a failed gtags branch as absent.
    All,
}

/// The records a branch contributes to a merge: its list on success, nothing
/// on failure.
pub open spec fn ok_or_empty(r: BackendOutcome) -> Seq<AddressableUsage> {
    match r {
        Ok(v) => v@,
        Err(_) => Seq::empty(),
    }
}

/// The gtags branch's contribution: present on success, absent on failure.
pub open spec fn ok_view(r: BackendOutcome) -> Option<Seq<AddressableUsage>> {
    match r {
        Ok(v) => Some(v@),
        Err(_) => None,
    }
}

/// The fallback condition: the tag branch failed, or succeeded with an empty
/// list. "Succeeded but empty" counts as failed because an empty result from
/// a possibly stale index is indistinguishable in value from no index.
pub open spec fn spec_fallback_tries_regex(tag_outcome: BackendOutcome) -> bool {
    tag_outcome is Err || ok_or_empty(tag_outcome).len() == 0
}

fn unwrap_or_empty(r: BackendOutcome) -> (v: Vec<AddressableUsage>)
    ensures
        v@ == ok_or_empty(r),
{
    match r {
        Ok(v) => v,
        Err(_) => Vec::new(),
    }
}

impl SearchEngine {
    /// The strategies that consult the ctags backend first.
    pub open spec fn wants_ctags(self) -> bool {
        match self {
            SearchEngine::Ctags => true,
            SearchEngine::Regex => false,
            SearchEngine::CtagsAndRegex => true,
            SearchEngine::CtagsElseRegex => true,
            SearchEngine::All => true,
        }
    }

    /// Only the all-engines strategy consults the gtags backend.
    pub open spec fn wants_gtags(self) -> bool {
        self is All
    }

    /// Whether the regex backend's outcome must be at hand when the strategy
    /// concludes, given the ctags outcome (if any). Under the fallback
    /// strategy the regex branch must not have been started unless the tag
    /// branch failed or came back empty.
    pub open spec fn wants_regex(self, ctags_outcome: Option<BackendOutcome>) -> bool {
        match self {
            SearchEngine::Ctags => false,
            SearchEngine::Regex => true,
            SearchEngine::CtagsAndRegex => true,
            SearchEngine::CtagsElseRegex => ctags_outcome matches Some(c)
                && spec_fallback_tries_regex(c),
            SearchEngine::All => true,
        }
    }

    /// Decide, after the tag branch of the fallback strategy, whether the
    /// regex branch runs: it does exactly when the tag branch failed or
    /// returned an empty list.
    pub fn fallback_tries_regex(tag_outcome: &BackendOutcome) -> (b: bool)
        ensures
            b == spec_fallback_tries_regex(*tag_outcome),
    {
        match tag_outcome {
            Err(_) => true,
            Ok(v) => v.len() == 0,
        }
    }

    /// Turn the reported branch outcomes into the query's single terminal
    /// outcome. Single-backend strategies propagate their backend's error
    /// verbatim; multi-backend strategies downgrade a failing branch to an
    /// empty contribution and never fail; the fallback strategy returns the
    /// tag list untouched when it is non-empty, and otherwise exactly what
    /// the regex branch produced.
    pub fn conclude(
        &self,
        ctags_outcome: Option<BackendOutcome>,
        gtags_outcome: Option<BackendOutcome>,
        regex_outcome: Option<BackendOutcome>,
    ) -> (r: Result<Usages, SearchError>)
        requires
            self.wants_ctags() <==> ctags_outcome is Some,
            self.wants_gtags() <==> gtags_outcome is Some,
            self.wants_regex(ctags_outcome) <==> regex_outcome is Some,
        ensures
            *self is Ctags ==> match ctags_outcome->0 {
                Ok(v) => r matches Ok(us) && us@ == v@,
                Err(e) => r == Err::<Usages, SearchError>(e),
            },
            *self is Regex ==> match regex_outcome->0 {
                Ok(v) => r matches Ok(us) && us@ == v@,
                Err(e) => r == Err::<Usages, SearchError>(e),
            },
            *self is CtagsAndRegex ==> (r matches Ok(us) && us@ == merge_spec(
                ok_or_empty(ctags_outcome->0),
                None,
                ok_or_empty(regex_outcome->0),
            )),
            *self is CtagsElseRegex ==> if spec_fallback_tries_regex(ctags_outcome->0) {
                match regex_outcome->0 {
                    Ok(v) => r matches Ok(us) && us@ == v@,
                    Err(e) => r == Err::<Usages, SearchError>(e),
                }
            } else {
                r matches Ok(us) && us@ == ok_or_empty(ctags_outcome->0)
            },
            *self is All ==> (r matches Ok(us) && us@ == merge_spec(
                ok_or_empty(ctags_outcome->0),
                ok_view(gtags_outcome->0),
                ok_or_empty(regex_outcome->0),
            )),
    {
        match self {
            SearchEngine::Ctags => {
                match ctags_outcome.unwrap() {
                    Ok(v) => Ok(Usages::new(v)),
                    Err(e) => Err(e),
                }
            },
            SearchEngine::Regex => {
                match regex_outcome.unwrap() {
                    Ok(v) => Ok(Usages::new(v)),
                    Err(e) => Err(e),
                }
            },
            SearchEngine::CtagsAndRegex => {
                let ctag_results = unwrap_or_empty(ctags_outcome.unwrap());
                let regex_results = unwrap_or_empty(regex_outcome.unwrap());
                Ok(Usages::new(merge_all(ctag_results, None, regex_results)))
            },
            SearchEngine::CtagsElseRegex => {
                match regex_outcome {
                    Some(Ok(v)) => Ok(Usages::new(v)),
                    Some(Err(e)) => Err(e),
                    None => match ctags_outcome.unwrap() {
                        Ok(v) => Ok(Usages::new(v)),
                        Err(e) => Err(e),
                    },
                }
            },
            SearchEngine::All => {
                let ctag_results = unwrap_or_empty(ctags_outcome.unwrap());
                let gtags_results = match gtags_outcome.unwrap() {
                    Ok(v) => Some(v),
                    Err(_) => None,
                };
                let regex_results = unwrap_or_empty(regex_outcome.unwrap());
                let merged = merge_all(ctag_results, gtags_results, regex_results);
                proof {
                    assert(opt_view(
                        match gtags_outcome->0 {
                            Ok(v) => Some(v),
                            Err(_) => None::<Vec<AddressableUsage>>,
                        },
                    ) == ok_view(gtags_outcome->0));
                }
                Ok(Usages::new(merged))
            },
        }
    }
}

} // verus!

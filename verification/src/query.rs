//! The per-query context handed to every backend, and the small piece of
//! query analysis this core owns: deciding whether the search is
//! case-insensitive.

use vstd::prelude::*;

verus! {

/// Whether the tag-index lookup is restricted to definitions or may also
/// return references.
#[derive(Debug, Clone, Copy, PartialEq, Eq, Structural)]
pub enum QueryType {
    /// Definition-only tag lookup.
    Definition,
    /// Reference-aware tag lookup.
    Reference,
}

/// What is being searched for: the keyword and the flavour of tag lookup it
/// asks for. The user-supplied filtering predicate that narrows raw hits is
/// applied by the backend adapters and is not part of this context.
#[derive(Debug)]
pub struct QueryInfo {
    /// The symbol to search for. Expected to be non-empty.
    pub keyword: String,
    /// Consumed by the tag-index backend only.
    pub query_type: QueryType,
}

/// Context for performing one search. Immutable once constructed; each
/// backend consumes its own copy, so concurrent backends share no state.
#[derive(Debug)]
pub struct SearchingWorker {
    /// Directory the search is rooted at.
    pub cwd: String,
    /// Source file extension, used for language inference and for weighting
    /// gtags reference kinds.
    pub extension: String,
    pub query_info: QueryInfo,
}

/// Whether a character is lowercase.
pub uninterp spec fn is_lowercase(c: char) -> bool;

/// Relies on `char::is_lowercase`: the result depends on the character
/// alone.
#[verifier::external_body]
fn char_is_lowercase(c: char) -> (r: bool)
    ensures
        r == is_lowercase(c),
{
    c.is_lowercase()
}

/// A keyword made up solely of lowercase characters asks for a
/// case-insensitive search; any uppercase character makes it exact.
pub fn keyword_ignorecase(keyword: &str) -> (r: bool)
    ensures
        r == (forall|i: int| 0 <= i < keyword@.len() ==> is_lowercase(#[trigger] keyword@[i])),
{
    let mut all_lower = true;
    for c in it: keyword.chars()
        invariant
            it.seq() == keyword@,
            all_lower == (forall|j: int| 0 <= j < it.index() ==> is_lowercase(#[trigger] keyword@[j])),
    {
        all_lower = all_lower && char_is_lowercase(c);
    }
    all_lower
}

impl SearchingWorker {
    /// Whether this query's keyword asks for a case-insensitive search.
    pub fn ignorecase(&self) -> (r: bool)
        ensures
            r == (forall|i: int|
                0 <= i < self.query_info.keyword@.len() ==> is_lowercase(
                    #[trigger] self.query_info.keyword@[i],
                )),
    {
        keyword_ignorecase(self.query_info.keyword.as_str())
    }
}

} // verus!

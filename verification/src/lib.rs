//! Dispatch-and-merge core of a code-navigation "find usages" feature.
//!
//! Several imperfect search backends (a ctags index, a gtags cross-reference
//! database, a plain regex scan) each produce a list of usage records; this
//! crate owns the logic that reconciles them: the per-backend ordering rules,
//! the precedence-based merge that removes duplicate records, and the
//! strategy that decides which backends to consult and how to react to a
//! failing or empty branch. The backends themselves (process invocation,
//! file-system scanning, rendering of matched lines) live outside this crate.

pub mod ctags;
pub mod engine;
pub mod gtags;
pub mod merge;
pub mod query;
pub mod usage;

//! Shell-style pattern matching through the `glob` crate.

use vstd::prelude::*;

verus! {

/// Whether `glob::Pattern::new` accepts a pattern.
pub uninterp spec fn glob_pattern_valid(pattern: Seq<char>) -> bool;

/// What `glob::Pattern::matches` answers for a pattern and a text.
pub uninterp spec fn glob_pattern_matches(pattern: Seq<char>, text: Seq<char>) -> bool;

/// Compiles `pattern` with `glob::Pattern::new` and, when it compiles, tests
/// `text` with `Pattern::matches` (default match options).
///
/// Trusted: the result is `None` exactly when compilation fails, a function of
/// the pattern alone (`glob_pattern_valid`); otherwise the match answer, a
/// function of the pattern and the text (`glob_pattern_matches`). Neither call
/// panics.
#[verifier::external_body]
pub(crate) fn glob_match(pattern: &str, text: &str) -> (r: Option<bool>)
    ensures
        r is Some <==> glob_pattern_valid(pattern@),
        r matches Some(b) ==> b == glob_pattern_matches(pattern@, text@),
{
    match glob::Pattern::new(pattern) {
        Ok(p) => Some(p.matches(text)),
        Err(_) => None,
    }
}

/// A compiled pattern that matches `text`.
pub open spec fn glob_hit(pattern: Seq<char>, text: Seq<char>) -> bool {
    glob_pattern_valid(pattern) && glob_pattern_matches(pattern, text)
}

/// Whether `pattern` compiles and matches `text`.
pub fn glob_hits(pattern: &str, text: &str) -> (r: bool)
    ensures
        r == glob_hit(pattern@, text@),
{
    match glob_match(pattern, text) {
        Some(b) => b,
        None => false,
    }
}

} // verus!

//! Regular-expression patterns of window rules, matched through the `regex` crate.
//!
//! A pattern is kept as its source text; the `regex` crate compiles it when a
//! match is asked for. Whether a pattern compiles, the error text when it does
//! not, and whether it matches a text are functions of the pattern and text
//! alone, and are named below.

use vstd::prelude::*;

verus! {

/// What `regex::Regex::new` gives for `pattern`: `Ok` when it accepts the pattern
/// (syntax and default size limit), else the text of its `regex::Error` (its
/// `Display`).
pub uninterp spec fn regex_new(pattern: Seq<char>) -> Result<(), Seq<char>>;

/// Whether `regex::Regex::new` accepts `pattern`.
pub open spec fn regex_compiles(pattern: Seq<char>) -> bool {
    regex_new(pattern) is Ok
}

/// The error text for a pattern that `regex::Regex::new` rejects.
pub open spec fn regex_error_text(pattern: Seq<char>) -> Seq<char> {
    match regex_new(pattern) {
        Ok(_) => Seq::empty(),
        Err(m) => m,
    }
}

/// Whether the compiled `pattern` finds a match anywhere in `text`
/// (`regex::Regex::is_match`).
pub uninterp spec fn regex_finds(pattern: Seq<char>, text: Seq<char>) -> bool;

/// A pattern matches a text when it compiles and the compiled regex finds a match.
pub open spec fn pattern_matches(pattern: Seq<char>, text: Seq<char>) -> bool {
    regex_compiles(pattern) && regex_finds(pattern, text)
}

/// Calls `regex::Regex::new` on `pattern`; on failure, returns the error's text.
#[verifier::external_body]
pub(crate) fn regex_check(pattern: &str) -> (r: Result<(), String>)
    ensures
        match regex_new(pattern@) {
            Ok(_) => r is Ok,
            Err(m) => r matches Err(t) && t@ == m,
        },
{
    match regex::Regex::new(pattern) {
        Ok(_) => Ok(()),
        Err(e) => Err(e.to_string()),
    }
}

/// Compiles `pattern` with `regex::Regex::new` and calls `regex::Regex::is_match`
/// on `text`.
#[verifier::external_body]
pub(crate) fn regex_is_match(pattern: &str, text: &str) -> (m: bool)
    requires
        regex_compiles(pattern@),
    ensures
        m == regex_finds(pattern@, text@),
{
    match regex::Regex::new(pattern) {
        Ok(re) => re.is_match(text),
        Err(_) => false,
    }
}

/// Whether `pattern` compiles and matches `text`.
pub fn matches_text(pattern: &str, text: &str) -> (m: bool)
    ensures
        m == pattern_matches(pattern@, text@),
{
    match regex_check(pattern) {
        Ok(()) => regex_is_match(pattern, text),
        Err(_) => false,
    }
}

/// Whether `pattern` compiles; on failure, the `regex` crate's error text.
pub fn check_pattern(pattern: &str) -> (r: Result<(), String>)
    ensures
        r is Ok <==> regex_compiles(pattern@),
        r matches Err(m) ==> m@ == regex_error_text(pattern@),
{
    regex_check(pattern)
}

} // verus!

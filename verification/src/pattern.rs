//! Trusted declarations for the regular-expression engine.
//!
//! The disk and network collectors hold a compiled exclusion pattern.  The
//! `regex` crate's types are declared opaque here; `regex_pattern` names the
//! pattern string a compiled regex stores, and `regex_matches` names the
//! result of matching, which is a pure function of the pattern and the text.

use vstd::prelude::*;

verus! {

#[verifier::external_type_specification]
#[verifier::external_body]
pub struct ExRegex(regex::Regex);

#[verifier::external_type_specification]
#[verifier::external_body]
pub struct ExRegexError(regex::Error);

/// The pattern string a compiled regex was built from.
pub uninterp spec fn regex_pattern(re: regex::Regex) -> Seq<char>;

/// Whether `pattern` compiles: it is valid regular-expression syntax and
/// within the default size limit.
pub uninterp spec fn pattern_ok(pattern: Seq<char>) -> bool;

/// Whether the regular expression denoted by `pattern` matches anywhere in
/// `text`.
pub uninterp spec fn regex_matches(pattern: Seq<char>, text: Seq<char>) -> bool;

/// Relies on `regex::Regex::new`: whether compilation succeeds depends on
/// the pattern string alone (invalid syntax or exceeding the default size
/// limit fails, everything else succeeds), and the compiled regex keeps
/// exactly the pattern string it was given (see `Regex::as_str`).
#[verifier::external_body]
pub fn compile_pattern(pattern: &str) -> (r: Result<regex::Regex, regex::Error>)
    ensures
        r is Ok <==> pattern_ok(pattern@),
        r is Ok ==> regex_pattern(r->Ok_0) == pattern@,
{
    regex::Regex::new(pattern)
}

/// Relies on `regex::Regex::is_match`: the outcome of a match depends only
/// on the compiled pattern and the haystack.
#[verifier::external_body]
pub fn pattern_matches(re: &regex::Regex, text: &str) -> (r: bool)
    ensures
        r == regex_matches(regex_pattern(*re), text@),
{
    re.is_match(text)
}

} // verus!

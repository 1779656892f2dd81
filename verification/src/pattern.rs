//! Patterns for device names.

use regex::Error as PatternError;
use vstd::prelude::*;

verus! {

/// `regex::Regex`: a compiled pattern.
#[verifier::external_type_specification]
#[verifier::external_body]
pub struct ExRegex(regex::Regex);

/// `regex::Error`: why a pattern does not compile.
#[verifier::external_type_specification]
#[verifier::external_body]
pub struct ExRegexError(PatternError);

/// What `regex::Regex::new` returns for a pattern.
pub uninterp spec fn regex_new(pattern: Seq<char>) -> std::result::Result<
    regex::Regex,
    PatternError,
>;

/// What `regex::Regex::is_match` returns for a compiled pattern and a text.
pub uninterp spec fn regex_is_match(pattern: regex::Regex, text: Seq<char>) -> bool;

/// Calls `regex::Regex::new`. The outcome is determined by the pattern.
#[verifier::external_body]
pub(crate) fn compile(pattern: &str) -> (compiled: std::result::Result<regex::Regex, PatternError>)
    ensures
        compiled == regex_new(pattern@),
{
    regex::Regex::new(pattern)
}

/// Calls `regex::Regex::is_match`: whether the pattern matches anywhere in
/// `text`. The outcome is determined by the pattern and the text.
#[verifier::external_body]
pub(crate) fn is_match(pattern: &regex::Regex, text: &str) -> (matched: bool)
    ensures
        matched == regex_is_match(*pattern, text@),
{
    pattern.is_match(text)
}

} // verus!

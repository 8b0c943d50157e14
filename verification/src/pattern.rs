//! Regular expressions, compiled and matched by the `regex` crate.

use regex::Error as PatternFault;
use regex::Regex;
use vstd::prelude::*;

verus! {

/// A compiled regular expression of the `regex` crate.
#[verifier::external_type_specification]
#[verifier::external_body]
pub struct ExRegex(regex::Regex);

/// The failure that the `regex` crate reports for a pattern it refuses.
#[verifier::external_type_specification]
#[verifier::external_body]
pub struct ExRegexError(PatternFault);

/// What `Regex::new` returns for a pattern: the compiled expression, or the
/// failure that names what is wrong with the pattern.
pub uninterp spec fn regex_compiled(pattern: Seq<char>) -> Result<regex::Regex, PatternFault>;

/// Whether `Regex::is_match` finds a match of the expression anywhere in
/// the text.
pub uninterp spec fn regex_is_match(re: regex::Regex, haystack: Seq<char>) -> bool;

/// The text that a failure of the `regex` crate displays.
pub uninterp spec fn regex_error_text(e: PatternFault) -> Seq<char>;

/// `Regex::new`: compiles a pattern. The result depends on the pattern
/// alone.
pub assume_specification[ Regex::new ](re: &str) -> (compiled: Result<Regex, PatternFault>)
    ensures
        compiled == regex_compiled(re@),
;

/// `Regex::is_match`: whether the expression matches anywhere in the text.
/// The result depends on the expression and the text alone.
pub assume_specification[ Regex::is_match ](re: &Regex, haystack: &str) -> (found: bool)
    ensures
        found == regex_is_match(*re, haystack@),
;

/// `Display` of the `regex` crate's `Error`, through `to_string`.
#[verifier::external_body]
pub(crate) fn error_text(e: &PatternFault) -> (text: String)
    ensures
        text@ == regex_error_text(*e),
{
    e.to_string()
}

} // verus!

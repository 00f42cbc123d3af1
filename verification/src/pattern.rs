//! Regular expressions, as compiled and run by the `regex` crate. Nothing
//! here is proved: the contracts say what the crate's documentation says.

use vstd::prelude::*;

verus! {

/// A compiled regular expression of the `regex` crate, of which nothing is
/// seen but what the functions below say.
#[verifier::external_type_specification]
#[verifier::external_body]
pub struct ExRegex(regex::Regex);

/// The error with which the `regex` crate refuses a pattern.
#[verifier::external_type_specification]
#[verifier::external_body]
pub struct ExRegexError(regex::Error);

/// Whether `Regex::new` accepts the pattern: whether it is a valid regular
/// expression that compiles within the crate's default size limit.
pub uninterp spec fn regex_compiles(pattern: Seq<char>) -> bool;

/// The pattern text that a compiled expression was built from, which is
/// what `Regex::as_str` gives back.
pub uninterp spec fn regex_source(re: regex::Regex) -> Seq<char>;

/// Whether `Regex::is_match` finds a match of the compiled expression
/// anywhere in the text. This is said of the expression, not of its pattern
/// text: an expression that the crate's builder made with other options has
/// the same text and matches otherwise.
pub uninterp spec fn regex_accepts(re: regex::Regex, text: Seq<char>) -> bool;

/// `Regex::new` compiles a pattern with the crate's default options. It
/// returns an error for a pattern that is invalid or too big, and otherwise
/// an expression that keeps the pattern's text.
pub assume_specification[ regex::Regex::new ](re: &str) -> (r: Result<regex::Regex, regex::Error>)
    ensures
        r is Ok <==> regex_compiles(re@),
        r matches Ok(compiled) ==> regex_source(compiled) == re@,
;

/// `Regex::is_match` tells whether the expression matches anywhere in the
/// haystack. The answer depends on the expression and the haystack only.
pub assume_specification[ regex::Regex::is_match ](re: &regex::Regex, haystack: &str) -> (b: bool)
    ensures
        b == regex_accepts(*re, haystack@),
;

} // verus!

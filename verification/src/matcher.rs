//! Regular expressions, which the regex crate compiles and runs.

use regex::Regex;
use vstd::prelude::*;

verus! {

#[verifier::external_type_specification]
#[verifier::external_body]
pub struct ExRegex(Regex);

#[verifier::external_type_specification]
#[verifier::external_body]
pub struct ExRegexError(regex::Error);

/// The text that a regular expression was compiled from.
pub uninterp spec fn regex_pattern(re: Regex) -> Seq<char>;

/// Whether a regular expression was compiled with the options that
/// `Regex::new` sets.
pub uninterp spec fn has_default_options(re: Regex) -> bool;

/// Whether `Regex::new` compiles this text.
pub uninterp spec fn regex_accepts(pattern: Seq<char>) -> bool;

/// The text of the leftmost match in `haystack` of the regular expression
/// that `Regex::new` compiles from `pattern`, where there is a match.
pub uninterp spec fn leftmost_match(pattern: Seq<char>, haystack: Seq<char>) -> Option<Seq<char>>;

/// The characters that mean something in a regular expression.
pub open spec fn is_meta_character(c: char) -> bool {
    c == '\\' || c == '.' || c == '+' || c == '*' || c == '?' || c == '(' || c == ')' || c == '|'
        || c == '[' || c == ']' || c == '{' || c == '}' || c == '^' || c == '$' || c == '#' || c
        == '&' || c == '-' || c == '~'
}

/// `text` with a backslash before each character that means something in a
/// regular expression.
pub open spec fn escaped(text: Seq<char>) -> Seq<char>
    decreases text.len(),
{
    if text.len() == 0 {
        Seq::empty()
    } else if is_meta_character(text.last()) {
        escaped(text.drop_last()).push('\\').push(text.last())
    } else {
        escaped(text.drop_last()).push(text.last())
    }
}

/// `regex::escape` goes through the characters in order and writes a
/// backslash before each of the eighteen that `is_meta_character` lists.
pub assume_specification[ regex::escape ](pattern: &str) -> (out: String)
    ensures
        out@ == escaped(pattern@),
;

/// `Regex::new` succeeds on the same texts in every run, with its own
/// default options, and the value it returns keeps the text.
pub assume_specification[ Regex::new ](re: &str) -> (out: Result<Regex, regex::Error>)
    ensures
        out is Ok <==> regex_accepts(re@),
        out matches Ok(compiled) ==> regex_pattern(compiled) == re@ && has_default_options(
            compiled,
        ),
;

/// `Regex::as_str` returns the text that the expression was compiled from.
pub assume_specification<'a>[ Regex::as_str ](re: &'a Regex) -> (out: &'a str)
    ensures
        out@ == regex_pattern(*re),
;

/// Calls `Regex::find` and copies the matched text out of the haystack. The
/// contract claims that what is found depends on the pattern and the
/// haystack alone, for an expression with the default options.
#[verifier::external_body]
pub(crate) fn find_first(re: &Regex, haystack: &str) -> (found: Option<String>)
    requires
        has_default_options(*re),
    ensures
        found is Some <==> leftmost_match(regex_pattern(*re), haystack@) is Some,
        found matches Some(text) ==> leftmost_match(regex_pattern(*re), haystack@) == Some(text@),
{
    re.find(haystack).map(|m| m.as_str().to_string())
}

} // verus!

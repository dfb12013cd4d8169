//! The regular-expression engine behind the classifier and the extractor.
//!
//! Matching is done by the `regex` crate. What the engine computes is not
//! modelled here: each result has a name, and the contracts of this library
//! speak of those names. Nothing in this file is proved: the functions below
//! call the engine, and their contracts state what its documentation
//! promises.

use crate::text::is_slice_of;
use regex::Regex;
use vstd::prelude::*;

verus! {

#[verifier::external_type_specification]
#[verifier::external_body]
pub struct ExRegex(regex::Regex);

#[verifier::external_type_specification]
#[verifier::external_body]
pub struct ExRegexError(regex::Error);

/// The pattern text that `regex::Regex::new` built a compiled expression
/// from; `regex::Regex::as_str` reports it.
pub uninterp spec fn regex_source(re: Regex) -> Seq<char>;

/// Whether `regex::Regex::new` accepts `pattern`.
pub uninterp spec fn regex_compiles(pattern: Seq<char>) -> bool;

/// Whether the expression that `regex::Regex::new` builds from `pattern`
/// matches somewhere in `haystack`: the answer of `regex::Regex::is_match`.
pub uninterp spec fn regex_is_match(pattern: Seq<char>, haystack: Seq<char>) -> bool;

/// The text of the first match in `haystack` of the expression that
/// `regex::Regex::new` builds from `pattern`, if there is one: what
/// `regex::Regex::find` locates.
pub uninterp spec fn regex_find(pattern: Seq<char>, haystack: Seq<char>) -> Option<Seq<char>>;

/// Calls `regex::Regex::new`. The expression that comes back keeps the
/// pattern text it was given; whether one comes back depends on the pattern
/// alone and is left to the engine.
#[verifier::external_body]
pub(crate) fn compile(pattern: &str) -> (compiled: Result<Regex, regex::Error>)
    ensures
        compiled is Ok <==> regex_compiles(pattern@),
        compiled matches Ok(re) ==> regex_source(re) == pattern@,
{
    Regex::new(pattern)
}

/// Calls `regex::Regex::is_match`, which says whether the expression matches
/// anywhere in the haystack. The answer is a function of the pattern text and
/// the haystack.
#[verifier::external_body]
pub(crate) fn is_match(re: &Regex, haystack: &str) -> (found: bool)
    ensures
        found == regex_is_match(regex_source(*re), haystack@),
{
    re.is_match(haystack)
}

/// Calls `regex::Regex::find` and copies out the text of the match with
/// `regex::Match::as_str`. The text is a function of the pattern text and the
/// haystack, and it is a part of the haystack.
#[verifier::external_body]
pub(crate) fn find_text(re: &Regex, haystack: &str) -> (found: Option<String>)
    ensures
        match found {
            Some(text) => regex_find(regex_source(*re), haystack@) == Some(text@),
            None => regex_find(regex_source(*re), haystack@) is None,
        },
        found matches Some(text) ==> is_slice_of(text@, haystack@),
{
    match re.find(haystack) {
        Some(m) => Some(String::from(m.as_str())),
        None => None,
    }
}

} // verus!

//! What this crate believes of the `regex` crate. Nothing in this file is
//! proved: each item states, over names without a body, what the crate's
//! documentation says of one of its functions.

use regex::{Captures, Regex};
use vstd::prelude::*;

verus! {

/// A compiled regular expression of the `regex` crate.
#[verifier::external_type_specification]
#[verifier::external_body]
pub struct ExRegex(regex::Regex);

/// The error of the `regex` crate for a pattern that it does not compile.
#[verifier::external_type_specification]
#[verifier::external_body]
pub struct ExError(regex::Error);

/// The groups of one match, as the `regex` crate hands them out.
#[verifier::external_type_specification]
#[verifier::external_body]
pub struct ExCaptures<'h>(regex::Captures<'h>);

/// Whether `Regex::new` compiles the pattern: whether its syntax is valid and
/// the compiled program stays within the default size limit of the crate as
/// it is built.
pub uninterp spec fn regex_compiles(pattern: Seq<char>) -> bool;

/// The pattern that a regex was compiled from: the text of `Regex::as_str`.
pub uninterp spec fn regex_source(re: Regex) -> Seq<char>;

/// Whether the regex matches somewhere in the text: the answer of
/// `Regex::is_match`.
pub uninterp spec fn regex_matches(re: Regex, text: Seq<char>) -> bool;

/// The named groups that took part in the leftmost match of the regex in the
/// text, each with the part of the text that it captured: what the result of
/// `Regex::captures` holds.
pub uninterp spec fn regex_groups(re: Regex, text: Seq<char>) -> Map<Seq<char>, Seq<char>>;

/// The named groups that took part in the match behind a `Captures`, each with
/// the text that it captured.
pub uninterp spec fn captured_groups(caps: Captures) -> Map<Seq<char>, Seq<char>>;

/// `Regex::new` compiles a pattern or returns an error; which of the two
/// depends on the pattern alone. The regex that it returns remembers the
/// pattern as it was given.
pub assume_specification[ Regex::new ](re: &str) -> (r: Result<Regex, regex::Error>)
    ensures
        r is Ok == regex_compiles(re@),
        r is Ok ==> regex_source(r->Ok_0) == re@,
;

/// `Regex::as_str` returns the text of the pattern as it was given.
pub assume_specification<'a>[ Regex::as_str ](re: &'a Regex) -> (s: &'a str)
    ensures
        s@ == regex_source(*re),
;

/// `Regex::is_match` tells whether there is a match anywhere in the text; the
/// answer depends on the regex and the text alone.
pub assume_specification[ Regex::is_match ](re: &Regex, haystack: &str) -> (b: bool)
    ensures
        b == regex_matches(*re, haystack@),
;

/// `Regex::captures` returns `None` where the regex matches nowhere in the
/// text, and else the groups of the leftmost match, which depend on the regex
/// and the text alone.
pub assume_specification<'h>[ Regex::captures ](re: &Regex, haystack: &'h str) -> (r: Option<
    Captures<'h>,
>)
    ensures
        r is Some == regex_matches(*re, haystack@),
        r is Some ==> captured_groups(r->Some_0) == regex_groups(*re, haystack@),
;

/// The clone of a regex is a regex from the same pattern that matches the same
/// texts in the same way.
pub assume_specification[ <Regex as Clone>::clone ](re: &Regex) -> (r: Regex)
    ensures
        r == *re,
;

/// `Captures::name` returns the match of the group with the given name, or
/// `None` where the regex has no group of that name or the group took no part
/// in the match. The text of the match is copied into a string of its own.
#[verifier::external_body]
pub(crate) fn group_text(caps: &Captures, name: &str) -> (r: Option<String>)
    ensures
        r is Some == captured_groups(*caps).contains_key(name@),
        r is Some ==> r->Some_0@ == captured_groups(*caps)[name@],
{
    caps.name(name).map(|m| m.as_str().to_string())
}

} // verus!

//! Regular expressions, as far as the line grammar needs them.

use regex::Regex;
use vstd::prelude::*;

verus! {

/// The regex crate's compiled expression. Nothing of its inside is known
/// here; it is made by [`compile`] and handed to [`capture_groups`].
#[verifier::external_type_specification]
#[verifier::external_body]
pub struct ExRegex(Regex);

/// Whether `Regex::new` accepts `pattern`.
pub uninterp spec fn regex_compiles(pattern: Seq<char>) -> bool;

/// The pattern that a compiled expression was made from, which is what
/// `Regex::as_str` gives.
pub uninterp spec fn regex_source(re: &Regex) -> Seq<char>;

/// The capture groups of the leftmost match of `pattern` in `text`, by
/// index, group 0 being the whole match and a group that took no part in the
/// match being `None`; `None` where `text` has no match.
pub uninterp spec fn regex_groups(pattern: Seq<char>, text: Seq<char>) -> Option<
    Seq<Option<Seq<char>>>,
>;

/// Calls `Regex::new`, which accepts or refuses the pattern; an accepted
/// pattern is kept in the expression. The contract names whether the
/// pattern is accepted and records which pattern the expression came from.
#[verifier::external_body]
pub(crate) fn compile(pattern: &str) -> (re: Option<Regex>)
    ensures
        re.is_some() == regex_compiles(pattern@),
        re.is_some() ==> regex_source(&re.unwrap()) == pattern@,
{
    Regex::new(pattern).ok()
}

/// Calls `Regex::captures`, which finds the leftmost match, and copies the
/// text of every group out of the haystack with `Captures::iter` and
/// `Match::as_str`. The contract only gives the outcome its name: it is a
/// function of the pattern and the text.
#[verifier::external_body]
pub(crate) fn capture_groups(re: &Regex, text: &str) -> (groups: Option<Vec<Option<String>>>)
    ensures
        groups.deep_view() == regex_groups(regex_source(re), text@),
{
    let found = re.captures(text)?;
    Some(found.iter().map(|group| group.map(|m| m.as_str().to_string())).collect())
}

} // verus!

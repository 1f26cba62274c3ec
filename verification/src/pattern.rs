//! Regular expressions. How a pattern matches is not stated here: what a
//! search returns has a name, and the contracts of the functions that
//! search speak of that name.

use crate::text::spec_views;
use regex::Regex;
use vstd::prelude::*;

verus! {

/// What the first match of `pattern` in `haystack` captures: the text of
/// each capture group of the pattern, in order, without the match as a
/// whole; an empty text for a group that took no part in the match. `None`
/// where there is no match, or `pattern` is no pattern.
pub uninterp spec fn spec_captures(pattern: Seq<char>, haystack: Seq<char>) -> Option<Seq<Seq<char>>>;

/// What the matches of `pattern` in `haystack` capture, one after the
/// other: for each match what `spec_captures` describes for the first.
/// Nothing where `pattern` is no pattern.
pub uninterp spec fn spec_captures_iter(pattern: Seq<char>, haystack: Seq<char>) -> Seq<
    Seq<Seq<char>>,
>;

/// The texts of `groups` by their views.
pub open spec fn spec_match_views(groups: Option<Vec<String>>) -> Option<Seq<Seq<char>>> {
    match groups {
        Some(g) => Some(spec_views(g@)),
        None => None,
    }
}

/// The texts of each of `matches` by their views.
pub open spec fn spec_matches_views(matches: Seq<Vec<String>>) -> Seq<Seq<Seq<char>>> {
    Seq::new(matches.len(), |i: int| spec_views(matches[i]@))
}

/// Calls `Regex::new` on `pattern` and `Regex::captures` on `haystack`, and
/// copies out of the `Captures` the text of each group but the first, by
/// `Captures::get` and `Match::as_str`. Claimed: the result is what
/// `spec_captures` names.
#[verifier::external_body]
pub(crate) fn captures(pattern: &str, haystack: &str) -> (r: Option<Vec<String>>)
    ensures
        spec_match_views(r) == spec_captures(pattern@, haystack@),
{
    let re = Regex::new(pattern).ok()?;
    let caps = re.captures(haystack)?;
    Some((1..caps.len()).map(|i| caps.get(i).map_or("", |m| m.as_str()).to_string()).collect())
}

/// Calls `Regex::new` on `pattern` and `Regex::captures_iter` on
/// `haystack`, and copies out of each `Captures` the text of each group but
/// the first, by `Captures::get` and `Match::as_str`. Claimed: the result is
/// what `spec_captures_iter` names.
#[verifier::external_body]
pub(crate) fn captures_iter(pattern: &str, haystack: &str) -> (r: Vec<Vec<String>>)
    ensures
        spec_matches_views(r@) == spec_captures_iter(pattern@, haystack@),
{
    let Ok(re) = Regex::new(pattern) else {
        return Vec::new();
    };
    re.captures_iter(haystack).map(
        |caps|
            (1..caps.len()).map(|i| caps.get(i).map_or("", |m| m.as_str()).to_string()).collect(),
    ).collect()
}

} // verus!

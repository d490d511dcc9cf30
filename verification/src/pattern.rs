//! Path patterns: the one place where the regular-expression engine is called.

use regex::Regex;
use vstd::prelude::*;

verus! {

/// `regex::Regex`, a compiled pattern. Nothing is known of what it holds; it
/// is carried from the configuration to the search.
#[verifier::external_type_specification]
#[verifier::external_body]
pub struct ExRegex(Regex);

/// What `Regex::captures` reports for a compiled pattern and a path: `None`
/// when the pattern matches nowhere in the path, otherwise every capture
/// group of the leftmost match, group 0 (the whole match) first, a group that
/// took no part in the match as `None`.
pub uninterp spec fn captures_of(regex: Regex, path: Seq<char>) -> Option<Seq<Option<Seq<char>>>>;

/// Capture groups as sequences of characters.
pub open spec fn groups_view(groups: Seq<Option<String>>) -> Seq<Option<Seq<char>>> {
    groups.map_values(
        |group: Option<String>|
            match group {
                Some(text) => Some(text@),
                None => None,
            },
    )
}

/// The outcome of a search as sequences of characters.
pub open spec fn captures_view(captures: Option<Vec<Option<String>>>) -> Option<
    Seq<Option<Seq<char>>>,
> {
    match captures {
        Some(groups) => Some(groups_view(groups@)),
        None => None,
    }
}

/// Runs `Regex::captures` on the path and copies each group out of the
/// path. Trusted: the result is what `captures_of` names; nothing else is
/// claimed of it.
#[verifier::external_body]
pub(crate) fn regex_captures(regex: &Regex, path: &str) -> (captures: Option<Vec<Option<String>>>)
    ensures
        captures_view(captures) == captures_of(*regex, path@),
{
    regex.captures(path).map(
        |found| found.iter().map(|group| group.map(|text| text.as_str().to_string())).collect(),
    )
}

/// The search found a match, and the match is the whole path: nothing of the
/// path stands before it or behind it. The match in question is the one that
/// the engine reports, its leftmost; a pattern that could also match the
/// whole path in another way does not count.
pub open spec fn full_match(captures: Option<Seq<Option<Seq<char>>>>, path: Seq<char>) -> bool {
    captures matches Some(groups) && groups.len() > 0 && groups[0] == Some(path)
}

/// Whether the outcome of a search on `path` is a match of the whole path.
pub fn is_full_match(path: &str, captures: &Option<Vec<Option<String>>>) -> (full: bool)
    ensures
        full == full_match(captures_view(*captures), path@),
{
    match captures {
        Some(groups) => {
            if groups.len() == 0 {
                return false;
            }
            match &groups[0] {
                Some(whole) => {
                    let wanted = path.to_owned();
                    *whole == wanted
                },
                None => false,
            }
        },
        None => false,
    }
}

/// Searches `path` for the pattern. `Some` holds the capture groups when the
/// pattern matches the path in full, group 0 first.
pub fn match_path(regex: &Regex, path: &str) -> (groups: Option<Vec<Option<String>>>)
    ensures
        match groups {
            Some(groups) => full_match(captures_of(*regex, path@), path@) && Some(
                groups_view(groups@),
            ) == captures_of(*regex, path@),
            None => !full_match(captures_of(*regex, path@), path@),
        },
{
    let captures = regex_captures(regex, path);
    if is_full_match(path, &captures) {
        captures
    } else {
        None
    }
}

} // verus!

//! Regular expressions.

use regex::Regex;
use vstd::prelude::*;

verus! {

/// The groups of the leftmost match of the regular expression `pattern` in
/// `text`, the whole match first and a group that took no part as `None`;
/// `None` where `pattern` is no regular expression or matches nowhere.
pub uninterp spec fn regex_captures(pattern: Seq<char>, text: Seq<char>) -> Option<Seq<Option<Seq<char>>>>;

/// The characters of the groups of a match.
pub open spec fn groups_view(groups: Option<Vec<Option<String>>>) -> Option<Seq<Option<Seq<char>>>> {
    match groups {
        Some(found) => Some(
            found@.map_values(
                |g: Option<String>|
                    match g {
                        Some(s) => Some(s@),
                        None => None,
                    },
            ),
        ),
        None => None,
    }
}

/// `Regex::new` followed by `Regex::captures`: the groups of the leftmost
/// match, which depend on the pattern and the text alone.
#[verifier::external_body]
pub(crate) fn captures(pattern: &str, text: &str) -> (groups: Option<Vec<Option<String>>>)
    ensures
        groups_view(groups) == regex_captures(pattern@, text@),
{
    let found = Regex::new(pattern).ok()?.captures(text)?;
    Some(found.iter().map(|g| g.map(|m| m.as_str().to_string())).collect())
}

} // verus!

//! Regular expressions, matched by the `regex` crate.

use vstd::prelude::*;

verus! {

/// The groups of the first match of `pattern` in `text`, the whole match
/// first, each with the text it matched or `None` where it took no part;
/// `None` where the pattern is not a regular expression or matches nowhere.
pub uninterp spec fn regex_groups(pattern: Seq<char>, text: Seq<char>) -> Option<
    Seq<Option<Seq<char>>>,
>;

/// The texts of a match's groups.
pub open spec fn group_texts(groups: Seq<Option<String>>) -> Seq<Option<Seq<char>>> {
    groups.map_values(
        |g: Option<String>|
            match g {
                Some(s) => Some(s@),
                None => None,
            },
    )
}

/// `regex::Regex::new`, then `Regex::captures` and `Captures::iter`, each
/// group's text copied out. The contract names the groups of the first
/// match and claims that none come exactly where the name has none.
#[verifier::external_body]
pub(crate) fn first_match_groups(pattern: &str, text: &str) -> (r: Option<Vec<Option<String>>>)
    ensures
        match r {
            Some(groups) => regex_groups(pattern@, text@) == Some(group_texts(groups@)),
            None => regex_groups(pattern@, text@) is None,
        },
{
    regex::Regex::new(pattern).ok().and_then(
        |compiled|
            compiled.captures(text).map(
                |found| found.iter().map(|g| g.map(|m| m.as_str().to_owned())).collect(),
            ),
    )
}

} // verus!

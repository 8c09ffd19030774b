//! Regular-expression search, through the `regex` crate.

use vstd::prelude::*;

verus! {

/// What a regular-expression search finds: `None` when `pattern` does not
/// compile; otherwise `Some(g)`, where `g` is the text of group 1 of the
/// leftmost-first match in `haystack` (`None` without a match, or when the
/// group took no part in it).
pub uninterp spec fn regex_first_group(pattern: Seq<char>, haystack: Seq<char>) -> Option<
    Option<Seq<char>>,
>;

/// The views of a search result.
pub open spec fn group_view(g: Option<Option<String>>) -> Option<Option<Seq<char>>> {
    match g {
        None => None,
        Some(None) => Some(None),
        Some(Some(t)) => Some(Some(t@)),
    }
}

/// Relies on `regex::Regex::new` and `regex::Regex::captures`: compiles
/// `pattern` and reads group 1 of its first match in `haystack`. The result
/// depends on the two texts alone.
#[verifier::external_body]
pub(crate) fn first_group(pattern: &str, haystack: &str) -> (r: Option<Option<String>>)
    ensures
        group_view(r) == regex_first_group(pattern@, haystack@),
{
    match regex::Regex::new(pattern) {
        Err(_) => None,
        Ok(re) => match re.captures(haystack) {
            None => Some(None),
            Some(caps) => match caps.get(1) {
                None => Some(None),
                Some(m) => Some(Some(m.as_str().to_string())),
            },
        },
    }
}

} // verus!

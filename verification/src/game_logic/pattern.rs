use regex::Regex;
use vstd::prelude::*;

verus! {

/// Whether `regex::Regex::new` accepts `pattern`.
pub uninterp spec fn regex_compiles(pattern: Seq<char>) -> bool;

/// What `regex::Regex::is_match` answers for `text` on the expression that
/// `regex::Regex::new` makes of `pattern`: whether the expression matches
/// anywhere in `text`. `None` where `pattern` is not accepted.
pub uninterp spec fn regex_is_match(pattern: Seq<char>, text: Seq<char>) -> Option<bool>;

/// What `regex::Regex::captures` finds in `text` for the expression that
/// `regex::Regex::new` makes of `pattern`. `None` where `pattern` is not
/// accepted, `Some(None)` where nothing in `text` matches. Otherwise the
/// groups of the first match in the order of their opening brackets, the
/// whole match first: each the text it matched, or `None` where the group
/// took no part in the match.
pub uninterp spec fn regex_captures(pattern: Seq<char>, text: Seq<char>) -> Option<
    Option<Seq<Option<Seq<char>>>>,
>;

/// The texts of the groups of a match.
pub open spec fn group_texts(groups: &Vec<Option<String>>) -> Seq<Option<Seq<char>>> {
    Seq::new(
        groups@.len(),
        |i: int|
            match groups@[i] {
                Some(text) => Some(text@),
                None => None,
            },
    )
}

/// The texts of what a search for groups has found.
pub open spec fn capture_texts(found: &Option<Option<Vec<Option<String>>>>) -> Option<
    Option<Seq<Option<Seq<char>>>>,
> {
    match found {
        None => None,
        Some(None) => Some(None),
        Some(Some(groups)) => Some(Some(group_texts(groups))),
    }
}

/// Calls `regex::Regex::new` and tells whether it returned an expression.
/// Nothing is proved of the answer: it is the outside crate's, and the
/// contract only gives it its name.
#[verifier::external_body]
pub(crate) fn compiles(pattern: &str) -> (accepted: bool)
    ensures
        accepted == regex_compiles(pattern@),
{
    Regex::new(pattern).is_ok()
}

/// Calls `regex::Regex::new` on `pattern` and `regex::Regex::is_match` on the
/// expression and `text`. Nothing is proved of the answer: the contract only
/// gives it its name.
#[verifier::external_body]
pub(crate) fn is_match(pattern: &str, text: &str) -> (found: Option<bool>)
    ensures
        found == regex_is_match(pattern@, text@),
{
    match Regex::new(pattern) {
        Ok(expression) => Some(expression.is_match(text)),
        Err(_) => None,
    }
}

/// Calls `regex::Regex::new` on `pattern` and `regex::Regex::captures` on the
/// expression and `text`, and copies the text of every group of the match
/// that `regex::Captures::iter` hands out. Nothing is proved of the answer:
/// the contract only gives it its name.
#[verifier::external_body]
pub(crate) fn captures(pattern: &str, text: &str) -> (found: Option<Option<Vec<Option<String>>>>)
    ensures
        capture_texts(&found) == regex_captures(pattern@, text@),
{
    match Regex::new(pattern) {
        Ok(expression) => Some(
            expression.captures(text).map(
                |groups| groups.iter().map(|group| group.map(|m| m.as_str().to_string())).collect(),
            ),
        ),
        Err(_) => None,
    }
}

} // verus!

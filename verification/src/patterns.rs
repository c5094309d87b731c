//! Regular expressions, had from `regex`.
//!
//! What a regular expression matches in a text takes the whole of the crate's
//! documentation to say, but it is a function of the pattern and the text
//! alone. So each search gets a name for its result, and the contracts here
//! say no more than that the call gives what the name stands for. A pattern
//! that `Regex::new` rejects matches nothing.

use vstd::prelude::*;

verus! {

/// The text of the leftmost match of `pattern` in `text`, if there is one.
pub uninterp spec fn first_match(pattern: Seq<char>, text: Seq<char>) -> Option<Seq<char>>;

/// `text` with the leftmost match of `pattern` taken out.
pub uninterp spec fn without_first_match(pattern: Seq<char>, text: Seq<char>) -> Seq<char>;

/// `text` with all matches of `pattern` taken out, found one after the other
/// from the left without overlap.
pub uninterp spec fn without_matches(pattern: Seq<char>, text: Seq<char>) -> Seq<char>;

/// For the leftmost match of `pattern` in `text`, if there is one, the text
/// of the first capture group, if the group took part in the match.
pub uninterp spec fn first_group(pattern: Seq<char>, text: Seq<char>) -> Option<Option<Seq<char>>>;

/// For each match of `pattern` in `text`, found one after the other from the
/// left without overlap, the text of the first capture group, if the group
/// took part in the match.
pub uninterp spec fn first_groups(pattern: Seq<char>, text: Seq<char>) -> Seq<Option<Seq<char>>>;

/// Compiles `pattern` with `Regex::new` and searches `text` with
/// `Regex::find`; the match is handed out as its text (`Match::as_str`).
/// The contract only gives the result its name.
#[verifier::external_body]
pub(crate) fn find_first_match(pattern: &str, text: &str) -> (r: Option<String>)
    ensures
        r.deep_view() == first_match(pattern@, text@),
{
    match regex::Regex::new(pattern) {
        Ok(re) => re.find(text).map(|m| m.as_str().to_string()),
        Err(_) => None,
    }
}

/// Compiles `pattern` with `Regex::new` and replaces the leftmost match in
/// `text` by the empty string with `Regex::replace`. The contract only gives
/// the result its name.
#[verifier::external_body]
pub(crate) fn remove_first_match(pattern: &str, text: &str) -> (r: String)
    ensures
        r@ == without_first_match(pattern@, text@),
{
    match regex::Regex::new(pattern) {
        Ok(re) => re.replace(text, "").into_owned(),
        Err(_) => text.to_string(),
    }
}

/// Compiles `pattern` with `Regex::new` and replaces every match in `text` by
/// the empty string with `Regex::replace_all`. The contract only gives the
/// result its name.
#[verifier::external_body]
pub(crate) fn remove_matches(pattern: &str, text: &str) -> (r: String)
    ensures
        r@ == without_matches(pattern@, text@),
{
    match regex::Regex::new(pattern) {
        Ok(re) => re.replace_all(text, "").into_owned(),
        Err(_) => text.to_string(),
    }
}

/// Compiles `pattern` with `Regex::new` and searches `text` with
/// `Regex::captures`; of the match, the first capture group is handed out as
/// its text (`Captures::get`, `Match::as_str`). The contract only gives the
/// result its name.
#[verifier::external_body]
pub(crate) fn find_first_group(pattern: &str, text: &str) -> (r: Option<Option<String>>)
    ensures
        r.deep_view() == first_group(pattern@, text@),
{
    match regex::Regex::new(pattern) {
        Ok(re) => re.captures(text).map(|c| c.get(1).map(|m| m.as_str().to_string())),
        Err(_) => None,
    }
}

/// Compiles `pattern` with `Regex::new` and walks the matches in `text` with
/// `Regex::captures_iter`; of each match, the first capture group is handed
/// out as its text (`Captures::get`, `Match::as_str`). The contract only gives
/// the result its name.
#[verifier::external_body]
pub(crate) fn find_first_groups(pattern: &str, text: &str) -> (r: Vec<Option<String>>)
    ensures
        r.deep_view() == first_groups(pattern@, text@),
{
    match regex::Regex::new(pattern) {
        Ok(re) => {
            re.captures_iter(text).map(|c| c.get(1).map(|m| m.as_str().to_string())).collect()
        },
        Err(_) => Vec::new(),
    }
}

} // verus!

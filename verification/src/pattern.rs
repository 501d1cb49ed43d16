//! Regular expressions, through the `regex` crate.
//!
//! Each wrapper compiles its pattern with `regex::Regex::new` and runs one
//! search on the text; a pattern that does not compile gives `None`. What a
//! search finds is not stated here: it is named by an uninterpreted function
//! of the pattern and the text, and the library's contracts speak of those
//! names.
use vstd::prelude::*;

verus! {

/// What `Regex::new(pattern)` followed by `is_match(text)` returns, or `None`
/// where the pattern does not compile.
pub uninterp spec fn regex_is_match(pattern: Seq<char>, text: Seq<char>) -> Option<bool>;

/// What `Regex::new(pattern)` followed by `replace_all(text, replacement)`
/// returns, or `None` where the pattern does not compile.
pub uninterp spec fn regex_replace_all(
    pattern: Seq<char>,
    text: Seq<char>,
    replacement: Seq<char>,
) -> Option<Seq<char>>;

/// The pieces that `Regex::new(pattern)` followed by `split(text)` yields, or
/// `None` where the pattern does not compile.
pub uninterp spec fn regex_split(pattern: Seq<char>, text: Seq<char>) -> Option<Seq<Seq<char>>>;

/// What `Regex::new(pattern)` followed by `captures(text)` finds for the two
/// named groups `first` and `second` (each absent where the group took no
/// part in the match), or `None` where the pattern does not compile or does
/// not match.
pub uninterp spec fn regex_captures(
    pattern: Seq<char>,
    text: Seq<char>,
    first: Seq<char>,
    second: Seq<char>,
) -> Option<(Option<Seq<char>>, Option<Seq<char>>)>;

pub open spec fn opt_view(o: Option<String>) -> Option<Seq<char>> {
    match o {
        Some(s) => Some(s@),
        None => None,
    }
}

/// Calls `regex::Regex::new(pattern)` and then `Regex::is_match(text)`; the
/// result is `regex_is_match(pattern@, text@)`, with `None` for a pattern
/// that does not compile.
#[verifier::external_body]
pub(crate) fn is_match(pattern: &str, text: &str) -> (r: Option<bool>)
    ensures
        r == regex_is_match(pattern@, text@),
{
    match regex::Regex::new(pattern) {
        Ok(re) => Some(re.is_match(text)),
        Err(_) => None,
    }
}

/// Calls `regex::Regex::new(pattern)` and then `Regex::replace_all(text,
/// replacement)`; the result's characters are `regex_replace_all(pattern@,
/// text@, replacement@)`, with `None` for a pattern that does not compile.
#[verifier::external_body]
pub(crate) fn replace_all(pattern: &str, text: &str, replacement: &str) -> (r: Option<String>)
    ensures
        opt_view(r) == regex_replace_all(pattern@, text@, replacement@),
{
    match regex::Regex::new(pattern) {
        Ok(re) => Some(re.replace_all(text, replacement).into_owned()),
        Err(_) => None,
    }
}

/// Calls `regex::Regex::new(pattern)` and then `Regex::split(text)`,
/// collecting the pieces; their characters are `regex_split(pattern@,
/// text@)`, with `None` for a pattern that does not compile.
#[verifier::external_body]
pub(crate) fn split(pattern: &str, text: &str) -> (r: Option<Vec<String>>)
    ensures
        match r {
            Some(v) => regex_split(pattern@, text@) == Some(v.deep_view()),
            None => regex_split(pattern@, text@) is None,
        },
{
    match regex::Regex::new(pattern) {
        Ok(re) => Some(re.split(text).map(|p| p.to_string()).collect()),
        Err(_) => None,
    }
}

/// Calls `regex::Regex::new(pattern)` and then `Regex::captures(text)`,
/// taking the text of the groups named `first` and `second`; the result is
/// `regex_captures(pattern@, text@, first@, second@)`.
#[verifier::external_body]
pub(crate) fn captures(pattern: &str, text: &str, first: &str, second: &str) -> (r: Option<
    (Option<String>, Option<String>),
>)
    ensures
        match r {
            Some((a, b)) => regex_captures(pattern@, text@, first@, second@) == Some(
                (opt_view(a), opt_view(b)),
            ),
            None => regex_captures(pattern@, text@, first@, second@) is None,
        },
{
    match regex::Regex::new(pattern) {
        Ok(re) => re.captures(text).map(
            |c| (c.name(first).map(|m| m.as_str().to_string()), c.name(second).map(|m| m.as_str().to_string())),
        ),
        Err(_) => None,
    }
}

} // verus!

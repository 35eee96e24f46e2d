//! Pattern matching on text, done by the `regex` crate.
//!
//! Nothing in this file is proved. Each function here hands a pattern and a
//! text to `regex` and gives back what `regex` found, as plain strings. What
//! `regex` finds is a function of the pattern and the text alone, so each
//! result has a name that the contracts of the parser can speak of.

use vstd::prelude::*;

verus! {

/// The error that `regex` gives for a pattern it cannot compile.
#[verifier::external_type_specification]
#[verifier::external_body]
pub struct ExRegexError(regex::Error);

/// Whether `regex::Regex::new` compiles `pattern`.
pub uninterp spec fn regex_accepts(pattern: Seq<char>) -> bool;

/// What `regex::Regex::replace` makes of `text` for the compiled `pattern`
/// and the replacement `rep`.
pub uninterp spec fn regex_replace_first(
    pattern: Seq<char>,
    text: Seq<char>,
    rep: Seq<char>,
) -> Seq<char>;

/// What `regex::Regex::captures_iter` finds in `text` for the compiled
/// `pattern`: one entry for each match, in the order of the matches, and in
/// it one entry for each capture group of the pattern, the whole match at
/// index 0; a group that took no part in the match is `None`.
pub uninterp spec fn regex_captures(pattern: Seq<char>, text: Seq<char>) -> Seq<
    Seq<Option<Seq<char>>>,
>;

/// Compiles `pattern` with `regex::Regex::new` and replaces its first match
/// in `text` with `regex::Regex::replace`.
///
/// Trusted: that it fails exactly if `regex` does not compile the pattern,
/// and that the text it returns depends on the three arguments alone.
#[verifier::external_body]
pub(crate) fn replace_first(pattern: &str, text: &str, rep: &str) -> (out: Result<
    String,
    regex::Error,
>)
    ensures
        out is Ok <==> regex_accepts(pattern@),
        out matches Ok(replaced) ==> replaced@ == regex_replace_first(pattern@, text@, rep@),
{
    let re = regex::Regex::new(pattern)?;
    Ok(re.replace(text, rep).into_owned())
}

/// Compiles `pattern` with `regex::Regex::new` and collects the matches of
/// `regex::Regex::captures_iter` on `text`, each as the texts of its groups
/// (`regex::Captures::iter`, `regex::Match::as_str`).
///
/// Trusted: that it fails exactly if `regex` does not compile the pattern,
/// and that the matches it returns depend on the two arguments alone.
#[verifier::external_body]
pub(crate) fn captures_all(pattern: &str, text: &str) -> (out: Result<
    Vec<Vec<Option<String>>>,
    regex::Error,
>)
    ensures
        out is Ok <==> regex_accepts(pattern@),
        out matches Ok(found) ==> found.deep_view() == regex_captures(pattern@, text@),
{
    let re = regex::Regex::new(pattern)?;
    Ok(
        re.captures_iter(text).map(
            |caps| caps.iter().map(|group| group.map(|m| m.as_str().to_string())).collect(),
        ).collect(),
    )
}

} // verus!

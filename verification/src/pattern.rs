//! Regular-expression matching, done by the `regex` crate.

use vstd::prelude::*;

verus! {

/// The error that the `regex` crate gives for a pattern it cannot compile.
#[verifier::external_type_specification]
#[verifier::external_body]
pub struct ExRegexError(regex::Error);

/// A pattern that could not be compiled, with the compiler's message.
#[derive(Debug)]
pub struct PatternError {
    pub message: String,
}

/// The capture groups of one match: the text that each group matched, the
/// whole match first, and `None` for a group that took no part.
pub type Groups = Seq<Option<Seq<char>>>;

/// Whether `regex::Regex::new` accepts the pattern.
pub uninterp spec fn regex_compiles(pattern: Seq<char>) -> bool;

/// What `regex::Regex::captures_iter` yields for the pattern on the
/// haystack: the capture groups of each successive non-overlapping match,
/// leftmost first.
pub uninterp spec fn regex_matches(pattern: Seq<char>, haystack: Seq<char>) -> Seq<Groups>;

/// Compiles the pattern with `regex::Regex::new` and collects what
/// `Regex::captures_iter` yields on the haystack, each group as its text.
/// The contract names the two outcomes: the call fails exactly where the
/// pattern does not compile, and the matches are `regex_matches`.
#[verifier::external_body]
pub(crate) fn find_matches(pattern: &str, haystack: &str) -> (r: Result<
    Vec<Vec<Option<String>>>,
    regex::Error,
>)
    ensures
        r is Ok <==> regex_compiles(pattern@),
        r matches Ok(found) ==> found.deep_view() == regex_matches(pattern@, haystack@),
{
    let re = regex::Regex::new(pattern)?;
    Ok(
        re.captures_iter(haystack).map(
            |c| c.iter().map(|g| g.map(|m| m.as_str().to_string())).collect(),
        ).collect(),
    )
}

/// The message of a `regex::Error`, as its `Display` gives it.
#[verifier::external_body]
pub(crate) fn error_message(e: &regex::Error) -> String {
    e.to_string()
}

/// All matches of the pattern in the haystack, or the error for a pattern
/// that does not compile.
pub fn all_matches(pattern: &str, haystack: &str) -> (r: Result<
    Vec<Vec<Option<String>>>,
    PatternError,
>)
    ensures
        r is Ok <==> regex_compiles(pattern@),
        r matches Ok(found) ==> found.deep_view() == regex_matches(pattern@, haystack@),
{
    match find_matches(pattern, haystack) {
        Ok(found) => Ok(found),
        Err(e) => Err(PatternError { message: error_message(&e) }),
    }
}

} // verus!

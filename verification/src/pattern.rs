//! Regular-expression searches, done by the `regex` crate.

use vstd::prelude::*;
use crate::model::{outcome_view, ScrapeError};

verus! {

/// `regex::Error`, the reason why a pattern did not compile. It is passed on
/// unopened.
#[verifier::external_type_specification]
#[verifier::external_body]
pub struct ExRegexError(regex::Error);

/// Each of `parts` is the stretch of `text` that begins at its place in
/// `starts`; each begins after the one before it has begun, and not before
/// that one has ended.
pub open spec fn placed_at(text: Seq<char>, parts: Seq<Seq<char>>, starts: Seq<int>) -> bool {
    &&& starts.len() == parts.len()
    &&& forall|i: int|
        #![trigger parts[i]]
        0 <= i < parts.len() ==> 0 <= starts[i] && starts[i] + parts[i].len() <= text.len()
            && text.subrange(starts[i], starts[i] + parts[i].len()) == parts[i]
    &&& forall|i: int, j: int|
        #![trigger starts[i], starts[j]]
        0 <= i < j < parts.len() ==> starts[i] < starts[j] && starts[i] + parts[i].len()
            <= starts[j]
}

/// `parts` lie in `text` one after another, from left to right and without
/// overlap, no two of them beginning at one place.
pub open spec fn occur_in_order(text: Seq<char>, parts: Seq<Seq<char>>) -> bool {
    exists|starts: Seq<int>| placed_at(text, parts, starts)
}

/// Whether `regex::Regex::new` accepts `pattern`: its syntax is valid and it
/// compiles within the crate's default size limit.
pub uninterp spec fn regex_compiles(pattern: Seq<char>) -> bool;

/// The matches of `pattern` in `text` as `regex::Regex::find_iter` yields them:
/// every non-overlapping match, from left to right, each as the text it covers.
/// It means something only for a `pattern` that compiles.
pub uninterp spec fn regex_matches(pattern: Seq<char>, text: Seq<char>) -> Seq<Seq<char>>;

/// The leftmost match of `pattern` in `text` as `regex::Regex::captures` finds
/// it, as the text that group 0 covers; `None` where nothing matches.
/// It means something only for a `pattern` that compiles.
pub uninterp spec fn regex_first_match(pattern: Seq<char>, text: Seq<char>) -> Option<Seq<char>>;

/// Every match of `pattern` in `text`, or `Pattern` where the pattern does
/// not compile.
pub open spec fn all_matches(pattern: Seq<char>, text: Seq<char>) -> Result<
    Seq<Seq<char>>,
    ScrapeError,
> {
    if regex_compiles(pattern) {
        Ok(regex_matches(pattern, text))
    } else {
        Err(ScrapeError::Pattern)
    }
}

/// The leftmost match of `pattern` in `text`, if there is one, or `Pattern`
/// where the pattern does not compile.
pub open spec fn first_match(pattern: Seq<char>, text: Seq<char>) -> Result<
    Option<Seq<char>>,
    ScrapeError,
> {
    if regex_compiles(pattern) {
        Ok(regex_first_match(pattern, text))
    } else {
        Err(ScrapeError::Pattern)
    }
}

/// Compiles `pattern` with `regex::Regex::new` and collects what
/// `Regex::find_iter` yields on `text`, each match copied out with
/// `Match::as_str`. Trusted: the call succeeds exactly when the pattern
/// compiles, and the crate's error comes back when it does not. On success
/// the list is `regex_matches(pattern, text)`, and its items lie in `text`
/// in that order: the iterator yields successive non-overlapping matches,
/// each the stretch of `text` that matched, and never two that begin at one
/// place.
#[verifier::external_body]
fn find_iter_texts(pattern: &str, text: &str) -> (found: Result<Vec<String>, regex::Error>)
    ensures
        found is Ok <==> regex_compiles(pattern@),
        found matches Ok(items) ==> items.deep_view() == regex_matches(pattern@, text@),
        found matches Ok(items) ==> occur_in_order(text@, items.deep_view()),
{
    let re = regex::Regex::new(pattern)?;
    Ok(re.find_iter(text).map(|m| m.as_str().to_string()).collect())
}

/// Compiles `pattern` with `regex::Regex::new`, searches `text` with
/// `Regex::captures` and copies out group 0 (`Captures::get`, `Match::as_str`).
/// Trusted: the call succeeds exactly when the pattern compiles, and the
/// crate's error comes back when it does not. On success the result is
/// `regex_first_match(pattern, text)`.
#[verifier::external_body]
pub(crate) fn captures_text(pattern: &str, text: &str) -> (found: Result<
    Option<String>,
    regex::Error,
>)
    ensures
        found is Ok <==> regex_compiles(pattern@),
        found matches Ok(item) ==> item.deep_view() == regex_first_match(pattern@, text@),
{
    let re = regex::Regex::new(pattern)?;
    Ok(re.captures(text).and_then(|caps| caps.get(0)).map(|m| m.as_str().to_string()))
}

/// Every non-overlapping match of `regex_rule` in `text`, in the order in
/// which they occur. Fails with `Pattern` exactly where the rule does not
/// compile.
pub fn get_element_by_regex(regex_rule: &str, text: &str) -> (found: Result<
    Vec<String>,
    ScrapeError,
>)
    ensures
        outcome_view(found) == all_matches(regex_rule@, text@),
        found matches Ok(items) ==> occur_in_order(text@, items.deep_view()),
{
    match find_iter_texts(regex_rule, text) {
        Ok(items) => Ok(items),
        Err(_) => Err(ScrapeError::Pattern),
    }
}

} // verus!

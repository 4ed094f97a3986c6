//! Regular-expression matching, as far as the library relies on it.

use vstd::prelude::*;

verus! {

/// What `regex` finds of `pattern` in `text`: for each non-overlapping match,
/// from the left, the text of each capture group (group 0 is the whole
/// match), `None` for a group that took no part. `None` when `pattern` does
/// not compile.
pub uninterp spec fn regex_captures(pattern: Seq<char>, text: Seq<char>) -> Option<
    Seq<Seq<Option<Seq<char>>>>,
>;

/// `text` after `regex` has replaced the k-th match of `pattern` by `with[k]`,
/// literally; matches beyond the end of `with` stay as they are. `None` when
/// `pattern` does not compile.
pub uninterp spec fn regex_replace_each(
    pattern: Seq<char>,
    text: Seq<char>,
    with: Seq<Seq<char>>,
) -> Option<Seq<char>>;

/// Calls `regex::Regex::new` and `Regex::captures_iter`, and copies each
/// group of each match out. The contract gives the result its name,
/// `regex_captures`, and claims nothing else of it.
#[verifier::external_body]
pub(crate) fn captures(pattern: &str, text: &str) -> (r: Option<Vec<Vec<Option<String>>>>)
    ensures
        r.deep_view() == regex_captures(pattern@, text@),
{
    let re = regex::Regex::new(pattern).ok()?;
    Some(
        re.captures_iter(text).map(
            |c| c.iter().map(|m| m.map(|m| m.as_str().to_string())).collect(),
        ).collect(),
    )
}

/// Calls `regex::Regex::new` and `Regex::replace_all` with a replacer that
/// hands out the strings of `with` one match after the other, and the match
/// itself once they are used up. The contract gives the result its name,
/// `regex_replace_each`, and claims nothing else of it.
#[verifier::external_body]
pub(crate) fn replace_each(pattern: &str, text: &str, with: &Vec<String>) -> (r: Option<String>)
    ensures
        r.deep_view() == regex_replace_each(pattern@, text@, with.deep_view()),
{
    let re = regex::Regex::new(pattern).ok()?;
    let mut rest = with.iter();
    let pick = |c: &regex::Captures| rest.next().cloned().unwrap_or_else(|| c[0].to_string());
    Some(re.replace_all(text, pick).into_owned())
}

} // verus!

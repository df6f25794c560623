//! Regular expressions, matched by the `regex` crate.
//!
//! What the crate finds for a pattern in a text depends on the two alone. The
//! functions here give those results their names; nothing is claimed of them
//! but what the crate documents of every pattern.

use vstd::prelude::*;

verus! {

/// Whether `pattern` matches anywhere in `text`, as `Regex::is_match` finds
/// it; `None` where `Regex::new` refuses the pattern.
pub uninterp spec fn regex_is_match(pattern: Seq<char>, text: Seq<char>) -> Option<bool>;

/// The groups of the first match of `pattern` in `text`, as `Regex::captures`
/// finds them: the whole match first, then each group in the order of its
/// opening parenthesis, `None` for a group that took no part. The inner
/// option is `None` where nothing matches, the outer one where `Regex::new`
/// refuses the pattern.
pub uninterp spec fn regex_captures(pattern: Seq<char>, text: Seq<char>) -> Option<
    Option<Seq<Option<Seq<char>>>>,
>;

/// `text` with the first match of `pattern` replaced by `replacement`, in
/// which `$1`, `$2`, ... stand for the groups of the match, as
/// `Regex::replace` does it; `None` where `Regex::new` refuses the pattern.
pub uninterp spec fn regex_replace(
    pattern: Seq<char>,
    text: Seq<char>,
    replacement: Seq<char>,
) -> Option<Seq<char>>;

/// The groups of a match as plain values.
pub open spec fn groups_view(groups: Seq<Option<String>>) -> Seq<Option<Seq<char>>> {
    Seq::new(
        groups.len(),
        |i: int|
            match groups[i] {
                Some(s) => Some(s@),
                None => None,
            },
    )
}

/// What `captures` returns, as plain values.
pub open spec fn captures_view(found: Option<Option<Vec<Option<String>>>>) -> Option<
    Option<Seq<Option<Seq<char>>>>,
> {
    match found {
        None => None,
        Some(None) => Some(None),
        Some(Some(groups)) => Some(Some(groups_view(groups@))),
    }
}

/// Compiles `pattern` with `Regex::new` and asks `Regex::is_match` whether it
/// matches anywhere in `text`. The result is the one named `regex_is_match`.
#[verifier::external_body]
pub(crate) fn is_match(pattern: &str, text: &str) -> (found: Option<bool>)
    ensures
        found == regex_is_match(pattern@, text@),
{
    match regex::Regex::new(pattern) {
        Ok(re) => Some(re.is_match(text)),
        Err(_) => None,
    }
}

/// Compiles `pattern` with `Regex::new` and takes the groups of its first
/// match in `text` from `Regex::captures`. The result is the one named
/// `regex_captures`; a match has at least the group of the whole match.
#[verifier::external_body]
pub(crate) fn captures(pattern: &str, text: &str) -> (found: Option<Option<Vec<Option<String>>>>)
    ensures
        captures_view(found) == regex_captures(pattern@, text@),
        found matches Some(Some(groups)) ==> groups@.len() >= 1,
{
    match regex::Regex::new(pattern) {
        Ok(re) => Some(
            re.captures(text).map(
                |caps| caps.iter().map(|group| group.map(|m| m.as_str().to_owned())).collect(),
            ),
        ),
        Err(_) => None,
    }
}

/// Compiles `pattern` with `Regex::new` and has `Regex::replace` replace its
/// first match in `text`. The result is the one named `regex_replace`.
#[verifier::external_body]
pub(crate) fn replace(pattern: &str, text: &str, replacement: &str) -> (replaced: Option<String>)
    ensures
        crate::text::option_view(replaced) == regex_replace(pattern@, text@, replacement@),
{
    match regex::Regex::new(pattern) {
        Ok(re) => Some(re.replace(text, replacement).into_owned()),
        Err(_) => None,
    }
}

} // verus!

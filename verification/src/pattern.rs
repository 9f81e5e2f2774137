//! Filename patterns: regular expressions, compiled and matched by the
//! `regex` crate. What that crate answers is named here, not re-derived.

use regex::Regex;
use vstd::prelude::*;

verus! {

/// Whether `pattern` compiles as a regular expression.
pub uninterp spec fn pattern_compiles(pattern: Seq<char>) -> bool;

/// Whether the compiled `pattern` matches anywhere in `text`.
pub uninterp spec fn pattern_matches(pattern: Seq<char>, text: Seq<char>) -> bool;

/// The named groups of the first match of the compiled `pattern` in `text`:
/// each name whose group took part in the match, with the text it matched.
/// `None` where there is no match.
pub uninterp spec fn pattern_captures(pattern: Seq<char>, text: Seq<char>) -> Option<
    Map<Seq<char>, Seq<char>>,
>;

/// `text` with every match of the compiled `pattern` replaced by
/// `replacement`, in which `$` and a group's name or number stand for what
/// that group matched.
pub uninterp spec fn pattern_replaced(
    pattern: Seq<char>,
    text: Seq<char>,
    replacement: Seq<char>,
) -> Seq<char>;

/// What one named group matched, out of the groups of a match.
pub open spec fn group_text(groups: Map<Seq<char>, Seq<char>>, name: Seq<char>) -> Option<
    Seq<char>,
> {
    if groups.contains_key(name) {
        Some(groups[name])
    } else {
        None
    }
}

/// The view of an optional string.
pub open spec fn text_view(text: Option<String>) -> Option<Seq<char>> {
    match text {
        Some(t) => Some(t@),
        None => None,
    }
}

/// Calls `regex::Regex::new` and tells whether it returned a regex.
/// Trusted: the answer is what `pattern_compiles` names for this pattern.
#[verifier::external_body]
pub(crate) fn compiles(pattern: &str) -> (ok: bool)
    ensures
        ok == pattern_compiles(pattern@),
{
    Regex::new(pattern).is_ok()
}

/// Compiles `pattern` with `regex::Regex::new` and calls `Regex::is_match`
/// on `text`. Trusted: the answer is what `pattern_matches` names for the
/// two texts. The pattern must compile.
#[verifier::external_body]
pub(crate) fn is_match(pattern: &str, text: &str) -> (found: bool)
    requires
        pattern_compiles(pattern@),
    ensures
        found == pattern_matches(pattern@, text@),
{
    match Regex::new(pattern) {
        Ok(re) => re.is_match(text),
        Err(_) => false,
    }
}

/// Compiles `pattern` with `regex::Regex::new`, calls `Regex::captures` on
/// `text` and asks the match for the group `name` with `Captures::name`.
/// Trusted: the outer `None` says that `captures` found no match; the inner
/// value is the text of the group where it took part in the match, as
/// `pattern_captures` names it. The pattern must compile.
#[verifier::external_body]
pub(crate) fn captured_group(pattern: &str, text: &str, name: &str) -> (r: Option<Option<String>>)
    requires
        pattern_compiles(pattern@),
    ensures
        r is Some <==> pattern_captures(pattern@, text@) is Some,
        r matches Some(group) ==> text_view(group) == group_text(
            pattern_captures(pattern@, text@)->0,
            name@,
        ),
{
    match Regex::new(pattern) {
        Ok(re) => match re.captures(text) {
            Some(caps) => match caps.name(name) {
                Some(m) => Some(Some(m.as_str().to_owned())),
                None => Some(None),
            },
            None => None,
        },
        Err(_) => None,
    }
}

/// Compiles `pattern` with `regex::Regex::new` and calls
/// `Regex::replace_all` on `text` with the replacement text. Trusted: the
/// answer is what `pattern_replaced` names for the three texts. The pattern
/// must compile.
#[verifier::external_body]
pub(crate) fn replace_all(pattern: &str, text: &str, replacement: &str) -> (r: String)
    requires
        pattern_compiles(pattern@),
    ensures
        r@ == pattern_replaced(pattern@, text@, replacement@),
{
    match Regex::new(pattern) {
        Ok(re) => re.replace_all(text, replacement).into_owned(),
        Err(_) => text.to_owned(),
    }
}

} // verus!

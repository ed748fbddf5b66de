//! Regular expressions, compiled and matched by the `regex` crate.
//!
//! What the crate answers is a function of pattern and text, and far too long
//! to spell out; it is known here by three names. Nothing in this module is
//! proved: each function below makes one kind of call into the crate, and its
//! contract says no more than which name its result goes by.

use crate::text::option_text;
use regex::Regex;
use vstd::prelude::*;

verus! {

/// What `Regex::new` finds wrong with `pattern`, as the text that its error
/// displays; `None` where `pattern` compiles.
pub uninterp spec fn regex_error(pattern: Seq<char>) -> Option<Seq<char>>;

/// Whether `Regex::is_match` of the compiled `pattern` finds a match
/// somewhere in `text`.
pub uninterp spec fn regex_is_match(pattern: Seq<char>, text: Seq<char>) -> bool;

/// What `Captures::name` gives for the group `name` in the first match of
/// the compiled `pattern` in `text`: the part of `text` that the group
/// captured. `None` where `pattern` does not compile or does not match, has
/// no group of that name, or the group took no part in the match.
pub uninterp spec fn regex_capture(
    pattern: Seq<char>,
    text: Seq<char>,
    name: Seq<char>,
) -> Option<Seq<char>>;

/// Calls `Regex::new` on `pattern` and hands back the text of its error, as
/// `Display` writes it, or `None` where it succeeds. Trusted: the result is
/// what `regex_error` names.
#[verifier::external_body]
pub(crate) fn pattern_error(pattern: &str) -> (error: Option<String>)
    ensures
        option_text(error) == regex_error(pattern@),
{
    Regex::new(pattern).err().map(|e| e.to_string())
}

/// Calls `Regex::new` on `pattern` and `Regex::is_match` on `text`; `None`
/// where the pattern does not compile. Trusted: the result is what
/// `regex_error` and `regex_is_match` name.
#[verifier::external_body]
pub(crate) fn is_match(pattern: &str, text: &str) -> (found: Option<bool>)
    ensures
        found == (if regex_error(pattern@) is None {
            Some(regex_is_match(pattern@, text@))
        } else {
            None
        }),
{
    Regex::new(pattern).ok().map(|re| re.is_match(text))
}

/// Calls `Regex::new` on `pattern`, `Regex::captures` on `text` and
/// `Captures::name` on `name`, and hands back a copy of what `Match::as_str`
/// gives. Trusted: the result is what `regex_capture` names.
#[verifier::external_body]
pub(crate) fn capture(pattern: &str, text: &str, name: &str) -> (group: Option<String>)
    ensures
        option_text(group) == regex_capture(pattern@, text@, name@),
{
    Regex::new(pattern).ok()?.captures(text)?.name(name).map(|m| m.as_str().to_string())
}

} // verus!

//! Regular-expression matching on recognised text, through the regex crate.

use vstd::prelude::*;
use crate::data::opt_view;

verus! {

/// The text of the first capture group of the first match of `pattern` in
/// `text` (None when the pattern is invalid, does not match, or the group
/// took no part in the match), as the regex crate computes it.
pub uninterp spec fn regex_first_group(pattern: Seq<char>, text: Seq<char>) -> Option<Seq<char>>;

/// `text` with every match of `pattern` removed (empty when the pattern is
/// invalid), as the regex crate computes it.
pub uninterp spec fn regex_without_matches(pattern: Seq<char>, text: Seq<char>) -> Seq<char>;

/// Compiles `pattern` with `regex::Regex::new` and takes group 1 of
/// `Regex::captures` on `text` (`Captures::get(1)`, `Match::as_str`).
/// The contract names the result: it is a function of the two texts.
#[verifier::external_body]
pub(crate) fn first_capture(pattern: &str, text: &str) -> (r: Option<String>)
    ensures
        opt_view(r) == regex_first_group(pattern@, text@),
{
    let re = match regex::Regex::new(pattern) {
        Ok(re) => re,
        Err(_) => return None,
    };
    let caps = re.captures(text)?;
    let group = caps.get(1)?;
    Some(group.as_str().to_string())
}

/// Compiles `pattern` with `regex::Regex::new` and replaces every match of
/// it in `text` by nothing with `Regex::replace_all`: the text without the
/// matches. The contract names the result: it is a function of the two
/// texts.
#[verifier::external_body]
pub(crate) fn delete_matches(pattern: &str, text: &str) -> (r: String)
    ensures
        r@ == regex_without_matches(pattern@, text@),
{
    match regex::Regex::new(pattern) {
        Ok(re) => re.replace_all(text, "").into_owned(),
        Err(_) => String::new(),
    }
}

} // verus!

//! Calls into the `regex` crate: the named group of the first match of a
//! pattern, or of every match.
use vstd::prelude::*;
use regex::Regex;

verus! {

/// The views of the strings in `v`.
pub open spec fn strings_view(v: Seq<String>) -> Seq<Seq<char>> {
    v.map_values(|s: String| s@)
}

/// The view of an optional string.
pub open spec fn opt_string_view(o: Option<String>) -> Option<Seq<char>> {
    match o {
        Some(s) => Some(s@),
        None => None,
    }
}

/// What the `regex` crate finds for `pattern` in `text`: `None` when the pattern
/// does not compile, when it does not match, or when the group named `group`
/// takes no part in the leftmost-first match; else the text of that group.
pub uninterp spec fn regex_first_capture(pattern: Seq<char>, group: Seq<char>, text: Seq<char>) -> Option<Seq<char>>;

/// What the `regex` crate finds for `pattern` in `text` over all successive
/// non-overlapping matches: `None` when the pattern does not compile or when
/// the group named `group` takes no part in one of the matches; else the text
/// of that group in each match, in order.
pub uninterp spec fn regex_all_captures(pattern: Seq<char>, group: Seq<char>, text: Seq<char>) -> Option<Seq<Seq<char>>>;

/// Calls `Regex::new(pattern)`, then `captures(text)` and `name(group)` on the
/// result. The contract only names the result: it is the same for the same
/// three strings.
#[verifier::external_body]
pub(crate) fn first_capture(pattern: &str, group: &str, text: &str) -> (res: Option<String>)
    ensures
        opt_string_view(res) == regex_first_capture(pattern@, group@, text@),
{
    let re = match Regex::new(pattern) {
        Ok(re) => re,
        Err(_) => return None,
    };
    match re.captures(text) {
        Some(caps) => match caps.name(group) {
            Some(m) => Some(m.as_str().to_string()),
            None => None,
        },
        None => None,
    }
}

/// Calls `Regex::new(pattern)`, then `captures_iter(text)` and `name(group)` on
/// each match. The contract only names the result: it is the same for the same
/// three strings.
#[verifier::external_body]
pub(crate) fn all_captures(pattern: &str, group: &str, text: &str) -> (res: Option<Vec<String>>)
    ensures
        match res {
            Some(v) => regex_all_captures(pattern@, group@, text@) == Some(strings_view(v@)),
            None => regex_all_captures(pattern@, group@, text@) is None,
        },
{
    let re = match Regex::new(pattern) {
        Ok(re) => re,
        Err(_) => return None,
    };
    let mut out = Vec::new();
    for caps in re.captures_iter(text) {
        match caps.name(group) {
            Some(m) => out.push(m.as_str().to_string()),
            None => return None,
        }
    }
    Some(out)
}

} // verus!

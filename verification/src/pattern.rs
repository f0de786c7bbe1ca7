//! Regular expressions through the `regex` crate.
use vstd::prelude::*;
use crate::text::chars_of;

verus! {

/// The text of capture group `group` in the leftmost-first match of the regular
/// expression `pattern` in `text` (group 0 is the whole match), or `None` when
/// `pattern` is not a valid expression, nothing matches, or the group took no
/// part in the match.
pub uninterp spec fn regex_group(pattern: Seq<char>, text: Seq<char>, group: nat) -> Option<Seq<char>>;

/// Calls `regex::Regex::new` with `pattern`, then `Regex::captures` on `text`
/// and `Captures::get` for `group`. The contract names the text of that group;
/// nothing more is stated of it.
#[verifier::external_body]
fn captured_group(pattern: &str, text: &str, group: usize) -> (res: Option<String>)
    ensures
        match res {
            Some(s) => regex_group(pattern@, text@, group as nat) == Some(s@),
            None => regex_group(pattern@, text@, group as nat) is None,
        },
{
    let re = match regex::Regex::new(pattern) {
        Ok(re) => re,
        Err(_) => return None,
    };
    let caps = match re.captures(text) {
        Some(caps) => caps,
        None => return None,
    };
    match caps.get(group) {
        Some(m) => Some(m.as_str().to_string()),
        None => None,
    }
}

/// The characters of capture group `group` of the first match of `pattern` in `text`.
pub fn capture(pattern: &str, text: &str, group: usize) -> (res: Option<Vec<char>>)
    ensures
        match res {
            Some(v) => regex_group(pattern@, text@, group as nat) == Some(v@),
            None => regex_group(pattern@, text@, group as nat) is None,
        },
{
    match captured_group(pattern, text, group) {
        Some(s) => Some(chars_of(s.as_str())),
        None => None,
    }
}

/// Whether `pattern` matches somewhere in `text`; `Regex::is_match` answers
/// this, and it matches exactly when there is a leftmost-first match.
pub open spec fn regex_matches(pattern: Seq<char>, text: Seq<char>) -> bool {
    regex_group(pattern, text, 0) is Some
}

/// Whether `pattern` matches somewhere in `text`.
pub fn is_match(pattern: &str, text: &str) -> (res: bool)
    ensures
        res == regex_matches(pattern@, text@),
{
    captured_group(pattern, text, 0).is_some()
}

} // verus!

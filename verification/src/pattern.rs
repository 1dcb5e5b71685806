//! Regular-expression matching, done by the `regex` crate, and the reading of
//! numbers out of capture groups.
use vstd::prelude::*;
use crate::text::{parse_i32, parse_i32_spec};

verus! {

/// The capture groups (group 0 is the whole match; a group that took no part
/// in the match is `None`) of the first match of the regular expression
/// `pattern` in `text`, as `regex` reports them; `None` when nothing matches
/// or `pattern` is not a valid expression.
pub uninterp spec fn regex_first_captures(pattern: Seq<char>, text: Seq<char>) -> Option<
    Seq<Option<Seq<char>>>,
>;

/// `text` with every non-overlapping match of the regular expression
/// `pattern` replaced by `replacement` (read as a `regex` replacement string),
/// as `regex` computes it; `None` when `pattern` is not a valid expression.
pub uninterp spec fn regex_replace_all(
    pattern: Seq<char>,
    text: Seq<char>,
    replacement: Seq<char>,
) -> Option<Seq<char>>;

/// The view of a list of optional capture texts.
pub open spec fn groups_view(v: Seq<Option<Vec<char>>>) -> Seq<Option<Seq<char>>> {
    v.map_values(
        |g: Option<Vec<char>>|
            match g {
                Some(t) => Some(t@),
                None => None,
            },
    )
}

/// The view of the result of `first_captures`.
pub open spec fn captures_view(c: Option<Vec<Option<Vec<char>>>>) -> Option<Seq<Option<Seq<char>>>> {
    match c {
        Some(v) => Some(groups_view(v@)),
        None => None,
    }
}

/// Trusted: compiles `pattern` with `regex::Regex::new` and takes
/// `captures_iter(text).next()`, copying each group's text. The contract
/// only names the result (`regex_first_captures`); nothing is claimed about
/// which text a pattern matches.
#[verifier::external_body]
pub(crate) fn first_captures(pattern: &str, text: &str) -> (r: Option<Vec<Option<Vec<char>>>>)
    ensures
        captures_view(r) == regex_first_captures(pattern@, text@),
{
    let re = regex::Regex::new(pattern).ok()?;
    let caps = re.captures_iter(text).next()?;
    Some(caps.iter().map(|m| m.map(|m| m.as_str().chars().collect())).collect())
}

/// Trusted: compiles `pattern` with `regex::Regex::new` and returns
/// `replace_all(text, replacement)` as characters. The contract only names
/// the result (`regex_replace_all`).
#[verifier::external_body]
pub(crate) fn replace_all(pattern: &str, text: &str, replacement: &str) -> (r: Option<Vec<char>>)
    ensures
        match r {
            Some(v) => regex_replace_all(pattern@, text@, replacement@) == Some(v@),
            None => regex_replace_all(pattern@, text@, replacement@) is None,
        },
{
    let re = regex::Regex::new(pattern).ok()?;
    Some(re.replace_all(text, replacement).chars().collect())
}

/// The text of capture group `k`, when there was a match and the group took
/// part in it.
pub open spec fn group_text(caps: Option<Seq<Option<Seq<char>>>>, k: int) -> Option<Seq<char>> {
    match caps {
        Some(g) => if 0 <= k < g.len() {
            g[k]
        } else {
            None
        },
        None => None,
    }
}

/// Capture group `k` read as an `i32`, as `str::parse::<i32>` reads it.
pub open spec fn group_i32(caps: Option<Seq<Option<Seq<char>>>>, k: int) -> Option<i32> {
    match group_text(caps, k) {
        Some(t) => parse_i32_spec(t),
        None => None,
    }
}

/// The text of capture group `k` of a `first_captures` result.
pub fn capture_text(caps: &Option<Vec<Option<Vec<char>>>>, k: usize) -> (r: Option<&Vec<char>>)
    ensures
        match r {
            Some(t) => group_text(captures_view(*caps), k as int) == Some(t@),
            None => group_text(captures_view(*caps), k as int) is None,
        },
{
    match caps {
        Some(v) => {
            if k < v.len() {
                match &v[k] {
                    Some(t) => Some(t),
                    None => None,
                }
            } else {
                None
            }
        },
        None => None,
    }
}

/// Capture group `k` of a `first_captures` result, read as an `i32`.
pub fn capture_i32(caps: &Option<Vec<Option<Vec<char>>>>, k: usize) -> (r: Option<i32>)
    ensures
        r == group_i32(captures_view(*caps), k as int),
{
    match capture_text(caps, k) {
        Some(t) => parse_i32(t),
        None => None,
    }
}

} // verus!

//! Regular-expression matching, delegated to the `regex` crate.
use vstd::prelude::*;

verus! {

/// Whether the `regex`-crate pattern `pattern` compiles and matches
/// somewhere in `haystack` (`Regex::is_match`).
pub uninterp spec fn regex_matches(pattern: Seq<char>, haystack: Seq<char>) -> bool;

/// `haystack` with every non-overlapping match of `pattern` replaced by the
/// literal `replacement` (`Regex::replace_all`), or `haystack` unchanged when
/// the pattern does not compile.
pub uninterp spec fn regex_replaced_all(pattern: Seq<char>, haystack: Seq<char>, replacement: Seq<char>) -> Seq<char>;

/// `haystack` with the leftmost match of `pattern` replaced by the literal
/// `replacement` (`Regex::replace`), or `haystack` unchanged when the
/// pattern does not compile.
pub uninterp spec fn regex_replaced_first(pattern: Seq<char>, haystack: Seq<char>, replacement: Seq<char>) -> Seq<char>;

/// Capture groups of the leftmost match of `pattern` in `haystack`
/// (`Regex::captures`): `None` when there is no match or the pattern does
/// not compile, otherwise group 0 (the whole match) followed by each group,
/// `None` for a group that did not participate.
pub uninterp spec fn regex_captured(pattern: Seq<char>, haystack: Seq<char>) -> Option<Seq<Option<Seq<char>>>>;

/// Text of group `group` in each successive non-overlapping match of
/// `pattern` in `haystack` (`Regex::captures_iter`), `None` for a match in
/// which the group did not participate.
pub uninterp spec fn regex_all_captured(pattern: Seq<char>, haystack: Seq<char>, group: nat) -> Seq<Option<Seq<char>>>;

/// Pieces of `haystack` between the matches of `pattern` (`Regex::split`).
pub uninterp spec fn regex_pieces(pattern: Seq<char>, haystack: Seq<char>) -> Seq<Seq<char>>;

/// `regex::Regex::new(pattern)` followed by `is_match(haystack)`; a pattern
/// that does not compile matches nothing. The claim is only that the answer
/// is a function of the two strings.
#[verifier::external_body]
pub(crate) fn regex_is_match(pattern: &str, haystack: &str) -> (r: bool)
    ensures
        r == regex_matches(pattern@, haystack@),
{
    match regex::Regex::new(pattern) {
        Ok(re) => re.is_match(haystack),
        Err(_) => false,
    }
}

/// `regex::Regex::replace_all` with a replacement that holds no `$`.
#[verifier::external_body]
pub(crate) fn regex_replace_all(pattern: &str, haystack: &str, replacement: &str) -> (r: String)
    ensures
        r@ == regex_replaced_all(pattern@, haystack@, replacement@),
{
    match regex::Regex::new(pattern) {
        Ok(re) => re.replace_all(haystack, regex::NoExpand(replacement)).into_owned(),
        Err(_) => haystack.to_string(),
    }
}

/// `regex::Regex::replace` (leftmost match only) with a replacement that
/// holds no `$`.
#[verifier::external_body]
pub(crate) fn regex_replace_first(pattern: &str, haystack: &str, replacement: &str) -> (r: String)
    ensures
        r@ == regex_replaced_first(pattern@, haystack@, replacement@),
{
    match regex::Regex::new(pattern) {
        Ok(re) => re.replace(haystack, regex::NoExpand(replacement)).into_owned(),
        Err(_) => haystack.to_string(),
    }
}

/// `regex::Regex::captures`, each group's text copied out.
#[verifier::external_body]
pub(crate) fn regex_captures(pattern: &str, haystack: &str) -> (r: Option<Vec<Option<String>>>)
    ensures
        match r {
            Some(v) => regex_captured(pattern@, haystack@) == Some(
                v@.map_values(|g: Option<String>| match g { Some(s) => Some(s@), None => None }),
            ),
            None => regex_captured(pattern@, haystack@) is None,
        },
{
    let re = match regex::Regex::new(pattern) {
        Ok(re) => re,
        Err(_) => return None,
    };
    re.captures(haystack).map(|c| c.iter().map(|m| m.map(|m| m.as_str().to_string())).collect())
}

/// `regex::Regex::captures_iter`, copying out the text of group `group` of
/// each match.
#[verifier::external_body]
pub(crate) fn regex_captures_all(pattern: &str, haystack: &str, group: usize) -> (r: Vec<Option<String>>)
    ensures
        r@.map_values(|g: Option<String>| match g { Some(s) => Some(s@), None => None })
            == regex_all_captured(pattern@, haystack@, group as nat),
{
    match regex::Regex::new(pattern) {
        Ok(re) => re.captures_iter(haystack).map(|c| c.get(group).map(|m| m.as_str().to_string())).collect(),
        Err(_) => Vec::new(),
    }
}

/// `regex::Regex::split`, each piece copied out.
#[verifier::external_body]
pub(crate) fn regex_split(pattern: &str, haystack: &str) -> (r: Vec<String>)
    ensures
        r@.map_values(|s: String| s@) == regex_pieces(pattern@, haystack@),
{
    match regex::Regex::new(pattern) {
        Ok(re) => re.split(haystack).map(|p| p.to_string()).collect(),
        Err(_) => vec![haystack.to_string()],
    }
}

/// Group `i` of a capture list, when it took part in the match.
pub open spec fn group(gs: Seq<Option<Seq<char>>>, i: int) -> Option<Seq<char>> {
    if 0 <= i < gs.len() { gs[i] } else { None }
}

/// Groups 1 and 2 of the leftmost match of `pattern`, when both are there.
pub open spec fn two_groups(pattern: Seq<char>, u: Seq<char>) -> Option<(Seq<char>, Seq<char>)> {
    match regex_captured(pattern, u) {
        Some(gs) => match (group(gs, 1), group(gs, 2)) {
            (Some(a), Some(b)) => Some((a, b)),
            _ => None,
        },
        None => None,
    }
}

/// Group 1 of the leftmost match of `pattern`, when it is there.
pub open spec fn one_group(pattern: Seq<char>, u: Seq<char>) -> Option<Seq<char>> {
    match regex_captured(pattern, u) {
        Some(gs) => group(gs, 1),
        None => None,
    }
}

pub(crate) fn group_exec(gs: &Vec<Option<String>>, i: usize) -> (r: Option<String>)
    ensures
        match r {
            Some(s) => group(gs@.map_values(|g: Option<String>| match g { Some(s) => Some(s@), None => None }), i as int) == Some(s@),
            None => group(gs@.map_values(|g: Option<String>| match g { Some(s) => Some(s@), None => None }), i as int) is None,
        },
{
    if i < gs.len() {
        match &gs[i] {
            Some(s) => Some(s.clone()),
            None => None,
        }
    } else {
        None
    }
}

pub(crate) fn two_groups_exec(pattern: &str, u: &str) -> (r: Option<(String, String)>)
    ensures
        match two_groups(pattern@, u@) {
            Some((a, b)) => r matches Some(x) && x.0@ == a && x.1@ == b,
            None => r is None,
        },
{
    match regex_captures(pattern, u) {
        Some(gs) => match (group_exec(&gs, 1), group_exec(&gs, 2)) {
            (Some(a), Some(b)) => Some((a, b)),
            _ => None,
        },
        None => None,
    }
}

pub(crate) fn one_group_exec(pattern: &str, u: &str) -> (r: Option<String>)
    ensures
        match one_group(pattern@, u@) {
            Some(a) => r matches Some(x) && x@ == a,
            None => r is None,
        },
{
    match regex_captures(pattern, u) {
        Some(gs) => group_exec(&gs, 1),
        None => None,
    }
}

} // verus!

//! Regular-expression matching, done by the `regex` crate.
use vstd::prelude::*;

verus! {

/// The pattern whose first group is the package of an activity line
/// (`... {hash com.example/.Activity}` gives `com.example`).
pub const COMPONENT_PATTERN: &'static str = ".*\\{([^/]+)/";

/// The capture groups of the first match of `pattern` in `haystack`, as
/// `regex::Regex::new(pattern)` followed by `Regex::captures(haystack)`
/// report them: `None` when the pattern does not compile or does not match;
/// otherwise one entry per group, group 0 being the whole match, and `None`
/// for a group that took no part in the match.
pub uninterp spec fn regex_captures(pattern: Seq<char>, haystack: Seq<char>) -> Option<
    Seq<Option<Seq<char>>>,
>;

pub open spec fn groups_view(g: Seq<Option<String>>) -> Seq<Option<Seq<char>>> {
    Seq::new(
        g.len(),
        |i: int|
            match g[i] {
                Some(s) => Some(s@),
                None => None,
            },
    )
}

/// Group `n` of a capture result.
pub open spec fn group_of(caps: Option<Seq<Option<Seq<char>>>>, n: int) -> Option<Seq<char>> {
    match caps {
        Some(g) => if 0 <= n < g.len() {
            g[n]
        } else {
            None
        },
        None => None,
    }
}

/// Compiles `pattern` with `regex::Regex::new` and runs `Regex::captures` on
/// `haystack`. The contract claims only that the result is the value that
/// `regex_captures` gives for these two texts: the same texts always give the
/// same groups.
#[verifier::external_body]
fn captures(pattern: &str, haystack: &str) -> (r: Option<Vec<Option<String>>>)
    ensures
        match r {
            Some(g) => regex_captures(pattern@, haystack@) == Some(groups_view(g@)),
            None => regex_captures(pattern@, haystack@) is None,
        },
{
    let re = match regex::Regex::new(pattern) {
        Ok(re) => re,
        Err(_) => return None,
    };
    let caps = re.captures(haystack)?;
    let mut groups = Vec::new();
    for m in caps.iter() {
        groups.push(m.map(|m| m.as_str().to_string()));
    }
    Some(groups)
}

/// Group `n` of the first match of `pattern` in `haystack`.
pub fn capture_group(pattern: &str, haystack: &str, n: usize) -> (r: Option<String>)
    ensures
        match r {
            Some(s) => group_of(regex_captures(pattern@, haystack@), n as int) == Some(s@),
            None => group_of(regex_captures(pattern@, haystack@), n as int) is None,
        },
{
    match captures(pattern, haystack) {
        Some(g) => {
            if n < g.len() {
                match &g[n] {
                    Some(s) => Some(s.clone()),
                    None => None,
                }
            } else {
                None
            }
        },
        None => None,
    }
}

} // verus!

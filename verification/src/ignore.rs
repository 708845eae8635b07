//! The ignore filter: a path matching any configured Unix-shell-style glob
//! pattern is suppressed entirely, before any side effect.

use crate::strutil::strs_view;
use vstd::prelude::*;

verus! {

/// Whether `path` matches the glob `pattern`.
pub uninterp spec fn glob_matches(pattern: Seq<char>, path: Seq<char>) -> bool;

/// Relies on glob::Pattern::new and glob::Pattern::matches: whether `path`
/// matches the Unix-shell-style glob `pattern`; a pattern that does not
/// parse matches nothing. The result depends on the two strings alone.
#[verifier::external_body]
pub(crate) fn glob_match(pattern: &String, path: &String) -> (r: bool)
    ensures
        r == glob_matches(pattern@, path@),
{
    match glob::Pattern::new(pattern.as_str()) {
        Ok(p) => p.matches(path.as_str()),
        Err(_) => false,
    }
}

/// Whether any configured pattern matches the path.
pub open spec fn spec_ignored(patterns: Seq<Seq<char>>, path: Seq<char>) -> bool {
    exists|i: int| 0 <= i < patterns.len() && glob_matches(patterns[i], path)
}

/// Whether `path` is suppressed by one of the `patterns`.
pub fn should_ignore(patterns: &Vec<String>, path: &String) -> (r: bool)
    ensures
        r == spec_ignored(strs_view(patterns@), path@),
{
    let mut i: usize = 0;
    while i < patterns.len()
        invariant
            i <= patterns@.len(),
            forall|j: int| 0 <= j < i ==> !glob_matches(strs_view(patterns@)[j], path@),
        decreases patterns@.len() - i,
    {
        if glob_match(&patterns[i], path) {
            proof {
                assert(glob_matches(strs_view(patterns@)[i as int], path@));
            }
            return true;
        }
        i += 1;
    }
    false
}

} // verus!

//! Matching request paths against route patterns.

use vstd::prelude::*;
use crate::errors::RjangoError;
use crate::text::{chars_of, concat2, is_prefix, is_suffix, starts_with, str_eq, string_from_range};

verus! {

/// A path matches a pattern equal to it, or a pattern `prefix/*` when the
/// path starts with `prefix`.
pub open spec fn path_matches_spec(pattern: Seq<char>, path: Seq<char>) -> bool {
    pattern == path || (is_suffix("/*"@, pattern) && is_prefix(pattern.subrange(0, pattern.len() - 2), path))
}

/// Whether `path` matches `pattern` (see [`path_matches_spec`]).
pub fn path_matches(pattern: &str, path: &str) -> (r: bool)
    ensures
        r == path_matches_spec(pattern@, path@),
{
    if str_eq(pattern, path) {
        return true;
    }
    proof {
        reveal_strlit("/*");
        assert("/*"@.len() == 2);
    }
    let v = chars_of(pattern);
    let n = v.len();
    if n >= 2 && v[n - 2] == '/' && v[n - 1] == '*' {
        assert(pattern@.subrange(n - 2, n as int) =~= "/*"@);
        let prefix = string_from_range(&v, 0, n - 2);
        starts_with(path, prefix.as_str())
    } else {
        proof {
            if is_suffix("/*"@, pattern@) {
                assert(pattern@.subrange(n - 2, n as int)[0] == pattern@[n - 2]);
                assert(pattern@.subrange(n - 2, n as int)[1] == pattern@[n - 1]);
            }
        }
        false
    }
}

/// The position of the first pattern that `path` matches.
pub open spec fn first_match(patterns: Seq<Seq<char>>, path: Seq<char>, i: int) -> bool {
    0 <= i < patterns.len() && path_matches_spec(patterns[i], path)
        && forall|j: int| 0 <= j < i ==> !path_matches_spec(#[trigger] patterns[j], path)
}

/// The position of the first route pattern that `path` matches, or a
/// not-found error naming the path when none does.
pub fn match_route(patterns: &Vec<String>, path: &str) -> (r: Result<usize, RjangoError>)
    ensures
        match r {
            Ok(i) => first_match(crate::text::views(patterns@), path@, i as int),
            Err(e) => (forall|j: int| 0 <= j < patterns@.len() ==> !path_matches_spec(#[trigger] patterns@[j]@, path@))
                && (e matches RjangoError::NotFound(m) && m@ == "No route found for: "@ + path@),
        },
{
    let mut i: usize = 0;
    while i < patterns.len()
        invariant
            i <= patterns@.len(),
            forall|j: int| 0 <= j < i ==> !path_matches_spec(#[trigger] patterns@[j]@, path@),
        decreases patterns.len() - i,
    {
        if path_matches(patterns[i].as_str(), path) {
            assert forall|j: int| 0 <= j < i implies !path_matches_spec(#[trigger] crate::text::views(patterns@)[j], path@) by {
                assert(crate::text::views(patterns@)[j] == patterns@[j]@);
            }
            return Ok(i);
        }
        i = i + 1;
    }
    Err(RjangoError::NotFound(concat2("No route found for: ", path)))
}

} // verus!

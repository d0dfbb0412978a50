//! A glob pattern matcher for slash-delimited path strings.
//!
//! The single entry point [`is_match`] decides whether a path string
//! satisfies a glob pattern supporting literals, `?`, `*`, the recursive
//! `**` globstar, and POSIX-style character classes such as `[a-z]` and
//! `[^abc]`. Its behaviour is pinned down by the specification function
//! `glob_match`, and every function in the crate is verified against the
//! corresponding piece of that specification.

mod classes;
mod direct;
pub mod laws;
mod segment;
pub mod semantics;

use crate::semantics::{glob_match, globstar_count, has_doubled_sep};
use vstd::prelude::*;
use vstd::string::StrSliceExecFns;

verus! {

/// Decide whether `input`, a slash-delimited path string, satisfies the
/// glob `pattern`.
///
/// The result is exactly `glob_match` of the two character sequences: an
/// input with a doubled `/` never matches; a pattern whose first
/// character is `*` never matches an input whose first character is `.`;
/// a pattern with two or more globstars is matched segment by segment
/// with memoization, any other pattern by the direct backtracking
/// matcher.
pub fn is_match(input: &str, pattern: &str) -> (r: bool)
    ensures
        r == glob_match(input@, pattern@),
{
    let input_chars = chars_of(input);
    let pattern_chars = chars_of(pattern);
    if find_doubled_sep(&input_chars) {
        return false;
    }
    if pattern_chars.len() > 0 && pattern_chars[0] == '*' && input_chars.len() > 0
        && input_chars[0] == '.' {
        return false;
    }
    if has_multiple_globstars(&pattern_chars) {
        let segments = segment::parse_glob_segments(&pattern_chars);
        return segment::match_with_segments(&input_chars, &segments);
    }
    direct::match_pattern(&input_chars, &pattern_chars, 0, 0)
}

/// Does the pattern contain two or more `**` tokens? Each recognized
/// token advances the scan by two positions, so a recognized globstar is
/// never re-scanned from its second star.
#[verifier::loop_isolation(false)]
fn has_multiple_globstars(pattern: &Vec<char>) -> (r: bool)
    ensures
        r == (globstar_count(pattern@, 0) >= 2),
{
    let plen = pattern.len();
    let mut count: usize = 0;
    let mut i: usize = 0;
    while plen - i > 1
        invariant
            i <= plen,
            count <= 1,
            globstar_count(pattern@, 0) == count + globstar_count(pattern@, i as int),
        decreases plen - i,
    {
        if pattern[i] == '*' && pattern[i + 1] == '*' {
            count = count + 1;
            i = i + 2;
            if count > 1 {
                return true;
            }
        } else {
            i = i + 1;
        }
    }
    false
}

/// Collect the characters of a string slice into a vector.
fn chars_of(s: &str) -> (r: Vec<char>)
    ensures
        r@ == s@,
{
    let n = s.unicode_len();
    let mut r: Vec<char> = Vec::new();
    let mut i: usize = 0;
    while i < n
        invariant
            n == s@.len(),
            i <= n,
            r@ == s@.subrange(0, i as int),
        decreases n - i,
    {
        let c = s.get_char(i);
        r.push(c);
        i = i + 1;
    }
    proof {
        assert(r@ =~= s@);
    }
    r
}

/// Scan for two consecutive `/` characters.
fn find_doubled_sep(input: &Vec<char>) -> (r: bool)
    ensures
        r == has_doubled_sep(input@),
{
    let n = input.len();
    let mut i: usize = 0;
    while n - i > 1
        invariant
            n == input@.len(),
            i <= n,
            forall|k: int| 0 <= k && k + 1 < i + 1 ==> !(#[trigger] input@[k] == '/' && input@[k + 1] == '/'),
        decreases n - i,
    {
        if input[i] == '/' && input[i + 1] == '/' {
            return true;
        }
        i = i + 1;
    }
    false
}

} // verus!

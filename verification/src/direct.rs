//! The direct backtracking matcher, used for patterns with at most one
//! globstar. It walks the input and the pattern by index, trying
//! shortest matches first, and is verified to return exactly
//! `direct_matches` from the semantics module.

use crate::classes::{is_char_in_class, subvec};
use crate::semantics::{
    all_stars, direct_globstar, direct_matches, ext_glob_after, find_close, globstar_search,
    globstar_slash_search, lemma_find_close, needs_intermediate, no_slash, star_search,
};
use vstd::prelude::*;

verus! {

/// Is every pattern character from `pattern_idx` on a `*`?
#[verifier::loop_isolation(false)]
fn tail_all_stars(pattern: &Vec<char>, pattern_idx: usize) -> (r: bool)
    requires
        pattern_idx <= pattern@.len(),
    ensures
        r == all_stars(pattern@, pattern_idx as int),
{
    let n = pattern.len();
    let mut j = pattern_idx;
    while j < n
        invariant
            pattern_idx <= j <= n,
            forall|k: int| pattern_idx <= k < j ==> #[trigger] pattern@[k] == '*',
        decreases n - j,
    {
        if pattern[j] != '*' {
            return false;
        }
        j = j + 1;
    }
    true
}

/// Does the input from `input_idx` on contain no `/`?
#[verifier::loop_isolation(false)]
fn tail_no_slash(input: &Vec<char>, input_idx: usize) -> (r: bool)
    requires
        input_idx <= input@.len(),
    ensures
        r == no_slash(input@, input_idx as int, input@.len() as int),
{
    let n = input.len();
    let mut j = input_idx;
    while j < n
        invariant
            input_idx <= j <= n,
            no_slash(input@, input_idx as int, j as int),
        decreases n - j,
    {
        if input[j] == '/' {
            return false;
        }
        j = j + 1;
    }
    true
}

/// An intermediate directory is required when the globstar has both a
/// `/`-terminated prefix before it and pattern text after it.
/// `globstar_start` is the position just past the two stars.
fn needs_intermediate_directory(pattern: &Vec<char>, globstar_start: usize, next_idx: usize) -> (r:
    bool)
    ensures
        r == needs_intermediate(pattern@, globstar_start as int, next_idx as int),
{
    let start = if globstar_start >= 2 {
        globstar_start - 2
    } else {
        0
    };
    let has_prefix = start > 0 && start - 1 < pattern.len() && pattern[start - 1] == '/';
    let has_suffix = next_idx < pattern.len();
    has_prefix && has_suffix
}

/// Does the pattern remaining at `next_idx` have an extension-glob
/// shape: a leading wildcard with a literal `.` somewhere after it?
#[verifier::loop_isolation(false)]
fn has_multiple_path_components_after_globstar(pattern: &Vec<char>, next_idx: usize) -> (r: bool)
    ensures
        r == ext_glob_after(pattern@, next_idx as int),
{
    let plen = pattern.len();
    if next_idx >= plen {
        return false;
    }
    if pattern[next_idx] != '*' {
        return false;
    }
    let mut j = next_idx;
    while j < plen
        invariant
            next_idx <= j <= plen,
            forall|k: int| next_idx <= k < j ==> #[trigger] pattern@[k] != '.',
        decreases plen - j,
    {
        if pattern[j] == '.' {
            return true;
        }
        j = j + 1;
    }
    false
}

/// The recursive index matcher for patterns with at most one globstar.
#[verifier::loop_isolation(false)]
pub(crate) fn match_pattern(
    input: &Vec<char>,
    pattern: &Vec<char>,
    input_idx: usize,
    pattern_idx: usize,
) -> (r: bool)
    requires
        input_idx <= input@.len(),
        pattern_idx <= pattern@.len(),
    ensures
        r == direct_matches(input@, pattern@, input_idx as int, pattern_idx as int),
    decreases input@.len() - input_idx, pattern@.len() - pattern_idx, 1int,
{
    let ilen = input.len();
    let plen = pattern.len();
    if pattern_idx >= plen && input_idx >= ilen {
        return true;
    }
    if pattern_idx >= plen {
        return false;
    }
    if input_idx >= ilen {
        return tail_all_stars(pattern, pattern_idx);
    }
    let pattern_char = pattern[pattern_idx];
    let input_char = input[input_idx];
    if pattern_char == '*' {
        if pattern_idx + 1 < plen && pattern[pattern_idx + 1] == '*' {
            return match_globstar(input, pattern, input_idx, pattern_idx + 2);
        }
        if pattern_idx + 1 >= plen {
            return tail_no_slash(input, input_idx);
        }
        if match_pattern(input, pattern, input_idx, pattern_idx + 1) {
            return true;
        }
        let mut i = input_idx;
        while i < ilen && input[i] != '/'
            invariant
                input_idx <= i <= ilen,
                star_search(input@, pattern@, input_idx as int, pattern_idx + 1) == star_search(
                    input@,
                    pattern@,
                    i as int,
                    pattern_idx + 1,
                ),
            decreases ilen - i,
        {
            if match_pattern(input, pattern, i + 1, pattern_idx + 1) {
                return true;
            }
            i = i + 1;
        }
        return false;
    }
    if pattern_char == '?' {
        if input_char != '/' {
            return match_pattern(input, pattern, input_idx + 1, pattern_idx + 1);
        } else {
            return false;
        }
    }
    if pattern_char == '[' {
        return match_character_class(input, pattern, input_idx, pattern_idx);
    }
    if input_char == pattern_char {
        return match_pattern(input, pattern, input_idx + 1, pattern_idx + 1);
    }
    false
}

/// The globstar boundary handler. `pattern_idx` is the position just
/// past the two stars; a `/` standing there belongs to the globstar.
#[verifier::loop_isolation(false)]
pub(crate) fn match_globstar(
    input: &Vec<char>,
    pattern: &Vec<char>,
    input_idx: usize,
    pattern_idx: usize,
) -> (r: bool)
    requires
        input_idx <= input@.len(),
        pattern_idx <= pattern@.len(),
    ensures
        r == direct_globstar(input@, pattern@, input_idx as int, pattern_idx as int),
    decreases input@.len() - input_idx, pattern@.len() - pattern_idx, 2int,
{
    let ilen = input.len();
    let plen = pattern.len();
    let mut next_pattern_idx = pattern_idx;
    let has_slash_after_globstar = next_pattern_idx < plen && pattern[next_pattern_idx] == '/';
    if has_slash_after_globstar {
        next_pattern_idx = next_pattern_idx + 1;
    }
    if next_pattern_idx >= plen {
        return true;
    }
    if has_slash_after_globstar {
        let should_require_intermediate = needs_intermediate_directory(
            pattern,
            pattern_idx,
            next_pattern_idx,
        ) && has_multiple_path_components_after_globstar(pattern, next_pattern_idx);
        if !should_require_intermediate {
            if match_pattern(input, pattern, input_idx, next_pattern_idx) {
                return true;
            }
        }
        let mut i = input_idx;
        while i < ilen
            invariant
                input_idx <= i <= ilen,
                globstar_slash_search(input@, pattern@, input_idx as int, next_pattern_idx as int)
                    == globstar_slash_search(input@, pattern@, i as int, next_pattern_idx as int),
            decreases ilen - i,
        {
            if input[i] == '/' {
                if match_pattern(input, pattern, i + 1, next_pattern_idx) {
                    return true;
                }
            }
            i = i + 1;
        }
        return false;
    } else {
        if match_pattern(input, pattern, input_idx, next_pattern_idx) {
            return true;
        }
        let mut i = input_idx;
        while i < ilen
            invariant
                input_idx <= i <= ilen,
                globstar_search(input@, pattern@, input_idx as int, next_pattern_idx as int)
                    == globstar_search(input@, pattern@, i as int, next_pattern_idx as int),
            decreases ilen - i,
        {
            if match_pattern(input, pattern, i + 1, next_pattern_idx) {
                return true;
            }
            i = i + 1;
        }
        return false;
    }
}

/// Match one character-class position of the direct matcher: a class
/// always needs one input character, so exhausted input never matches;
/// otherwise find the closing `]`, evaluate membership, and continue
/// past the class. When no `]` exists in the remaining pattern, `[` is
/// an ordinary literal.
#[verifier::loop_isolation(false)]
pub(crate) fn match_character_class(
    input: &Vec<char>,
    pattern: &Vec<char>,
    input_idx: usize,
    pattern_idx: usize,
) -> (r: bool)
    requires
        pattern_idx < pattern@.len(),
        pattern@[pattern_idx as int] == '[',
    ensures
        r == direct_matches(input@, pattern@, input_idx as int, pattern_idx as int),
    decreases input@.len() - input_idx, pattern@.len() - pattern_idx, 0int,
{
    let ilen = input.len();
    let plen = pattern.len();
    if input_idx >= ilen {
        proof {
            // With the pattern still at `[`, the remaining pattern is not
            // all stars, so exhausted input cannot match.
            assert(pattern@[pattern_idx as int] != '*');
        }
        return false;
    }
    let input_char = input[input_idx];
    let mut class_end = pattern_idx + 1;
    while class_end < plen && pattern[class_end] != ']'
        invariant
            pattern_idx + 1 <= class_end <= plen,
            find_close(pattern@, pattern_idx + 1) == find_close(pattern@, class_end as int),
        decreases plen - class_end,
    {
        class_end = class_end + 1;
    }
    proof {
        lemma_find_close(pattern@, pattern_idx + 1);
    }
    if class_end >= plen {
        if input_char == '[' {
            return match_pattern(input, pattern, input_idx + 1, pattern_idx + 1);
        } else {
            return false;
        }
    }
    let class_content = subvec(pattern, pattern_idx + 1, class_end);
    let is_negated = class_content.len() > 0 && class_content[0] == '^';
    let found = if is_negated {
        is_char_in_class(input_char, &class_content, 1)
    } else {
        is_char_in_class(input_char, &class_content, 0)
    };
    let result = if is_negated {
        !found
    } else {
        found
    };
    if result {
        match_pattern(input, pattern, input_idx + 1, class_end + 1)
    } else {
        false
    }
}

} // verus!

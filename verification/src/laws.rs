//! General properties of the matcher, stated and proved against the
//! specification functions that `is_match` is verified to compute.

use crate::semantics::{
    all_stars, direct_globstar, direct_matches, glob_match, globstar_count, has_doubled_sep,
};
use vstd::prelude::*;

verus! {

/// A pattern with no `*` anywhere yields zero globstar tokens.
proof fn lemma_no_star_count(p: Seq<char>, i: int)
    requires
        0 <= i,
        forall|j: int| 0 <= j < p.len() ==> #[trigger] p[j] != '*',
    ensures
        globstar_count(p, i) == 0,
    decreases p.len() - i,
{
    if i + 1 < p.len() {
        lemma_no_star_count(p, i + 1);
    }
}

/// The direct matcher on a pattern free of `*`, `?` and `[` from `pi` on
/// accepts exactly the input whose suffix equals the pattern's suffix.
proof fn lemma_literal_direct(input: Seq<char>, p: Seq<char>, ii: int, pi: int)
    requires
        0 <= ii <= input.len(),
        0 <= pi <= p.len(),
        forall|j: int|
            pi <= j < p.len() ==> #[trigger] p[j] != '*' && p[j] != '?' && p[j] != '[',
    ensures
        direct_matches(input, p, ii, pi) == (input.subrange(ii, input.len() as int) == p.subrange(
            pi,
            p.len() as int,
        )),
    decreases input.len() - ii,
{
    let tail_in = input.subrange(ii, input.len() as int);
    let tail_pat = p.subrange(pi, p.len() as int);
    if pi >= p.len() && ii >= input.len() {
        assert(tail_in =~= tail_pat);
    } else if pi >= p.len() {
        assert(tail_in.len() > 0);
    } else if ii >= input.len() {
        assert(!all_stars(p, pi)) by {
            assert(p[pi] != '*');
        }
        assert(tail_pat.len() > 0);
    } else {
        assert(p[pi] != '*' && p[pi] != '?' && p[pi] != '[');
        lemma_literal_direct(input, p, ii + 1, pi + 1);
        let rest_in = input.subrange(ii + 1, input.len() as int);
        let rest_pat = p.subrange(pi + 1, p.len() as int);
        if input[ii] == p[pi] && rest_in == rest_pat {
            assert(rest_in.len() == rest_pat.len());
            assert(tail_in.len() == tail_pat.len());
            assert forall|k: int| 0 <= k < tail_in.len() implies tail_in[k] == tail_pat[k] by {
                assert(tail_in[k] == input[ii + k]);
                assert(tail_pat[k] == p[pi + k]);
                if k > 0 {
                    assert(rest_in[k - 1] == input[ii + k]);
                    assert(rest_pat[k - 1] == p[pi + k]);
                    assert(rest_in[k - 1] == rest_pat[k - 1]);
                }
            }
            assert(tail_in =~= tail_pat);
        }
        if tail_in == tail_pat {
            assert(tail_in.len() == tail_pat.len());
            assert(tail_in[0] == tail_pat[0]);
            assert forall|k: int| 0 <= k < rest_in.len() implies rest_in[k] == rest_pat[k] by {
                assert(rest_in[k] == input[ii + 1 + k]);
                assert(rest_pat[k] == p[pi + 1 + k]);
                assert(tail_in[k + 1] == input[ii + k + 1]);
                assert(tail_pat[k + 1] == p[pi + k + 1]);
            }
            assert(rest_in =~= rest_pat);
        }
    }
}

/// A pattern made only of ordinary characters (no `*`, `?` or `[`)
/// matches exactly itself, and only when the path has no doubled
/// separator: matching a literal string against itself succeeds, and
/// against any other string fails.
pub proof fn lemma_literal_pattern_exact(input: Seq<char>, pattern: Seq<char>)
    requires
        forall|j: int|
            0 <= j < pattern.len() ==> #[trigger] pattern[j] != '*' && pattern[j] != '?'
                && pattern[j] != '[',
    ensures
        glob_match(input, pattern) == (input == pattern && !has_doubled_sep(input)),
{
    if !has_doubled_sep(input) {
        lemma_no_star_count(pattern, 0);
        lemma_literal_direct(input, pattern, 0, 0);
        assert(input.subrange(0, input.len() as int) =~= input);
        assert(pattern.subrange(0, pattern.len() as int) =~= pattern);
    }
}

/// A pattern with fewer than two globstars that passes the validity and
/// dot-file gates is decided by the direct backtracking matcher alone:
/// no segment parse and no memo table take part in the answer.
pub proof fn lemma_few_globstars_route_direct(input: Seq<char>, pattern: Seq<char>)
    requires
        globstar_count(pattern, 0) < 2,
        !has_doubled_sep(input),
        !(pattern.len() > 0 && pattern[0] == '*' && input.len() > 0 && input[0] == '.'),
    ensures
        glob_match(input, pattern) == direct_matches(input, pattern, 0, 0),
{
}

/// Matching is a pure function of the path and the pattern: any two
/// results obtained for the same pair are identical, so repeated calls
/// of the matcher agree.
pub proof fn lemma_match_deterministic(r1: bool, r2: bool, input: Seq<char>, pattern: Seq<char>)
    requires
        r1 == glob_match(input, pattern),
        r2 == glob_match(input, pattern),
    ensures
        r1 == r2,
{
}

/// Dot-file gating: a pattern beginning with `*` never matches an input
/// beginning with `.`, whatever the rest of either looks like.
pub proof fn lemma_dotfile_gate(input: Seq<char>, pattern: Seq<char>)
    requires
        pattern.len() > 0,
        pattern[0] == '*',
        input.len() > 0,
        input[0] == '.',
    ensures
        !glob_match(input, pattern),
{
}

/// A path holding two consecutive separators matches no pattern at all.
pub proof fn lemma_doubled_sep_rejected(input: Seq<char>, pattern: Seq<char>)
    requires
        has_doubled_sep(input),
    ensures
        !glob_match(input, pattern),
{
}

/// Globstar absorption: the bare pattern `**` matches every valid path
/// that the dot-file gate lets through, across any number of separators.
pub proof fn lemma_globstar_absorbs_all(input: Seq<char>, pattern: Seq<char>)
    requires
        pattern == seq!['*', '*'],
        !has_doubled_sep(input),
        input.len() > 0 ==> input[0] != '.',
    ensures
        glob_match(input, pattern),
{
    assert(pattern.len() == 2 && pattern[0] == '*' && pattern[1] == '*');
    assert(globstar_count(pattern, 0) == 1) by {
        assert(globstar_count(pattern, 2) == 0);
    }
    if input.len() == 0 {
        assert(all_stars(pattern, 0));
        assert(direct_matches(input, pattern, 0, 0));
    } else {
        assert(direct_globstar(input, pattern, 0, 2));
        assert(direct_matches(input, pattern, 0, 0));
    }
}

} // verus!

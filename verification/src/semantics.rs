//! The mathematical model of the matcher.
//!
//! Everything the library promises is stated in terms of the functions in
//! this module. `glob_match` is the top-level definition: it rejects paths
//! with doubled separators, applies dot-file gating, and dispatches to
//! either the direct backtracking semantics (`direct_matches`) or, for
//! patterns with two or more globstars, the segment-based semantics
//! (`seg_matches` over `parse_from`).

use vstd::prelude::*;

verus! {

/// A parsed pattern segment, at the specification level.
///
/// - `Literal(text)`: a maximal run of ordinary characters.
/// - `Wildcard`: `*`, one or more non-`/` characters in the segment matcher.
/// - `Globstar`: `**`, any characters including `/`, zero or more.
/// - `CharClass(raw)`: the bracketed text `[...]`, brackets included.
pub enum SegSpec {
    Literal(Seq<char>),
    Wildcard,
    Globstar,
    CharClass(Seq<char>),
}

/// A path containing an empty segment (two consecutive separators) is
/// invalid and never matches any pattern.
pub open spec fn has_doubled_sep(s: Seq<char>) -> bool {
    exists|i: int| 0 <= i && i + 1 < s.len() && #[trigger] s[i] == '/' && s[i + 1] == '/'
}

/// No `/` occurs in `s` at any index in `[from, to)`.
pub open spec fn no_slash(s: Seq<char>, from: int, to: int) -> bool {
    forall|j: int| from <= j < to ==> #[trigger] s[j] != '/'
}

/// Every pattern character from `pi` on is `*`.
pub open spec fn all_stars(p: Seq<char>, pi: int) -> bool {
    forall|j: int| pi <= j < p.len() ==> #[trigger] p[j] == '*'
}

/// Number of `**` tokens found scanning left to right; each recognized
/// token advances the scan by two, so overlapping stars are not recounted.
pub open spec fn globstar_count(p: Seq<char>, i: int) -> nat
    decreases p.len() - i,
{
    if !(i + 1 < p.len()) {
        0
    } else if p[i] == '*' && p[i + 1] == '*' {
        1 + globstar_count(p, i + 2)
    } else {
        globstar_count(p, i + 1)
    }
}

/// Index of the first `]` at or after `from`; `p.len()` if there is none.
pub open spec fn find_close(p: Seq<char>, from: int) -> int
    decreases p.len() - from,
{
    if from >= p.len() {
        p.len() as int
    } else if p[from] == ']' {
        from
    } else {
        find_close(p, from + 1)
    }
}

/// `find_close` stays within `[from, p.len()]`, lands on a `]` when one
/// exists, and skips no earlier `]`.
pub proof fn lemma_find_close(p: Seq<char>, from: int)
    requires
        from <= p.len(),
    ensures
        from <= find_close(p, from) <= p.len(),
        find_close(p, from) < p.len() ==> p[find_close(p, from)] == ']',
        forall|j: int| from <= j < find_close(p, from) ==> p[j] != ']',
    decreases p.len() - from,
{
    if from < p.len() && p[from] != ']' {
        lemma_find_close(p, from + 1);
    }
}

/// Membership of `c` in the class content starting at index `i`: a
/// position forms an inclusive code-point range when a `-` follows it and
/// a further character follows the `-`; otherwise it is a literal member.
pub open spec fn in_class_from(c: char, content: Seq<char>, i: int) -> bool
    decreases content.len() - i,
{
    if i >= content.len() {
        false
    } else if i + 1 < content.len() && i + 2 < content.len() && content[i + 1] == '-' {
        (content[i] as u32 <= c as u32 && c as u32 <= content[i + 2] as u32)
            || in_class_from(c, content, i + 3)
    } else {
        c == content[i] || in_class_from(c, content, i + 1)
    }
}

/// Membership of `c` in a class body (the text between the brackets):
/// a leading `^` negates the remainder.
pub open spec fn class_content_matches(c: char, content: Seq<char>) -> bool {
    if content.len() > 0 && content[0] == '^' {
        !in_class_from(c, content, 1)
    } else {
        in_class_from(c, content, 0)
    }
}

/// Membership of `c` in a raw bracketed class, brackets included. A
/// payload that is not of the shape `[` ... `]` matches nothing.
pub open spec fn raw_class_matches(c: char, raw: Seq<char>) -> bool {
    &&& raw.len() >= 3
    &&& raw[0] == '['
    &&& raw[raw.len() - 1] == ']'
    &&& class_content_matches(c, raw.subrange(1, raw.len() - 1))
}

/// Whether the globstar ending just before `pi` has both a `/`-terminated
/// prefix before it and any pattern remaining after it. `pi` is the
/// position just past the `**`; `next` is `pi` past an optional `/`.
pub open spec fn needs_intermediate(p: Seq<char>, pi: int, next: int) -> bool {
    let start = if pi >= 2 { pi - 2 } else { 0 };
    let has_prefix = start > 0 && start - 1 < p.len() && p[start - 1] == '/';
    let has_suffix = next < p.len();
    has_prefix && has_suffix
}

/// Whether the pattern remaining at `next` is an extension-glob shape: it
/// begins with a wildcard and contains a literal `.` somewhere after.
pub open spec fn ext_glob_after(p: Seq<char>, next: int) -> bool {
    if next >= p.len() {
        false
    } else {
        p[next] == '*' && exists|j: int| next <= j < p.len() && #[trigger] p[j] == '.'
    }
}

/// The backtracking search of a single `*`: starting at input position
/// `j`, stop at the first `/` or the end of the input; before stopping,
/// let the star absorb `input[j]` and try the rest of the pattern at
/// every following position, shortest absorption first.
pub open spec fn star_search(input: Seq<char>, p: Seq<char>, j: int, pi: int) -> bool
    decreases input.len() - j, p.len() - pi, 0int,
{
    if j >= input.len() {
        false
    } else if input[j] == '/' {
        false
    } else {
        direct_matches(input, p, j + 1, pi) || star_search(input, p, j + 1, pi)
    }
}

/// The backtracking search of an un-anchored globstar (no `/` after it):
/// let it absorb one more character of any kind, separators included, and
/// try the rest of the pattern after each absorption.
pub open spec fn globstar_search(input: Seq<char>, p: Seq<char>, j: int, pi: int) -> bool
    decreases input.len() - j, p.len() - pi, 0int,
{
    if j >= input.len() {
        false
    } else {
        direct_matches(input, p, j + 1, pi) || globstar_search(input, p, j + 1, pi)
    }
}

/// The backtracking search of a `/`-anchored globstar: scan the input
/// forward for `/` boundaries and try resuming the rest of the pattern
/// immediately after each one, nearest boundary first.
pub open spec fn globstar_slash_search(input: Seq<char>, p: Seq<char>, j: int, pi: int) -> bool
    decreases input.len() - j, p.len() - pi, 0int,
{
    if j >= input.len() {
        false
    } else {
        (input[j] == '/' && direct_matches(input, p, j + 1, pi)) || globstar_slash_search(
            input,
            p,
            j + 1,
            pi,
        )
    }
}

/// The direct backtracking matcher: does `input[ii..]` match `p[pi..]`?
///
/// - Both exhausted: match. Pattern exhausted first: no match. Input
///   exhausted first: match iff every remaining pattern character is `*`.
/// - `**` delegates to `direct_globstar` past the two stars.
/// - A trailing single `*` matches the rest of the input iff it contains
///   no `/`; otherwise `*` matches zero or more non-`/` characters.
/// - `?` matches exactly one non-`/` character.
/// - `[` opens a character class when a closing `]` exists anywhere in the
///   remaining pattern; otherwise it is an ordinary literal character.
pub open spec fn direct_matches(input: Seq<char>, p: Seq<char>, ii: int, pi: int) -> bool
    decreases input.len() - ii, p.len() - pi, 1int,
{
    if pi >= p.len() && ii >= input.len() {
        true
    } else if pi >= p.len() {
        false
    } else if ii >= input.len() {
        all_stars(p, pi)
    } else if p[pi] == '*' {
        if pi + 1 < p.len() && p[pi + 1] == '*' {
            direct_globstar(input, p, ii, pi + 2)
        } else if !(pi + 1 < p.len()) {
            no_slash(input, ii, input.len() as int)
        } else {
            direct_matches(input, p, ii, pi + 1) || star_search(input, p, ii, pi + 1)
        }
    } else if p[pi] == '?' {
        input[ii] != '/' && direct_matches(input, p, ii + 1, pi + 1)
    } else if p[pi] == '[' {
        let ce = find_close(p, pi + 1);
        if ce < p.len() {
            class_content_matches(input[ii], p.subrange(pi + 1, ce)) && direct_matches(
                input,
                p,
                ii + 1,
                ce + 1,
            )
        } else {
            input[ii] == '[' && direct_matches(input, p, ii + 1, pi + 1)
        }
    } else {
        input[ii] == p[pi] && direct_matches(input, p, ii + 1, pi + 1)
    }
}

/// The globstar boundary rule of the direct matcher. `pi` is the position
/// just past the two stars; an immediately following `/` belongs to the
/// globstar.
///
/// - Nothing after the globstar: it absorbs the whole remaining input.
/// - A `/` followed it: a zero-length match of the globstar is attempted
///   unless an intermediate directory is required (the globstar had a
///   `/`-terminated prefix and an extension-glob suffix); then the match
///   resumes immediately after each `/` boundary at or past the current
///   position, and nowhere else.
/// - No `/` followed it: the globstar may absorb any run of characters,
///   separators included.
pub open spec fn direct_globstar(input: Seq<char>, p: Seq<char>, ii: int, pi: int) -> bool
    decreases input.len() - ii, p.len() - pi, 2int,
{
    let has_sep = pi < p.len() && p[pi] == '/';
    let next = if has_sep {
        pi + 1
    } else {
        pi
    };
    if next >= p.len() {
        true
    } else if has_sep {
        let zero_allowed = !(needs_intermediate(p, pi, next) && ext_glob_after(p, next));
        (zero_allowed && direct_matches(input, p, ii, next)) || globstar_slash_search(
            input,
            p,
            ii,
            next,
        )
    } else {
        direct_matches(input, p, ii, next) || globstar_search(input, p, ii, next)
    }
}

/// Every segment from `si` on is a globstar.
pub open spec fn all_globstars(segs: Seq<SegSpec>, si: int) -> bool {
    forall|j: int| si <= j < segs.len() ==> #[trigger] segs[j] is Globstar
}

/// The backtracking search of a `Wildcard` segment: it must absorb
/// `input[j]` (stopping at a `/` or the end of the input) before the
/// remaining segments are tried at each following position, so it matches
/// one or more non-`/` characters, never zero.
pub open spec fn wildcard_search(input: Seq<char>, segs: Seq<SegSpec>, j: int, si: int) -> bool
    decreases input.len() - j, segs.len() - si,
{
    if j >= input.len() {
        false
    } else if input[j] == '/' {
        false
    } else {
        seg_matches(input, segs, j + 1, si) || wildcard_search(input, segs, j + 1, si)
    }
}

/// The backtracking search of a `Globstar` segment past its zero-length
/// attempt: absorb one more character of any kind and try the remaining
/// segments after each absorption.
pub open spec fn seg_globstar_search(input: Seq<char>, segs: Seq<SegSpec>, j: int, si: int) -> bool
    decreases input.len() - j, segs.len() - si,
{
    if j >= input.len() {
        false
    } else {
        seg_matches(input, segs, j + 1, si) || seg_globstar_search(input, segs, j + 1, si)
    }
}

/// The segment matcher: does `input[ii..]` match `segs[si..]`?
///
/// Unlike the direct matcher, a `Wildcard` here requires one or more
/// non-`/` characters; only a `Globstar` can match empty input.
pub open spec fn seg_matches(input: Seq<char>, segs: Seq<SegSpec>, ii: int, si: int) -> bool
    decreases input.len() - ii, segs.len() - si,
{
    if si >= segs.len() {
        ii >= input.len()
    } else if ii >= input.len() {
        all_globstars(segs, si)
    } else {
        match segs[si] {
            SegSpec::Literal(lit) => {
                if ii + lit.len() <= input.len() && input.subrange(ii, ii + lit.len() as int)
                    == lit {
                    seg_matches(input, segs, ii + lit.len(), si + 1)
                } else {
                    false
                }
            },
            SegSpec::Wildcard => wildcard_search(input, segs, ii, si + 1),
            SegSpec::Globstar => seg_matches(input, segs, ii, si + 1) || seg_globstar_search(
                input,
                segs,
                ii,
                si + 1,
            ),
            SegSpec::CharClass(raw) => raw_class_matches(input[ii], raw) && seg_matches(
                input,
                segs,
                ii + 1,
                si + 1,
            ),
        }
    }
}

/// The segments produced from pattern position `i` onward, given the
/// literal run accumulated so far. `**` owns one immediately following
/// `/`; `[` packages everything through the first later `]`, and when no
/// `]` exists in the rest of the pattern it is not a class at all: the
/// `[` joins the literal run like any ordinary character.
pub open spec fn parse_from(p: Seq<char>, i: int, lit: Seq<char>) -> Seq<SegSpec>
    decreases p.len() - i,
{
    if i >= p.len() {
        if lit.len() > 0 {
            seq![SegSpec::Literal(lit)]
        } else {
            Seq::empty()
        }
    } else if p[i] == '*' && i + 1 < p.len() && p[i + 1] == '*' {
        let flushed: Seq<SegSpec> = if lit.len() > 0 {
            seq![SegSpec::Literal(lit)]
        } else {
            Seq::empty()
        };
        let after = if i + 2 < p.len() && p[i + 2] == '/' {
            i + 3
        } else {
            i + 2
        };
        flushed + seq![SegSpec::Globstar] + parse_from(p, after, Seq::empty())
    } else if p[i] == '*' {
        let flushed: Seq<SegSpec> = if lit.len() > 0 {
            seq![SegSpec::Literal(lit)]
        } else {
            Seq::empty()
        };
        flushed + seq![SegSpec::Wildcard] + parse_from(p, i + 1, Seq::empty())
    } else if p[i] == '[' {
        let ce = find_close(p, i + 1);
        proof {
            lemma_find_close(p, i + 1);
        }
        if ce < p.len() {
            let flushed: Seq<SegSpec> = if lit.len() > 0 {
                seq![SegSpec::Literal(lit)]
            } else {
                Seq::empty()
            };
            flushed + seq![SegSpec::CharClass(p.subrange(i, ce + 1))] + parse_from(
                p,
                ce + 1,
                Seq::empty(),
            )
        } else {
            parse_from(p, i + 1, lit.push(p[i]))
        }
    } else {
        parse_from(p, i + 1, lit.push(p[i]))
    }
}

/// The full segment sequence of a pattern.
pub open spec fn parse_glob(p: Seq<char>) -> Seq<SegSpec> {
    parse_from(p, 0, Seq::empty())
}

/// What `is_match` returns: doubled separators in the path never match;
/// a pattern starting with `*` never matches a path starting with `.`;
/// patterns with two or more globstars use the segment matcher, all
/// others the direct matcher.
pub open spec fn glob_match(input: Seq<char>, p: Seq<char>) -> bool {
    if has_doubled_sep(input) {
        false
    } else if p.len() > 0 && p[0] == '*' && input.len() > 0 && input[0] == '.' {
        false
    } else if globstar_count(p, 0) >= 2 {
        seg_matches(input, parse_glob(p), 0, 0)
    } else {
        direct_matches(input, p, 0, 0)
    }
}

} // verus!

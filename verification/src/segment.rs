//! The segment-based memoized matcher, used for patterns containing two
//! or more globstars. The pattern is first parsed into typed segments;
//! the matcher then walks `(input position, segment position)` pairs with
//! a memo table, which bounds the work by a polynomial in the number of
//! segments times the input length.

use crate::classes::{matches_char_class, subvec};
use crate::semantics::{
    all_globstars, find_close, lemma_find_close, parse_from, parse_glob, seg_globstar_search,
    seg_matches, wildcard_search, SegSpec,
};
use vstd::prelude::*;

verus! {

/// A parsed pattern segment.
pub(crate) enum GlobSegment {
    /// A maximal run of ordinary characters.
    Literal(Vec<char>),
    /// A single `*`.
    Wildcard,
    /// A `**`, together with one directly following `/` it owns.
    Globstar,
    /// The raw bracketed text `[...]`, brackets included.
    CharClass(Vec<char>),
}

impl View for GlobSegment {
    type V = SegSpec;

    closed spec fn view(&self) -> SegSpec {
        match self {
            GlobSegment::Literal(text) => SegSpec::Literal(text@),
            GlobSegment::Wildcard => SegSpec::Wildcard,
            GlobSegment::Globstar => SegSpec::Globstar,
            GlobSegment::CharClass(raw) => SegSpec::CharClass(raw@),
        }
    }
}

/// The specification-level value of a segment vector.
pub(crate) open spec fn segs_view(segs: Seq<GlobSegment>) -> Seq<SegSpec> {
    Seq::new(segs.len(), |i: int| segs[i]@)
}

/// Tokenize a pattern into segments, flushing the accumulated literal
/// run at every wildcard, globstar or class boundary and at the end.
#[verifier::loop_isolation(false)]
pub(crate) fn parse_glob_segments(pattern: &Vec<char>) -> (segments: Vec<GlobSegment>)
    ensures
        segs_view(segments@) == parse_glob(pattern@),
{
    let plen = pattern.len();
    let mut segments: Vec<GlobSegment> = Vec::new();
    let mut i: usize = 0;
    let mut current_literal: Vec<char> = Vec::new();
    while i < plen
        invariant
            i <= plen,
            parse_glob(pattern@) == segs_view(segments@) + parse_from(
                pattern@,
                i as int,
                current_literal@,
            ),
        decreases plen - i,
    {
        let ghost old_segs = segments@;
        let ghost old_lit = current_literal@;
        let ghost old_i = i as int;
        let c = pattern[i];
        if c == '*' && i + 1 < plen && pattern[i + 1] == '*' {
            if current_literal.len() > 0 {
                segments.push(GlobSegment::Literal(current_literal));
                current_literal = Vec::new();
            }
            segments.push(GlobSegment::Globstar);
            i = i + 2;
            if i < plen && pattern[i] == '/' {
                i = i + 1;
            }
            proof {
                assert(current_literal@ =~= Seq::<char>::empty());
                let flushed: Seq<SegSpec> = if old_lit.len() > 0 {
                    seq![SegSpec::Literal(old_lit)]
                } else {
                    Seq::empty()
                };
                assert(parse_from(pattern@, old_i, old_lit) =~= flushed + seq![SegSpec::Globstar]
                    + parse_from(pattern@, i as int, Seq::empty()));
                assert(segs_view(segments@) =~~= segs_view(old_segs) + flushed
                    + seq![SegSpec::Globstar]);
                assert(segs_view(segments@) + parse_from(pattern@, i as int, current_literal@)
                    =~= segs_view(old_segs) + parse_from(pattern@, old_i, old_lit));
            }
        } else if c == '*' {
            if current_literal.len() > 0 {
                segments.push(GlobSegment::Literal(current_literal));
                current_literal = Vec::new();
            }
            segments.push(GlobSegment::Wildcard);
            i = i + 1;
            proof {
                assert(current_literal@ =~= Seq::<char>::empty());
                let flushed: Seq<SegSpec> = if old_lit.len() > 0 {
                    seq![SegSpec::Literal(old_lit)]
                } else {
                    Seq::empty()
                };
                assert(parse_from(pattern@, old_i, old_lit) =~= flushed + seq![SegSpec::Wildcard]
                    + parse_from(pattern@, i as int, Seq::empty()));
                assert(segs_view(segments@) =~~= segs_view(old_segs) + flushed
                    + seq![SegSpec::Wildcard]);
                assert(segs_view(segments@) + parse_from(pattern@, i as int, current_literal@)
                    =~= segs_view(old_segs) + parse_from(pattern@, old_i, old_lit));
            }
        } else if c == '[' {
            let mut j = i + 1;
            while j < plen && pattern[j] != ']'
                invariant
                    i + 1 <= j <= plen,
                    find_close(pattern@, i + 1) == find_close(pattern@, j as int),
                decreases plen - j,
            {
                j = j + 1;
            }
            proof {
                lemma_find_close(pattern@, i + 1);
            }
            if j < plen {
                if current_literal.len() > 0 {
                    segments.push(GlobSegment::Literal(current_literal));
                    current_literal = Vec::new();
                }
                let payload = subvec(pattern, i, j + 1);
                segments.push(GlobSegment::CharClass(payload));
                i = j + 1;
                proof {
                    assert(current_literal@ =~= Seq::<char>::empty());
                    let flushed: Seq<SegSpec> = if old_lit.len() > 0 {
                        seq![SegSpec::Literal(old_lit)]
                    } else {
                        Seq::empty()
                    };
                    let raw = segments@[segments@.len() - 1]@;
                    assert(parse_from(pattern@, old_i, old_lit) =~= flushed + seq![raw]
                        + parse_from(pattern@, i as int, Seq::empty()));
                    assert(segs_view(segments@) =~~= segs_view(old_segs) + flushed + seq![raw]);
                    assert(segs_view(segments@) + parse_from(pattern@, i as int, current_literal@)
                        =~= segs_view(old_segs) + parse_from(pattern@, old_i, old_lit));
                }
            } else {
                // No closing bracket anywhere after it: not a class. The
                // `[` joins the literal run like an ordinary character.
                current_literal.push(c);
                i = i + 1;
                proof {
                    assert(parse_from(pattern@, old_i, old_lit) == parse_from(
                        pattern@,
                        i as int,
                        current_literal@,
                    ));
                }
            }
        } else {
            current_literal.push(c);
            i = i + 1;
            proof {
                assert(parse_from(pattern@, old_i, old_lit) == parse_from(
                    pattern@,
                    i as int,
                    current_literal@,
                ));
            }
        }
    }
    if current_literal.len() > 0 {
        segments.push(GlobSegment::Literal(current_literal));
        proof {
            assert(segs_view(segments@) =~~= parse_glob(pattern@));
        }
    } else {
        proof {
            assert(segs_view(segments@) =~~= parse_glob(pattern@));
        }
    }
    segments
}

/// The memo slot of the pair `(a, b)` in a row-major table with `cols`
/// segment positions per input position.
pub(crate) open spec fn memo_idx(a: int, b: int, cols: int) -> int {
    a * cols + b
}

/// The memo table is either absent (empty, when its full size would not
/// fit in a `usize`) or sized for every `(input position, segment
/// position)` pair; every populated entry holds exactly the segment
/// matcher's answer for its pair, so a cached value is always the value
/// that recomputation would produce.
pub(crate) open spec fn memo_valid(
    input: Seq<char>,
    segs: Seq<SegSpec>,
    m: Seq<Option<bool>>,
) -> bool {
    &&& (m.len() == 0 || m.len() == input.len() * segs.len())
    &&& forall|a: int, b: int|
        (0 <= a < input.len() && 0 <= b < segs.len() && m.len() != 0) ==> ((#[trigger] m[memo_idx(
            a,
            b,
            segs.len() as int,
        )]) matches Some(v) ==> v == seg_matches(input, segs, a, b))
}

proof fn lemma_memo_idx_bound(a: int, b: int, rows: int, cols: int)
    by (nonlinear_arith)
    requires
        0 <= a < rows,
        0 <= b < cols,
    ensures
        0 <= a * cols + b < rows * cols,
{
}

proof fn lemma_memo_idx_inj(a1: int, b1: int, a2: int, b2: int, cols: int)
    by (nonlinear_arith)
    requires
        0 <= b1 < cols,
        0 <= b2 < cols,
        0 <= a1,
        0 <= a2,
        a1 * cols + b1 == a2 * cols + b2,
    ensures
        a1 == a2,
        b1 == b2,
{
}

/// Is every segment from `segment_idx` on a globstar?
#[verifier::loop_isolation(false)]
fn tail_all_globstars(segments: &Vec<GlobSegment>, segment_idx: usize) -> (r: bool)
    requires
        segment_idx <= segments@.len(),
    ensures
        r == all_globstars(segs_view(segments@), segment_idx as int),
{
    let slen = segments.len();
    let mut j = segment_idx;
    while j < slen
        invariant
            segment_idx <= j <= slen,
            forall|k: int|
                segment_idx <= k < j ==> (#[trigger] segs_view(segments@)[k]) is Globstar,
        decreases slen - j,
    {
        match &segments[j] {
            GlobSegment::Globstar => {},
            _ => {
                proof {
                    assert(!(segs_view(segments@)[j as int] is Globstar));
                }
                return false;
            },
        }
        j = j + 1;
    }
    true
}

/// Consult the memo before recomputing a pair, and record the computed
/// answer afterwards: on return the pair's slot holds the result, and a
/// slot once populated is never overwritten or invalidated, so the first
/// computed value is the one every later lookup reuses. Boundary pairs
/// (input or segments exhausted) are cheap and are computed directly,
/// outside the table.
pub(crate) fn match_segments_with_memo(
    input: &Vec<char>,
    input_idx: usize,
    segments: &Vec<GlobSegment>,
    segment_idx: usize,
    memo: &mut Vec<Option<bool>>,
) -> (r: bool)
    requires
        input_idx <= input@.len(),
        segment_idx <= segments@.len(),
        memo_valid(input@, segs_view(segments@), old(memo)@),
    ensures
        memo_valid(input@, segs_view(segments@), final(memo)@),
        r == seg_matches(input@, segs_view(segments@), input_idx as int, segment_idx as int),
        final(memo)@.len() == old(memo)@.len(),
        (input_idx < input@.len() && segment_idx < segments@.len() && old(memo)@.len() != 0)
            ==> final(memo)@[memo_idx(
            input_idx as int,
            segment_idx as int,
            segments@.len() as int,
        )] == Some(r),
        forall|k: int|
            (0 <= k < old(memo)@.len() && old(memo)@[k] is Some) ==> (#[trigger] final(memo)@[k])
                == old(memo)@[k],
    decreases input@.len() - input_idx, segments@.len() - segment_idx, 1int,
{
    let ilen = input.len();
    let slen = segments.len();
    let ghost segs = segs_view(segments@);
    if input_idx < ilen && segment_idx < slen && memo.len() > 0 {
        proof {
            lemma_memo_idx_bound(input_idx as int, segment_idx as int, ilen as int, slen as int);
        }
        let idx = input_idx * slen + segment_idx;
        proof {
            assert(memo@[memo_idx(input_idx as int, segment_idx as int, slen as int)]
                matches Some(v) ==> v == seg_matches(
                input@,
                segs,
                input_idx as int,
                segment_idx as int,
            ));
        }
        match memo[idx] {
            Some(cached) => {
                return cached;
            },
            None => {},
        }
    }
    let result = match_segments_recursive_optimized(input, input_idx, segments, segment_idx, memo);
    if input_idx < ilen && segment_idx < slen && memo.len() > 0 {
        proof {
            lemma_memo_idx_bound(input_idx as int, segment_idx as int, ilen as int, slen as int);
        }
        let idx = input_idx * slen + segment_idx;
        let ghost pre = memo@;
        memo[idx] = Some(result);
        proof {
            assert forall|a: int, b: int|
                (0 <= a < ilen && 0 <= b < slen) implies ((#[trigger] memo@[memo_idx(
                a,
                b,
                slen as int,
            )]) matches Some(v) ==> v == seg_matches(input@, segs, a, b)) by {
                lemma_memo_idx_bound(a, b, ilen as int, slen as int);
                if memo_idx(a, b, slen as int) == idx {
                    lemma_memo_idx_inj(
                        a,
                        b,
                        input_idx as int,
                        segment_idx as int,
                        slen as int,
                    );
                } else {
                    assert(memo@[memo_idx(a, b, slen as int)] == pre[memo_idx(a, b, slen as int)]);
                }
            }
        }
    }
    result
}

/// Recompute one `(input position, segment position)` pair by the
/// segment rules: a literal needs an exact run of characters, a wildcard
/// one or more non-`/` characters, a globstar any run including `/`
/// (zero allowed), and a class exactly one member character.
#[verifier::loop_isolation(false)]
pub(crate) fn match_segments_recursive_optimized(
    input: &Vec<char>,
    input_idx: usize,
    segments: &Vec<GlobSegment>,
    segment_idx: usize,
    memo: &mut Vec<Option<bool>>,
) -> (r: bool)
    requires
        input_idx <= input@.len(),
        segment_idx <= segments@.len(),
        memo_valid(input@, segs_view(segments@), old(memo)@),
    ensures
        memo_valid(input@, segs_view(segments@), final(memo)@),
        r == seg_matches(input@, segs_view(segments@), input_idx as int, segment_idx as int),
        final(memo)@.len() == old(memo)@.len(),
        forall|k: int|
            (0 <= k < old(memo)@.len() && old(memo)@[k] is Some) ==> (#[trigger] final(memo)@[k])
                == old(memo)@[k],
    decreases input@.len() - input_idx, segments@.len() - segment_idx, 0int,
{
    let ilen = input.len();
    let slen = segments.len();
    let ghost segs = segs_view(segments@);
    if segment_idx >= slen {
        return input_idx >= ilen;
    }
    if input_idx >= ilen {
        return tail_all_globstars(segments, segment_idx);
    }
    match &segments[segment_idx] {
        GlobSegment::Literal(lit) => {
            proof {
                assert(segs[segment_idx as int] == SegSpec::Literal(lit@));
            }
            let litlen = lit.len();
            if litlen > ilen - input_idx {
                return false;
            }
            let mut k: usize = 0;
            while k < litlen
                invariant
                    k <= litlen,
                    forall|t: int| 0 <= t < k ==> input@[input_idx + t] == #[trigger] lit@[t],
                decreases litlen - k,
            {
                if input[input_idx + k] != lit[k] {
                    proof {
                        if input@.subrange(input_idx as int, input_idx + lit@.len()) == lit@ {
                            assert(input@.subrange(input_idx as int, input_idx + lit@.len())[
                                k as int] == lit@[k as int]);
                        }
                    }
                    return false;
                }
                k = k + 1;
            }
            proof {
                assert(input@.subrange(input_idx as int, input_idx + lit@.len()) =~= lit@);
            }
            match_segments_with_memo(input, input_idx + litlen, segments, segment_idx + 1, memo)
        },
        GlobSegment::Wildcard => {
            proof {
                assert(segs[segment_idx as int] == SegSpec::Wildcard);
            }
            let mut i = input_idx;
            while i < ilen && input[i] != '/'
                invariant
                    input_idx <= i <= ilen,
                    memo_valid(input@, segs, memo@),
                    memo@.len() == old(memo)@.len(),
                    forall|k: int|
                        (0 <= k < old(memo)@.len() && old(memo)@[k] is Some) ==> (
                        #[trigger] memo@[k]) == old(memo)@[k],
                    wildcard_search(input@, segs, input_idx as int, segment_idx + 1)
                        == wildcard_search(input@, segs, i as int, segment_idx + 1),
                decreases ilen - i,
            {
                if match_segments_with_memo(input, i + 1, segments, segment_idx + 1, memo) {
                    return true;
                }
                i = i + 1;
            }
            false
        },
        GlobSegment::Globstar => {
            proof {
                assert(segs[segment_idx as int] == SegSpec::Globstar);
            }
            if match_segments_with_memo(input, input_idx, segments, segment_idx + 1, memo) {
                return true;
            }
            let mut i = input_idx;
            while i < ilen
                invariant
                    input_idx <= i <= ilen,
                    memo_valid(input@, segs, memo@),
                    memo@.len() == old(memo)@.len(),
                    forall|k: int|
                        (0 <= k < old(memo)@.len() && old(memo)@[k] is Some) ==> (
                        #[trigger] memo@[k]) == old(memo)@[k],
                    seg_globstar_search(input@, segs, input_idx as int, segment_idx + 1)
                        == seg_globstar_search(input@, segs, i as int, segment_idx + 1),
                decreases ilen - i,
            {
                if match_segments_with_memo(input, i + 1, segments, segment_idx + 1, memo) {
                    return true;
                }
                i = i + 1;
            }
            false
        },
        GlobSegment::CharClass(class) => {
            proof {
                assert(segs[segment_idx as int] == SegSpec::CharClass(class@));
            }
            let ch = input[input_idx];
            if matches_char_class(ch, class) {
                match_segments_with_memo(input, input_idx + 1, segments, segment_idx + 1, memo)
            } else {
                false
            }
        },
    }
}

/// Match an input against a parsed segment sequence, with a memo table
/// allocated fresh for this call.
#[verifier::loop_isolation(false)]
pub(crate) fn match_with_segments(input: &Vec<char>, segments: &Vec<GlobSegment>) -> (r: bool)
    ensures
        r == seg_matches(input@, segs_view(segments@), 0, 0),
{
    let ilen = input.len();
    let slen = segments.len();
    let mut memo: Vec<Option<bool>> = Vec::new();
    match ilen.checked_mul(slen) {
        Some(total) => {
            let mut t: usize = 0;
            while t < total
                invariant
                    memo@.len() == t,
                    t <= total,
                    forall|k: int| 0 <= k < t ==> (#[trigger] memo@[k]) is None,
                decreases total - t,
            {
                memo.push(None);
                t = t + 1;
            }
        },
        None => {},
    }
    proof {
        assert forall|a: int, b: int|
            (0 <= a < ilen && 0 <= b < slen && memo@.len() != 0) implies ((#[trigger] memo@[
        memo_idx(a, b, slen as int)]) matches Some(v) ==> v == seg_matches(
            input@,
            segs_view(segments@),
            a,
            b,
        )) by {
            lemma_memo_idx_bound(a, b, ilen as int, slen as int);
        }
    }
    match_segments_with_memo(input, 0, segments, 0, &mut memo)
}

} // verus!

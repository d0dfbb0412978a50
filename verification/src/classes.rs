//! Character-class evaluation: membership of a single character in a
//! bracket expression such as `[abc]`, `[a-z0-9]` or `[^abc]`.

use crate::semantics::{in_class_from, raw_class_matches};
use vstd::prelude::*;

verus! {

/// Copy `v[from..to]` into a fresh vector.
pub(crate) fn subvec(v: &Vec<char>, from: usize, to: usize) -> (r: Vec<char>)
    requires
        from <= to <= v@.len(),
    ensures
        r@ == v@.subrange(from as int, to as int),
{
    let mut r: Vec<char> = Vec::new();
    let mut i: usize = from;
    while i < to
        invariant
            from <= i <= to <= v@.len(),
            r@ == v@.subrange(from as int, i as int),
        decreases to - i,
    {
        r.push(v[i]);
        i = i + 1;
    }
    proof {
        assert(r@ =~= v@.subrange(from as int, to as int));
    }
    r
}

/// Scan class content from `start`: a position followed by `-` and a
/// further character forms an inclusive code-point range, anything else
/// is a literal member (including a trailing bare `-`).
pub(crate) fn is_char_in_class(input_char: char, class_content: &Vec<char>, start: usize) -> (r:
    bool)
    ensures
        r == in_class_from(input_char, class_content@, start as int),
{
    let n = class_content.len();
    let mut i: usize = start;
    while i < n
        invariant
            n == class_content@.len(),
            i >= start,
            in_class_from(input_char, class_content@, start as int) == in_class_from(
                input_char,
                class_content@,
                i as int,
            ),
        decreases n - i,
    {
        if i + 1 < n && i + 2 < n && class_content[i + 1] == '-' {
            let range_start = class_content[i];
            let range_end = class_content[i + 2];
            if range_start as u32 <= input_char as u32 && input_char as u32 <= range_end as u32 {
                return true;
            }
            i = i + 3;
        } else {
            if input_char == class_content[i] {
                return true;
            }
            i = i + 1;
        }
    }
    false
}

/// Membership in a raw bracketed class (brackets included), as the
/// segment matcher evaluates it: the payload must have the shape
/// `[` ... `]`, and a leading `^` in the content negates the test.
pub(crate) fn matches_char_class(ch: char, class: &Vec<char>) -> (r: bool)
    ensures
        r == raw_class_matches(ch, class@),
{
    let n = class.len();
    if n < 3 || class[0] != '[' || class[n - 1] != ']' {
        return false;
    }
    let content = subvec(class, 1, n - 1);
    let is_negated = content.len() > 0 && content[0] == '^';
    let found = if is_negated {
        is_char_in_class(ch, &content, 1)
    } else {
        is_char_in_class(ch, &content, 0)
    };
    if is_negated {
        !found
    } else {
        found
    }
}

} // verus!

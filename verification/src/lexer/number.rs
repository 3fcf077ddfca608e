//! Number scanner: consumes a maximal run of ASCII digits.

use vstd::prelude::*;

use crate::chars::digit_char;
use crate::chars::is_digit_char;

verus! {

/// First position at or after `i` that does not hold an ASCII digit (or the
/// end of the text).
pub open spec fn digit_run_end(text: Seq<char>, i: int) -> int
    decreases text.len() - i,
{
    if 0 <= i < text.len() && is_digit_char(text[i]) {
        digit_run_end(text, i + 1)
    } else {
        i
    }
}

/// `digit_run_end` names the end of a maximal digit run: everything from
/// `i` up to it is a digit, and the character there (if any) is not.
pub proof fn lemma_digit_run_end(text: Seq<char>, i: int)
    requires
        0 <= i <= text.len(),
    ensures
        i <= digit_run_end(text, i) <= text.len(),
        forall|j: int| i <= j < digit_run_end(text, i) ==> is_digit_char(text[j]),
        digit_run_end(text, i) < text.len() ==> !is_digit_char(text[digit_run_end(text, i)]),
    decreases text.len() - i,
{
    if i < text.len() && is_digit_char(text[i]) {
        lemma_digit_run_end(text, i + 1);
    }
}

/// Scan a maximal run of ASCII digits starting at `start`; return the first
/// position that is not a digit. When the character at `start` is not a
/// digit (or `start` is the end of the text), `start` itself comes back
/// unchanged, and the scan never fails.
pub fn tokenize_number(content: &String, start: usize) -> (end: usize)
    requires
        start <= content@.len(),
    ensures
        end == digit_run_end(content@, start as int),
        start <= end <= content@.len(),
        forall|j: int| start <= j < end ==> is_digit_char(content@[j]),
        end < content@.len() ==> !is_digit_char(content@[end as int]),
        start < content@.len() && !is_digit_char(content@[start as int]) ==> end == start,
{
    let s = content.as_str();
    let len = s.unicode_len();
    let mut pointer: usize = start;
    while pointer < len && digit_char(s.get_char(pointer))
        invariant
            s@ == content@,
            len == content@.len(),
            start <= pointer <= len,
            digit_run_end(content@, pointer as int) == digit_run_end(content@, start as int),
        decreases len - pointer,
    {
        pointer = pointer + 1;
    }
    proof {
        lemma_digit_run_end(content@, start as int);
    }
    pointer
}

} // verus!

//! Whitespace scanner: consumes a maximal run of ASCII whitespace.

use vstd::prelude::*;

use crate::chars::is_space_char;
use crate::chars::space_char;

verus! {

/// First position at or after `i` that does not hold ASCII whitespace (or
/// the end of the text).
pub open spec fn space_run_end(text: Seq<char>, i: int) -> int
    decreases text.len() - i,
{
    if 0 <= i < text.len() && is_space_char(text[i]) {
        space_run_end(text, i + 1)
    } else {
        i
    }
}

/// `space_run_end` names the end of a maximal whitespace run: everything
/// from `i` up to it is whitespace, and the character there (if any) is not.
pub proof fn lemma_space_run_end(text: Seq<char>, i: int)
    requires
        0 <= i <= text.len(),
    ensures
        i <= space_run_end(text, i) <= text.len(),
        forall|j: int| i <= j < space_run_end(text, i) ==> is_space_char(text[j]),
        space_run_end(text, i) < text.len() ==> !is_space_char(text[space_run_end(text, i)]),
    decreases text.len() - i,
{
    if i < text.len() && is_space_char(text[i]) {
        lemma_space_run_end(text, i + 1);
    }
}

/// Scan a maximal run of ASCII whitespace starting at `start`; return the
/// first position that is not whitespace. When the character at `start` is
/// not whitespace (or `start` is the end of the text), `start` itself comes
/// back unchanged, and the scan never fails.
pub fn tokenize_whitespace(content: &String, start: usize) -> (end: usize)
    requires
        start <= content@.len(),
    ensures
        end == space_run_end(content@, start as int),
        start <= end <= content@.len(),
        forall|j: int| start <= j < end ==> is_space_char(content@[j]),
        end < content@.len() ==> !is_space_char(content@[end as int]),
        start < content@.len() && !is_space_char(content@[start as int]) ==> end == start,
{
    let s = content.as_str();
    let len = s.unicode_len();
    let mut pointer: usize = start;
    while pointer < len && space_char(s.get_char(pointer))
        invariant
            s@ == content@,
            len == content@.len(),
            start <= pointer <= len,
            space_run_end(content@, pointer as int) == space_run_end(content@, start as int),
        decreases len - pointer,
    {
        pointer = pointer + 1;
    }
    proof {
        lemma_space_run_end(content@, start as int);
    }
    pointer
}

} // verus!

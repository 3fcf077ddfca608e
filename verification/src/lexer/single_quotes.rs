//! Single-quote string scanner: recognizes `'...'` verbatim. Nothing inside
//! is special — not even a backslash — so the first `'` after the opening
//! one always terminates the string.

use vstd::prelude::*;

use crate::errors::LexError;

verus! {

/// Scan the body of a single-quoted string from position `i` (just past the
/// opening quote at `start`): the first `'` closes it and the result is one
/// past that quote; reaching the end of the text first is an unterminated
/// string literal.
pub open spec fn scan_single_quote_body(text: Seq<char>, i: int, start: usize) -> Result<
    int,
    LexError,
>
    decreases text.len() - i,
{
    if i < 0 || i >= text.len() {
        Err(LexError::UnterminatedStringLiteral { start })
    } else if text[i] == '\'' {
        Ok(i + 1)
    } else {
        scan_single_quote_body(text, i + 1, start)
    }
}

/// A successful body scan ends one past the closing quote: the position
/// just before the result holds `'`, nothing between `i` and it does, and
/// the result never points at the delimiter itself. A failed scan means no
/// closing quote exists at or after `i`.
pub proof fn lemma_scan_single_quote_body(text: Seq<char>, i: int, start: usize)
    requires
        0 <= i <= text.len(),
    ensures
        match scan_single_quote_body(text, i, start) {
            Ok(end) => {
                &&& i < end <= text.len()
                &&& text[end - 1] == '\''
                &&& forall|j: int| i <= j < end - 1 ==> text[j] != '\''
            },
            Err(e) => {
                &&& e == (LexError::UnterminatedStringLiteral { start })
                &&& forall|j: int| i <= j < text.len() ==> text[j] != '\''
            },
        },
    decreases text.len() - i,
{
    if i < text.len() && text[i] != '\'' {
        lemma_scan_single_quote_body(text, i + 1, start);
    }
}

/// Scan a single-quoted string at `start`. When the character there is not
/// `'` (or `start` is the end of the text), `start` comes back unchanged
/// and no error is possible; otherwise the result is one past the first
/// closing `'`, or an unterminated-string error naming `start`.
pub fn tokenize_single_quotes(content: &String, start: usize) -> (r: Result<usize, LexError>)
    requires
        start <= content@.len(),
    ensures
        start == content@.len() || content@[start as int] != '\'' ==> r == Ok::<usize, LexError>(
            start,
        ),
        start < content@.len() && content@[start as int] == '\'' ==> match r {
            Ok(end) => scan_single_quote_body(content@, start + 1, start) == Ok::<int, LexError>(
                end as int,
            ),
            Err(e) => scan_single_quote_body(content@, start + 1, start) == Err::<int, LexError>(e),
        },
        r is Ok ==> start <= r->Ok_0 <= content@.len(),
        r is Ok && r->Ok_0 != start ==> content@[r->Ok_0 - 1] == '\'',
{
    let s = content.as_str();
    let len = s.unicode_len();
    if start == len {
        return Ok(start);
    }
    if s.get_char(start) != '\'' {
        return Ok(start);
    }
    let mut pointer: usize = start + 1;
    while pointer < len && s.get_char(pointer) != '\''
        invariant
            s@ == content@,
            len == content@.len(),
            start + 1 <= pointer <= len,
            scan_single_quote_body(content@, pointer as int, start) == scan_single_quote_body(
                content@,
                start + 1,
                start,
            ),
        decreases len - pointer,
    {
        pointer = pointer + 1;
    }
    if pointer == len {
        Err(LexError::UnterminatedStringLiteral { start })
    } else {
        Ok(pointer + 1)
    }
}

} // verus!

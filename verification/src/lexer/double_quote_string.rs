//! Double-quote string scanner: recognizes `"..."` where a backslash may
//! escape only `` ` ``, `\`, `$`, newline or `"`. The characters `$`,
//! `` ` `` and `@` open nested constructs (parameter and command expansion)
//! that a later pass resolves; here they are consumed verbatim without
//! ending the enclosing string.

use vstd::prelude::*;

use crate::errors::LexError;

verus! {

/// The characters a backslash may escape inside a double-quoted string
/// (IEEE 1003.1-2024 §2.2.3).
pub open spec fn is_dq_escapable_char(c: char) -> bool {
    c == '`' || c == '\\' || c == '$' || c == '\n' || c == '"'
}

pub fn dq_escapable_char(c: char) -> (b: bool)
    ensures
        b == is_dq_escapable_char(c),
{
    c == '`' || c == '\\' || c == '$' || c == '\n' || c == '"'
}

/// Scan the body of a double-quoted string from position `i` (just past the
/// opening quote at `start`): an unescaped `"` closes it and the result is
/// one past that quote; a backslash must be followed by an escapable
/// character, which is consumed with it; reaching the end of the text first
/// is an unterminated string literal.
pub open spec fn scan_double_quote_body(text: Seq<char>, i: int, start: usize) -> Result<
    int,
    LexError,
>
    decreases text.len() - i,
{
    if i < 0 || i >= text.len() {
        Err(LexError::UnterminatedStringLiteral { start })
    } else if text[i] == '"' {
        Ok(i + 1)
    } else if text[i] == '\\' {
        if i + 1 >= text.len() {
            Err(LexError::UnterminatedStringLiteral { start })
        } else if is_dq_escapable_char(text[i + 1]) {
            scan_double_quote_body(text, i + 2, start)
        } else {
            Err(LexError::CannotEscape { c: text[i + 1] })
        }
    } else {
        scan_double_quote_body(text, i + 1, start)
    }
}

/// A successful body scan ends one past the closing quote, never at the
/// quote itself.
pub proof fn lemma_scan_double_quote_body(text: Seq<char>, i: int, start: usize)
    requires
        0 <= i <= text.len(),
    ensures
        scan_double_quote_body(text, i, start) matches Ok(end) ==> {
            &&& i < end <= text.len()
            &&& text[end - 1] == '"'
        },
    decreases text.len() - i,
{
    if i < text.len() {
        if text[i] == '\\' && i + 1 < text.len() && is_dq_escapable_char(text[i + 1]) {
            lemma_scan_double_quote_body(text, i + 2, start);
        } else if text[i] != '"' && text[i] != '\\' {
            lemma_scan_double_quote_body(text, i + 1, start);
        }
    }
}

/// Scan a double-quoted string at `start`. When the character there is not
/// `"` (or `start` is the end of the text), `start` comes back unchanged
/// and no error is possible; otherwise the result is one past the closing
/// `"`, an unterminated-string error naming `start`, or a cannot-escape
/// error naming the character after the offending backslash.
pub fn tokenize_double_quote_string(content: &String, start: usize) -> (r: Result<usize, LexError>)
    requires
        start <= content@.len(),
    ensures
        start == content@.len() || content@[start as int] != '"' ==> r == Ok::<usize, LexError>(
            start,
        ),
        start < content@.len() && content@[start as int] == '"' ==> match r {
            Ok(end) => scan_double_quote_body(content@, start + 1, start) == Ok::<int, LexError>(
                end as int,
            ),
            Err(e) => scan_double_quote_body(content@, start + 1, start) == Err::<int, LexError>(e),
        },
        r is Ok ==> start <= r->Ok_0 <= content@.len(),
        r is Ok && r->Ok_0 != start ==> content@[r->Ok_0 - 1] == '"',
{
    let s = content.as_str();
    let len = s.unicode_len();
    if start == len {
        return Ok(start);
    }
    if s.get_char(start) != '"' {
        return Ok(start);
    }
    let mut pointer: usize = start + 1;
    loop
        invariant
            s@ == content@,
            len == content@.len(),
            start + 1 <= pointer <= len,
            scan_double_quote_body(content@, pointer as int, start) == scan_double_quote_body(
                content@,
                start + 1,
                start,
            ),
            content@[start as int] == '"',
            start < content@.len(),
        decreases len - pointer,
    {
        if pointer == len {
            return Err(LexError::UnterminatedStringLiteral { start });
        }
        let c = s.get_char(pointer);
        if c == '"' {
            return Ok(pointer + 1);
        }
        if c == '\\' {
            if pointer + 1 == len {
                return Err(LexError::UnterminatedStringLiteral { start });
            }
            let e = s.get_char(pointer + 1);
            if dq_escapable_char(e) {
                pointer = pointer + 2;
            } else {
                return Err(LexError::CannotEscape { c: e });
            }
        } else {
            pointer = pointer + 1;
        }
    }
}

} // verus!

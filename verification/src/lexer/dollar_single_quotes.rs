//! ANSI-C quote scanner: recognizes `$'...'`, the same single-quote
//! envelope as a plain single-quoted string but preceded by `$`, and
//! validates every backslash escape inside: named single-character escapes,
//! `\cX` control characters, `\xH` or `\xHH` hexadecimal bytes, and one to
//! three octal digits. The envelope closes on the first unescaped `'` after
//! the opening pair.

use vstd::prelude::*;

use crate::chars::alpha_char;
use crate::chars::hex_char;
use crate::chars::is_alpha_char;
use crate::chars::is_hex_char;
use crate::chars::is_octal_char;
use crate::chars::octal_char;
use crate::errors::LexError;

verus! {

/// The characters that form a valid single-character escape after a
/// backslash inside `$'...'` (IEEE 1003.1-2024).
pub open spec fn is_simple_escape_char(c: char) -> bool {
    c == 'a' || c == 'b' || c == 'e' || c == 'f' || c == 'n' || c == 'r' || c == 't' || c == 'v'
        || c == '\\' || c == '\'' || c == '"'
}

pub fn simple_escape_char(c: char) -> (b: bool)
    ensures
        b == is_simple_escape_char(c),
{
    c == 'a' || c == 'b' || c == 'e' || c == 'f' || c == 'n' || c == 'r' || c == 't' || c == 'v'
        || c == '\\' || c == '\'' || c == '"'
}

/// The characters that may follow `\c` directly: an ASCII letter or one of
/// `[`, `]`, `^`, `_`, `?` (a backslash is handled apart, since it must be
/// doubled).
pub open spec fn is_control_mark_char(c: char) -> bool {
    is_alpha_char(c) || c == '[' || c == ']' || c == '^' || c == '_' || c == '?'
}

pub fn control_mark_char(c: char) -> (b: bool)
    ensures
        b == is_control_mark_char(c),
{
    alpha_char(c) || c == '[' || c == ']' || c == '^' || c == '_' || c == '?'
}

/// Length of the octal-digit run starting at `j` (which the caller knows to
/// hold an octal digit), greedy but bounded to three digits.
pub open spec fn octal_run_len(text: Seq<char>, j: int) -> int {
    if j + 1 < text.len() && is_octal_char(text[j + 1]) {
        if j + 2 < text.len() && is_octal_char(text[j + 2]) {
            3
        } else {
            2
        }
    } else {
        1
    }
}

/// `$'...'` opens at `i`: the two-character sequence `$'` stands there.
pub open spec fn dollar_quote_opens(text: Seq<char>, i: int) -> bool {
    0 <= i && i + 1 < text.len() && text[i] == '$' && text[i + 1] == '\''
}

/// Scan the body of a `$'...'` string from position `i` (just past the
/// opening `$'` at `start`). An unescaped `'` closes it, with the result
/// one past that quote. A backslash must open a valid escape — a named
/// single-character escape, `\c` plus a control character (or a doubled
/// backslash), `\x` plus one or two hexadecimal digits, or one to three
/// octal digits — and the scan resumes right after the escape's last
/// character, so the position inside each error names the offending
/// character itself, never the backslash. Reaching the end of the text
/// while still scanning is an unterminated dollar-single-quote.
pub open spec fn scan_dollar_body(text: Seq<char>, i: int, start: usize) -> Result<int, LexError>
    decreases text.len() - i,
{
    if i < 0 || i >= text.len() {
        Err(LexError::UnterminatedDollarSingleQuote { start })
    } else if text[i] == '\'' {
        Ok(i + 1)
    } else if text[i] == '\\' {
        if i + 1 >= text.len() {
            Err(LexError::UnterminatedDollarSingleQuote { start })
        } else if is_simple_escape_char(text[i + 1]) {
            scan_dollar_body(text, i + 2, start)
        } else if text[i + 1] == 'c' {
            if i + 2 >= text.len() {
                Err(LexError::UnterminatedDollarSingleQuote { start })
            } else if is_control_mark_char(text[i + 2]) {
                scan_dollar_body(text, i + 3, start)
            } else if text[i + 2] == '\\' {
                if i + 3 >= text.len() {
                    Err(LexError::UnterminatedDollarSingleQuote { start })
                } else if text[i + 3] == '\\' {
                    scan_dollar_body(text, i + 4, start)
                } else {
                    Err(LexError::NotCircumflexControl { pos: (i + 3) as usize })
                }
            } else {
                Err(LexError::NotCircumflexControl { pos: (i + 2) as usize })
            }
        } else if text[i + 1] == 'x' {
            if i + 2 >= text.len() {
                Err(LexError::UnterminatedDollarSingleQuote { start })
            } else if !is_hex_char(text[i + 2]) {
                Err(LexError::NotHexadecimal { pos: (i + 2) as usize })
            } else if i + 3 < text.len() && is_hex_char(text[i + 3]) {
                scan_dollar_body(text, i + 4, start)
            } else if i + 3 >= text.len() {
                Err(LexError::UnterminatedDollarSingleQuote { start })
            } else {
                scan_dollar_body(text, i + 3, start)
            }
        } else if is_octal_char(text[i + 1]) {
            if i + 1 + octal_run_len(text, i + 1) >= text.len() {
                Err(LexError::UnterminatedDollarSingleQuote { start })
            } else {
                scan_dollar_body(text, i + 1 + octal_run_len(text, i + 1), start)
            }
        } else {
            Err(LexError::InvalidEscapedCharacter { pos: (i + 1) as usize })
        }
    } else {
        scan_dollar_body(text, i + 1, start)
    }
}

/// A successful body scan ends one past the closing quote, never at the
/// quote itself.
pub proof fn lemma_scan_dollar_body(text: Seq<char>, i: int, start: usize)
    requires
        0 <= i <= text.len(),
    ensures
        scan_dollar_body(text, i, start) matches Ok(end) ==> {
            &&& i < end <= text.len()
            &&& text[end - 1] == '\''
        },
    decreases text.len() - i,
{
    if i < text.len() && text[i] != '\'' {
        if text[i] == '\\' {
            if i + 1 < text.len() {
                if is_simple_escape_char(text[i + 1]) {
                    lemma_scan_dollar_body(text, i + 2, start);
                } else if text[i + 1] == 'c' {
                    if i + 2 < text.len() {
                        if is_control_mark_char(text[i + 2]) {
                            lemma_scan_dollar_body(text, i + 3, start);
                        } else if text[i + 2] == '\\' && i + 3 < text.len() && text[i + 3] == '\\' {
                            lemma_scan_dollar_body(text, i + 4, start);
                        }
                    }
                } else if text[i + 1] == 'x' {
                    if i + 2 < text.len() && is_hex_char(text[i + 2]) {
                        if i + 3 < text.len() && is_hex_char(text[i + 3]) {
                            lemma_scan_dollar_body(text, i + 4, start);
                        } else if i + 3 < text.len() {
                            lemma_scan_dollar_body(text, i + 3, start);
                        }
                    }
                } else if is_octal_char(text[i + 1]) {
                    if i + 1 + octal_run_len(text, i + 1) < text.len() {
                        lemma_scan_dollar_body(text, i + 1 + octal_run_len(text, i + 1), start);
                    }
                }
            }
        } else {
            lemma_scan_dollar_body(text, i + 1, start);
        }
    }
}

/// Scan a `$'...'` string at `start`. When the text at `start` does not
/// begin with the two-character sequence `$'`, `start` comes back unchanged
/// and no error is possible; otherwise the result is one past the closing
/// `'`, or the error that [`scan_dollar_body`] gives for the body.
pub fn tokenize_dollar_single_quotes(content: &String, start: usize) -> (r: Result<usize, LexError>)
    requires
        start <= content@.len(),
    ensures
        !dollar_quote_opens(content@, start as int) ==> r == Ok::<usize, LexError>(start),
        dollar_quote_opens(content@, start as int) ==> match r {
            Ok(end) => scan_dollar_body(content@, start + 2, start) == Ok::<int, LexError>(
                end as int,
            ),
            Err(e) => scan_dollar_body(content@, start + 2, start) == Err::<int, LexError>(e),
        },
        r is Ok ==> start <= r->Ok_0 <= content@.len(),
        r is Ok && r->Ok_0 != start ==> content@[r->Ok_0 - 1] == '\'' && r->Ok_0 >= start + 3,
{
    let s = content.as_str();
    let len = s.unicode_len();
    if start == len {
        return Ok(start);
    }
    if s.get_char(start) != '$' {
        return Ok(start);
    }
    if start + 1 == len {
        return Ok(start);
    }
    if s.get_char(start + 1) != '\'' {
        return Ok(start);
    }
    let mut pointer: usize = start + 2;
    loop
        invariant
            s@ == content@,
            len == content@.len(),
            start + 2 <= pointer <= len,
            dollar_quote_opens(content@, start as int),
            scan_dollar_body(content@, pointer as int, start) == scan_dollar_body(
                content@,
                start + 2,
                start,
            ),
        decreases len - pointer,
    {
        if pointer == len {
            return Err(LexError::UnterminatedDollarSingleQuote { start });
        }
        let c = s.get_char(pointer);
        if c == '\'' {
            return Ok(pointer + 1);
        }
        if c == '\\' {
            if pointer + 1 == len {
                return Err(LexError::UnterminatedDollarSingleQuote { start });
            }
            let e = s.get_char(pointer + 1);
            if simple_escape_char(e) {
                pointer = pointer + 2;
            } else if e == 'c' {
                if pointer + 2 == len {
                    return Err(LexError::UnterminatedDollarSingleQuote { start });
                }
                let after_c = s.get_char(pointer + 2);
                if control_mark_char(after_c) {
                    pointer = pointer + 3;
                } else if after_c == '\\' {
                    if pointer + 3 == len {
                        return Err(LexError::UnterminatedDollarSingleQuote { start });
                    }
                    if s.get_char(pointer + 3) == '\\' {
                        pointer = pointer + 4;
                    } else {
                        return Err(LexError::NotCircumflexControl { pos: pointer + 3 });
                    }
                } else {
                    return Err(LexError::NotCircumflexControl { pos: pointer + 2 });
                }
            } else if e == 'x' {
                if pointer + 2 == len {
                    return Err(LexError::UnterminatedDollarSingleQuote { start });
                }
                if !hex_char(s.get_char(pointer + 2)) {
                    return Err(LexError::NotHexadecimal { pos: pointer + 2 });
                }
                if pointer + 3 < len && hex_char(s.get_char(pointer + 3)) {
                    pointer = pointer + 4;
                } else if pointer + 3 == len {
                    return Err(LexError::UnterminatedDollarSingleQuote { start });
                } else {
                    pointer = pointer + 3;
                }
            } else if octal_char(e) {
                let mut run: usize = 1;
                if pointer + 2 < len && octal_char(s.get_char(pointer + 2)) {
                    if pointer + 3 < len && octal_char(s.get_char(pointer + 3)) {
                        run = 3;
                    } else {
                        run = 2;
                    }
                }
                if len - (pointer + 1) <= run {
                    return Err(LexError::UnterminatedDollarSingleQuote { start });
                }
                pointer = pointer + 1 + run;
            } else {
                return Err(LexError::InvalidEscapedCharacter { pos: pointer + 1 });
            }
        } else {
            pointer = pointer + 1;
        }
    }
}

} // verus!

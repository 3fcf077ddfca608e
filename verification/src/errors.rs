//! Structured lexical errors. The error's identity is its kind together with
//! the offending character position (or character); the human-readable
//! message is rendered from that data by [`LexError::message`], whose exact
//! text is pinned down by [`LexError::spec_message`].

use vstd::prelude::*;

verus! {

/// A lexical fault: either a quoted construct that never closes, or a
/// backslash escape outside the grammar of the active quoting context.
#[derive(Debug, PartialEq, Eq, Structural, Clone, Copy)]
pub enum LexError {
    /// End of input inside `'...'` or `"..."`; `start` is the position of the
    /// opening delimiter.
    UnterminatedStringLiteral { start: usize },
    /// End of input inside `$'...'`; `start` is the position of the `$`.
    UnterminatedDollarSingleQuote { start: usize },
    /// In `$'...'`, `\c` not followed by a circumflex control character;
    /// `pos` is the position of the offending character.
    NotCircumflexControl { pos: usize },
    /// In `$'...'`, `\x` not followed by a hexadecimal digit; `pos` is the
    /// position of the offending character.
    NotHexadecimal { pos: usize },
    /// In `$'...'`, a backslash followed by a character that starts no known
    /// escape; `pos` is the position of that character.
    InvalidEscapedCharacter { pos: usize },
    /// In `"..."`, a backslash before a character that cannot be escaped
    /// there; `c` is that character.
    CannotEscape { c: char },
    /// A character at `pos` that no scanner recognizes; reported instead of
    /// scanning past it, so the dispatcher always makes progress.
    UnrecognizedCharacter { pos: usize },
}

/// The decimal digit `d` as a character; meaningful for `d < 10`.
pub open spec fn decimal_digit_char(d: nat) -> char {
    if d == 0 {
        '0'
    } else if d == 1 {
        '1'
    } else if d == 2 {
        '2'
    } else if d == 3 {
        '3'
    } else if d == 4 {
        '4'
    } else if d == 5 {
        '5'
    } else if d == 6 {
        '6'
    } else if d == 7 {
        '7'
    } else if d == 8 {
        '8'
    } else {
        '9'
    }
}

/// The decimal representation of `n`, most significant digit first, with no
/// sign and no leading zero (except for `n == 0` itself).
pub open spec fn decimal_rep(n: nat) -> Seq<char>
    decreases n,
{
    if n < 10 {
        seq![decimal_digit_char(n)]
    } else {
        decimal_rep(n / 10).push(decimal_digit_char(n % 10))
    }
}

/// Relies on the std `Display` implementation for `usize`: it writes the
/// value in decimal digits, with no sign, padding or leading zeros.
#[verifier::external_body]
fn usize_to_decimal(n: usize) -> (r: String)
    ensures
        r@ == decimal_rep(n as nat),
{
    format!("{}", n)
}

/// Relies on `String::from` for `char`: a string holding exactly that one
/// character.
#[verifier::external_body]
fn char_to_string(c: char) -> (r: String)
    ensures
        r@ == seq![c],
{
    String::from(c)
}

impl LexError {
    /// The exact text of the rendered message.
    pub open spec fn spec_message(self) -> Seq<char> {
        match self {
            LexError::UnterminatedStringLiteral { start } => "Unterminated string literal at index "@
                + decimal_rep(start as nat),
            LexError::UnterminatedDollarSingleQuote { start } => "Unterminated dollar-single-quote at index "@
                + decimal_rep(start as nat),
            LexError::NotCircumflexControl { pos } => "\\c not followed by a Circumflex Control Character at index "@
                + decimal_rep(pos as nat),
            LexError::NotHexadecimal { pos } => "\\x not followed by a hexadecimal character at index "@
                + decimal_rep(pos as nat),
            LexError::InvalidEscapedCharacter { pos } => "\\ followed by an invalid character at index "@
                + decimal_rep(pos as nat),
            LexError::CannotEscape { c } => "A backslash cannot escape '"@ + seq![c] + "'"@,
            LexError::UnrecognizedCharacter { pos } => "Unrecognized character at index "@
                + decimal_rep(pos as nat),
        }
    }

    /// Render the human-readable message for this error.
    pub fn message(&self) -> (r: String)
        ensures
            r@ == self.spec_message(),
    {
        match self {
            LexError::UnterminatedStringLiteral { start } => {
                let mut m = String::from_str("Unterminated string literal at index ");
                m.append(usize_to_decimal(*start).as_str());
                m
            },
            LexError::UnterminatedDollarSingleQuote { start } => {
                let mut m = String::from_str("Unterminated dollar-single-quote at index ");
                m.append(usize_to_decimal(*start).as_str());
                m
            },
            LexError::NotCircumflexControl { pos } => {
                let mut m = String::from_str(
                    "\\c not followed by a Circumflex Control Character at index ",
                );
                m.append(usize_to_decimal(*pos).as_str());
                m
            },
            LexError::NotHexadecimal { pos } => {
                let mut m = String::from_str(
                    "\\x not followed by a hexadecimal character at index ",
                );
                m.append(usize_to_decimal(*pos).as_str());
                m
            },
            LexError::InvalidEscapedCharacter { pos } => {
                let mut m = String::from_str("\\ followed by an invalid character at index ");
                m.append(usize_to_decimal(*pos).as_str());
                m
            },
            LexError::CannotEscape { c } => {
                let mut m = String::from_str("A backslash cannot escape '");
                m.append(char_to_string(*c).as_str());
                m.append("'");
                m
            },
            LexError::UnrecognizedCharacter { pos } => {
                let mut m = String::from_str("Unrecognized character at index ");
                m.append(usize_to_decimal(*pos).as_str());
                m
            },
        }
    }
}

} // verus!

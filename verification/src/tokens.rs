//! The lexical categories a scan can produce. A token carries no text
//! payload: its extent is implied by the cursor positions the scanners
//! return.

use vstd::prelude::*;

verus! {

/// One lexical category. `Keyword` is reserved for a later scanner; the
/// current scanners never produce it.
#[derive(Debug, PartialEq, Eq, Structural, Clone, Copy)]
pub enum Token {
    WhiteSpace,
    SingleQuote,
    DoubleQuote,
    DollarSingleQuote,
    Keyword,
    Number,
    Pipe,
    Ampersand,
    Semicolon,
    LParenthesis,
    RParenthesis,
    LessAnd,
    GreatAnd,
}

} // verus!

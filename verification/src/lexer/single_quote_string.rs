//! Single-quote string scanner under its alternative name; the behaviour is
//! exactly that of [`crate::lexer::single_quotes::tokenize_single_quotes`].

use vstd::prelude::*;

use crate::errors::LexError;
use crate::lexer::single_quotes::scan_single_quote_body;
use crate::lexer::single_quotes::tokenize_single_quotes;

verus! {

/// Scan a single-quoted string at `start`; see
/// [`tokenize_single_quotes`], whose contract this function shares.
pub fn tokenize_single_quote_string(content: &String, start: usize) -> (r: Result<usize, LexError>)
    requires
        start <= content@.len(),
    ensures
        start == content@.len() || content@[start as int] != '\'' ==> r == Ok::<usize, LexError>(
            start,
        ),
        start < content@.len() && content@[start as int] == '\'' ==> match r {
            Ok(end) => scan_single_quote_body(content@, start + 1, start) == Ok::<int, LexError>(
                end as int,
            ),
            Err(e) => scan_single_quote_body(content@, start + 1, start) == Err::<int, LexError>(e),
        },
        r is Ok ==> start <= r->Ok_0 <= content@.len(),
        r is Ok && r->Ok_0 != start ==> content@[r->Ok_0 - 1] == '\'',
{
    tokenize_single_quotes(content, start)
}

} // verus!

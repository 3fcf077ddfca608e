//! Lexical front end for a POSIX-shell-style command line: it turns raw input
//! text into an ordered sequence of typed tokens, honouring shell quoting
//! (plain single quotes, double quotes, and the ANSI-C `$'...'` form with its
//! backslash-escape grammar).
//!
//! Every scanner is a pure function of the input text and a character
//! position; the dispatcher [`tokenize`] tries them in a fixed priority order
//! — whitespace, number, single quote, ANSI-C quote, double quote,
//! metacharacter — and advances a cursor until the input is exhausted or a
//! scanner reports a fault.

pub mod chars;
pub mod errors;
pub mod lexer;
pub mod tokens;

use vstd::prelude::*;

use crate::chars::is_digit_char;
use crate::chars::is_space_char;
use crate::errors::LexError;
use crate::lexer::dollar_single_quotes::dollar_quote_opens;
use crate::lexer::dollar_single_quotes::lemma_scan_dollar_body;
use crate::lexer::dollar_single_quotes::scan_dollar_body;
use crate::lexer::dollar_single_quotes::tokenize_dollar_single_quotes;
use crate::lexer::double_quote_string::lemma_scan_double_quote_body;
use crate::lexer::double_quote_string::scan_double_quote_body;
use crate::lexer::double_quote_string::tokenize_double_quote_string;
use crate::lexer::metacharacter::metachar_token;
use crate::lexer::metacharacter::tokenize_metacharacter;
use crate::lexer::number::digit_run_end;
use crate::lexer::number::lemma_digit_run_end;
use crate::lexer::number::tokenize_number;
use crate::lexer::single_quotes::lemma_scan_single_quote_body;
use crate::lexer::single_quotes::scan_single_quote_body;
use crate::lexer::single_quotes::tokenize_single_quotes;
use crate::lexer::whitespace::lemma_space_run_end;
use crate::lexer::whitespace::space_run_end;
use crate::lexer::whitespace::tokenize_whitespace;
use crate::tokens::Token;

verus! {

/// The token beginning at position `pos` of the text and the position just
/// past it, by the dispatcher's fixed priority order: whitespace, number,
/// single-quote string, ANSI-C quote string, double-quote string,
/// metacharacter. A character that opens none of these is a fault of its
/// own, so a scan always makes progress or stops.
pub open spec fn spec_next_token(text: Seq<char>, pos: int) -> Result<(Token, int), LexError> {
    if is_space_char(text[pos]) {
        Ok((Token::WhiteSpace, space_run_end(text, pos)))
    } else if is_digit_char(text[pos]) {
        Ok((Token::Number, digit_run_end(text, pos)))
    } else if text[pos] == '\'' {
        match scan_single_quote_body(text, pos + 1, pos as usize) {
            Ok(end) => Ok((Token::SingleQuote, end)),
            Err(e) => Err(e),
        }
    } else if dollar_quote_opens(text, pos) {
        match scan_dollar_body(text, pos + 2, pos as usize) {
            Ok(end) => Ok((Token::DollarSingleQuote, end)),
            Err(e) => Err(e),
        }
    } else if text[pos] == '"' {
        match scan_double_quote_body(text, pos + 1, pos as usize) {
            Ok(end) => Ok((Token::DoubleQuote, end)),
            Err(e) => Err(e),
        }
    } else if metachar_token(text[pos]) is Some {
        Ok((metachar_token(text[pos])->Some_0, pos + 1))
    } else {
        Err(LexError::UnrecognizedCharacter { pos: pos as usize })
    }
}

/// A recognized token consumes at least one character and never runs past
/// the end of the text.
pub proof fn lemma_next_token_progress(text: Seq<char>, pos: int)
    requires
        0 <= pos < text.len(),
    ensures
        spec_next_token(text, pos) matches Ok(step) ==> pos < step.1 <= text.len(),
{
    lemma_space_run_end(text, pos);
    if is_space_char(text[pos]) {
        lemma_space_run_end(text, pos + 1);
    }
    lemma_digit_run_end(text, pos);
    if is_digit_char(text[pos]) {
        lemma_digit_run_end(text, pos + 1);
    }
    lemma_scan_single_quote_body(text, pos + 1, pos as usize);
    if dollar_quote_opens(text, pos) {
        lemma_scan_dollar_body(text, pos + 2, pos as usize);
    }
    lemma_scan_double_quote_body(text, pos + 1, pos as usize);
}

/// The tokens of the text from position `pos` to its end: the token at
/// `pos`, then those of the rest, each one starting exactly where the one
/// before it ended; or the first scanner error. (The branch on a step that
/// would not advance is never taken — `lemma_next_token_progress` — and
/// only keeps the recursion visibly bounded.)
pub open spec fn spec_tokenize_from(text: Seq<char>, pos: int) -> Result<Seq<Token>, LexError>
    decreases text.len() - pos,
{
    if pos < 0 || pos >= text.len() {
        Ok(Seq::empty())
    } else {
        match spec_next_token(text, pos) {
            Ok(step) => if pos < step.1 <= text.len() {
                match spec_tokenize_from(text, step.1) {
                    Ok(rest) => Ok(seq![step.0] + rest),
                    Err(e) => Err(e),
                }
            } else {
                Err(LexError::UnrecognizedCharacter { pos: pos as usize })
            },
            Err(e) => Err(e),
        }
    }
}

/// The loop relation of [`tokenize`]: the tokens already emitted, followed
/// by whatever the rest of the text yields, are exactly what the whole text
/// yields.
spec fn tokenize_prefix_ok(text: Seq<char>, done: Seq<Token>, pos: int) -> bool {
    match spec_tokenize_from(text, pos) {
        Ok(rest) => spec_tokenize_from(text, 0) == Ok::<Seq<Token>, LexError>(done + rest),
        Err(e) => spec_tokenize_from(text, 0) == Err::<Seq<Token>, LexError>(e),
    }
}

proof fn lemma_tokenize_step(text: Seq<char>, done: Seq<Token>, pos: int, t: Token, end: int)
    requires
        0 <= pos < text.len(),
        pos < end <= text.len(),
        spec_next_token(text, pos) == Ok::<(Token, int), LexError>((t, end)),
        tokenize_prefix_ok(text, done, pos),
    ensures
        tokenize_prefix_ok(text, done.push(t), end),
{
    match spec_tokenize_from(text, end) {
        Ok(rest) => {
            assert(spec_tokenize_from(text, pos) == Ok::<Seq<Token>, LexError>(seq![t] + rest));
            assert(done + (seq![t] + rest) =~= done.push(t) + rest);
        },
        Err(_) => {},
    }
}

/// The spans the tokens from position `pos` consume: for each token, the
/// position of its first character and the position just past its last
/// one, in scan order. Errors exactly where [`spec_tokenize_from`] does.
pub open spec fn spec_token_spans(text: Seq<char>, pos: int) -> Result<Seq<(int, int)>, LexError>
    decreases text.len() - pos,
{
    if pos < 0 || pos >= text.len() {
        Ok(Seq::empty())
    } else {
        match spec_next_token(text, pos) {
            Ok(step) => if pos < step.1 <= text.len() {
                match spec_token_spans(text, step.1) {
                    Ok(rest) => Ok(seq![(pos, step.1)] + rest),
                    Err(e) => Err(e),
                }
            } else {
                Err(LexError::UnrecognizedCharacter { pos: pos as usize })
            },
            Err(e) => Err(e),
        }
    }
}

proof fn lemma_token_spans_from(text: Seq<char>, pos: int)
    requires
        0 <= pos <= text.len(),
        spec_tokenize_from(text, pos) is Ok,
    ensures
        spec_token_spans(text, pos) is Ok,
        ({
            let tokens = spec_tokenize_from(text, pos)->Ok_0;
            let spans = spec_token_spans(text, pos)->Ok_0;
            &&& spans.len() == tokens.len()
            &&& (pos == text.len() ==> spans.len() == 0)
            &&& (pos < text.len() ==> spans.len() > 0 && spans[0].0 == pos && spans[
                spans.len() - 1
            ].1 == text.len())
            &&& (forall|k: int|
                0 <= k < spans.len() ==> pos <= (#[trigger] spans[k]).0 < spans[k].1 <= text.len())
            &&& (forall|k: int| 0 <= k < spans.len() - 1 ==> (#[trigger] spans[k]).1 == spans[k + 1].0)
            &&& (forall|k: int|
                0 <= k < spans.len() ==> spec_next_token(text, (#[trigger] spans[k]).0) == Ok::<
                    (Token, int),
                    LexError,
                >((tokens[k], spans[k].1)))
        }),
    decreases text.len() - pos,
{
    if pos < text.len() {
        let step = spec_next_token(text, pos)->Ok_0;
        let end = step.1;
        lemma_token_spans_from(text, end);
        let tokens = spec_tokenize_from(text, pos)->Ok_0;
        let spans = spec_token_spans(text, pos)->Ok_0;
        let tokens_rest = spec_tokenize_from(text, end)->Ok_0;
        let spans_rest = spec_token_spans(text, end)->Ok_0;
        assert(tokens =~= seq![step.0] + tokens_rest);
        assert(spans =~= seq![(pos, end)] + spans_rest);
        assert forall|k: int| 1 <= k < spans.len() implies spans[k] == spans_rest[k - 1] by {}
        assert forall|k: int| 1 <= k < tokens.len() implies tokens[k] == tokens_rest[k - 1] by {}
    }
}

/// Contiguity: for any input lexed successfully, the spans consumed by the
/// tokens tile the whole input exactly — the first begins at position 0,
/// each span ends where the next one begins, the last ends at the end of
/// the input, every span is nonempty, and the k-th span is the extent of
/// the k-th token of the stream. So concatenating the spans reconstructs
/// the input with no gaps and no overlaps.
pub proof fn lemma_tokenize_contiguous(text: Seq<char>)
    requires
        spec_tokenize_from(text, 0) is Ok,
    ensures
        spec_token_spans(text, 0) is Ok,
        ({
            let tokens = spec_tokenize_from(text, 0)->Ok_0;
            let spans = spec_token_spans(text, 0)->Ok_0;
            &&& spans.len() == tokens.len()
            &&& (text.len() == 0 ==> spans.len() == 0)
            &&& (text.len() > 0 ==> spans.len() > 0 && spans[0].0 == 0 && spans[
                spans.len() - 1
            ].1 == text.len())
            &&& (forall|k: int|
                0 <= k < spans.len() ==> 0 <= (#[trigger] spans[k]).0 < spans[k].1 <= text.len())
            &&& (forall|k: int| 0 <= k < spans.len() - 1 ==> (#[trigger] spans[k]).1 == spans[k + 1].0)
            &&& (forall|k: int|
                0 <= k < spans.len() ==> spec_next_token(text, (#[trigger] spans[k]).0) == Ok::<
                    (Token, int),
                    LexError,
                >((tokens[k], spans[k].1)))
        }),
{
    lemma_token_spans_from(text, 0);
}

/// Tokenize the whole input: the complete ordered token stream, or the
/// first lexical error encountered scanning left to right.
pub fn tokenize(s: String) -> (r: Result<Vec<Token>, LexError>)
    ensures
        match r {
            Ok(tokens) => spec_tokenize_from(s@, 0) == Ok::<Seq<Token>, LexError>(tokens@),
            Err(e) => spec_tokenize_from(s@, 0) == Err::<Seq<Token>, LexError>(e),
        },
{
    let len = s.as_str().unicode_len();
    let mut result: Vec<Token> = Vec::new();
    let mut pointer: usize = 0;
    while pointer < len
        invariant
            len == s@.len(),
            pointer <= len,
            tokenize_prefix_ok(s@, result@, pointer as int),
        decreases len - pointer,
    {
        let ghost text = s@;
        let ghost pos = pointer as int;

        // Whitespace first.
        let whitespace_pointer = tokenize_whitespace(&s, pointer);
        if whitespace_pointer != pointer {
            proof {
                lemma_tokenize_step(
                    text,
                    result@,
                    pos,
                    Token::WhiteSpace,
                    whitespace_pointer as int,
                );
            }
            result.push(Token::WhiteSpace);
            pointer = whitespace_pointer;
            continue;
        }

        // Number.
        let number_pointer = tokenize_number(&s, pointer);
        if number_pointer != pointer {
            proof {
                lemma_tokenize_step(text, result@, pos, Token::Number, number_pointer as int);
            }
            result.push(Token::Number);
            pointer = number_pointer;
            continue;
        }

        // Single-quote string.
        let single_quotes_result = tokenize_single_quotes(&s, pointer);
        proof {
            lemma_scan_single_quote_body(text, pos + 1, pointer);
        }
        match single_quotes_result {
            Err(e) => {
                return Err(e);
            },
            Ok(single_quotes_pointer) => {
                if single_quotes_pointer != pointer {
                    proof {
                        lemma_tokenize_step(
                            text,
                            result@,
                            pos,
                            Token::SingleQuote,
                            single_quotes_pointer as int,
                        );
                    }
                    result.push(Token::SingleQuote);
                    pointer = single_quotes_pointer;
                    continue;
                }
            },
        }

        // ANSI-C dollar-single-quote string.
        let dsq_result = tokenize_dollar_single_quotes(&s, pointer);
        proof {
            if dollar_quote_opens(text, pos) {
                lemma_scan_dollar_body(text, pos + 2, pointer);
            }
        }
        match dsq_result {
            Err(e) => {
                return Err(e);
            },
            Ok(dsq_pointer) => {
                if dsq_pointer != pointer {
                    proof {
                        lemma_tokenize_step(
                            text,
                            result@,
                            pos,
                            Token::DollarSingleQuote,
                            dsq_pointer as int,
                        );
                    }
                    result.push(Token::DollarSingleQuote);
                    pointer = dsq_pointer;
                    continue;
                }
            },
        }

        // Double-quote string.
        let dq_result = tokenize_double_quote_string(&s, pointer);
        proof {
            lemma_scan_double_quote_body(text, pos + 1, pointer);
        }
        match dq_result {
            Err(e) => {
                return Err(e);
            },
            Ok(dq_pointer) => {
                if dq_pointer != pointer {
                    proof {
                        lemma_tokenize_step(
                            text,
                            result@,
                            pos,
                            Token::DoubleQuote,
                            dq_pointer as int,
                        );
                    }
                    result.push(Token::DoubleQuote);
                    pointer = dq_pointer;
                    continue;
                }
            },
        }

        // Metacharacters `|`, `&`, `;`, `(`, `)`, `<`, `>`.
        let metacharacter_result = tokenize_metacharacter(s.as_str(), pointer);
        if let Some((metacharacter_token, metacharacter_pointer)) = metacharacter_result {
            proof {
                lemma_tokenize_step(
                    text,
                    result@,
                    pos,
                    metacharacter_token,
                    metacharacter_pointer as int,
                );
            }
            result.push(metacharacter_token);
            pointer = metacharacter_pointer;
            continue;
        }

        // No scanner recognizes this character: report it rather than loop.
        return Err(LexError::UnrecognizedCharacter { pos: pointer });
    }
    Ok(result)
}

} // verus!

//! Metacharacter scanner: single-character recognizer for the unquoted
//! word separators `|`, `&`, `;`, `(`, `)`, `<` and `>`. No multi-character
//! operators are recognized in this scope.

use vstd::prelude::*;

use crate::tokens::Token;

verus! {

/// The token a metacharacter stands for, or `None` for any other character.
pub open spec fn metachar_token(c: char) -> Option<Token> {
    if c == '|' {
        Some(Token::Pipe)
    } else if c == '&' {
        Some(Token::Ampersand)
    } else if c == ';' {
        Some(Token::Semicolon)
    } else if c == '(' {
        Some(Token::LParenthesis)
    } else if c == ')' {
        Some(Token::RParenthesis)
    } else if c == '<' {
        Some(Token::LessAnd)
    } else if c == '>' {
        Some(Token::GreatAnd)
    } else {
        None
    }
}

/// Recognize a single metacharacter at `start`: its token and `start + 1`,
/// or `None` when the character there is no metacharacter (or `start` is
/// the end of the text). Never fails.
pub fn tokenize_metacharacter(content: &str, start: usize) -> (r: Option<(Token, usize)>)
    requires
        start <= content@.len(),
    ensures
        start == content@.len() ==> r is None,
        start < content@.len() ==> r == match metachar_token(content@[start as int]) {
            Some(t) => Some((t, (start + 1) as usize)),
            None => None::<(Token, usize)>,
        },
{
    let len = content.unicode_len();
    if start == len {
        return None;
    }
    let c = content.get_char(start);
    let pointer = start + 1;
    if c == '|' {
        return Some((Token::Pipe, pointer));
    }
    if c == '&' {
        return Some((Token::Ampersand, pointer));
    }
    if c == ';' {
        return Some((Token::Semicolon, pointer));
    }
    if c == '(' {
        return Some((Token::LParenthesis, pointer));
    }
    if c == ')' {
        return Some((Token::RParenthesis, pointer));
    }
    if c == '<' {
        return Some((Token::LessAnd, pointer));
    }
    if c == '>' {
        return Some((Token::GreatAnd, pointer));
    }
    None
}

} // verus!

//! The scanners. Each is a pure function of `(text, start)`: it either
//! declines by returning `start` unchanged, or consumes characters and
//! returns the first position past what it recognized, or reports a lexical
//! error.

pub mod whitespace;
pub mod number;
pub mod single_quotes;
pub mod single_quote_string;
pub mod double_quote_string;
pub mod metacharacter;
pub mod dollar_single_quotes;

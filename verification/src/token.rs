use vstd::prelude::*;

verus! {

/// The kinds of token the scanner can produce: a closed set covering the
/// fixed punctuation characters, identifiers, the two keywords, integer
/// literals, an invalid marker for unrecognized characters, and end of input.
#[derive(Debug, PartialEq, Eq, Structural, Clone, Copy)]
pub enum TokenType {
    Assign,
    Plus,
    Minus,
    Lparen,
    Rparen,
    Lbrace,
    Rbrace,
    Comma,
    Semicolon,
    Ident,
    Let,
    Int,
    Function,
    Invalid,
    Eof,
}

/// A classified, immutable lexical unit: its kind and the exact substring of
/// the input it was scanned from. The text is empty for the end-of-input
/// token and for invalid tokens.
#[derive(Debug)]
pub struct Token {
    pub token_type: TokenType,
    pub token_literal: String,
}

}

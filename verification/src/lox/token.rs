//! Tokens of Lox source text.
use vstd::prelude::*;

verus! {

/// The kinds of token.
#[derive(Debug, Clone, Copy, PartialEq, Eq, Structural, Hash)]
pub enum TokenType {
    // single-character tokens
    LeftParen,
    RightParen,
    LeftBrace,
    RightBrace,
    Comma,
    Dot,
    Minus,
    Plus,
    SemiColon,
    Slash,
    Star,
    // one or two character tokens
    Bang,
    BangEqual,
    Equal,
    EqualEqual,
    Greater,
    GreaterEqual,
    Less,
    LessEqual,
    // literals
    Identifier,
    String,
    Number,
    // keywords
    And,
    Class,
    Else,
    False,
    For,
    Fun,
    If,
    Nil,
    Or,
    Print,
    Return,
    Super,
    This,
    True,
    Var,
    While,
    Error,
    Eof,
}

/// A token: its kind, the line it ends on, and its text (for an error token,
/// the message).
#[derive(Debug, Clone, Copy)]
pub struct Token<'a> {
    pub typ: TokenType,
    pub line: usize,
    pub source: &'a str,
}

impl<'a> Token<'a> {
    /// The kind of the token.
    pub fn typ(&self) -> (r: TokenType)
        ensures
            r == self.typ,
    {
        self.typ
    }
}

} // verus!

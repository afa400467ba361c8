//! The tokens of the surface syntax.

use vstd::prelude::*;

verus! {

/// The kind of a token.
#[derive(Clone, Copy, Debug, PartialEq, Eq, Structural)]
pub enum Token {
    // special
    EOF,
    Error,
    Number,
    Space,
    Symbol,
    // dots
    Dot,
    DotDot,
    DotDotDot,
    // punctuation
    Colon,
    Comma,
    LBrace,
    LBracket,
    LParen,
    RBrace,
    RBracket,
    RParen,
    Semi,
    // operators
    Assign,
    EQ,
    NE,
    GT,
    GE,
    LT,
    LE,
    Ampersand,
    At,
    Bang,
    Caret,
    Dollar,
    Minus,
    Percent,
    Pipe,
    Plus,
    Query,
    Slash,
    Star,
    Tilde,
    // keywords
    And,
    Break,
    Do,
    Elif,
    Else,
    End,
    For,
    Fun,
    If,
    Let,
    Loop,
    Or,
    Return,
    Then,
    While,
}

impl Token {
    /// The number of token kinds.
    pub const VARIANT_COUNT: usize = 52;
}

} // verus!

//! Token kinds and literal payloads, as the parser hands them to the core.

use vstd::prelude::*;

verus! {

/// The kind of a token. The evaluator only reads the operator kinds
/// (`Plus`, `Minus`, ..., `And`, `Or`, `Not`); the rest exist for the
/// surrounding lexer and parser.
#[derive(Clone, Copy, PartialEq, Eq, Structural, Debug)]
pub enum TokenType {
    Ternary,
    Colon,
    LeftParen,
    RightParen,
    Comma,
    Dot,
    Minus,
    Semicolon,
    Slash,
    Plus,
    Aster,
    Not,
    NotEqual,
    Assignment,
    Equality,
    Greater,
    GreaterEqual,
    Less,
    LessEqual,
    Identifier,
    Str,
    Number,
    And,
    Class,
    Else,
    False,
    True,
    Fun,
    For,
    If,
    Nil,
    Or,
    Print,
    Return,
    Super,
    This,
    Let,
    While,
    LeftSquigly,
    RightSquigly,
    Loop,
    Break,
    Continue,
    Struct,
    Terminate,
}

/// A literal value carried by a token and by the AST.
/// Numbers are 64-bit signed integers.
#[derive(Clone, Debug)]
pub enum Literal {
    Str(String),
    Number(i64),
    True,
    False,
    Nil,
}

/// One token of source text.
#[derive(Clone, Debug)]
pub struct Token {
    pub token_type: TokenType,
    pub literal: Option<Literal>,
    pub lex: String,
    pub line: usize,
}

} // verus!

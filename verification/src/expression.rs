//! The expression half of the abstract syntax tree.

use vstd::prelude::*;
use crate::statement::Statement;
use crate::token::{Literal, TokenType};

verus! {

/// A variable occurrence: its name, plus a stable per-occurrence
/// identity minted at parse time. Two uses of the same name in
/// different places carry different `id`s, so the resolver's distance
/// map is a relation on occurrences, not on names.
#[derive(Clone, Debug)]
pub struct Symbol {
    pub name: String,
    pub id: u64,
}

/// An expression. Blocks, `if`, `while` and `loop` are expressions:
/// each yields a value.
#[derive(Debug)]
pub enum Expression {
    Binary(Box<Expression>, TokenType, Box<Expression>),
    /// Kept apart from `Binary` so that `and`/`or` can short-circuit.
    Logical(Box<Expression>, TokenType, Box<Expression>),
    Unary(TokenType, Box<Expression>),
    Literal(Literal),
    Grouping(Box<Expression>),
    Ternary(Box<Expression>, Box<Expression>, Box<Expression>),
    /// A variable reference.
    Primary(Symbol),
    /// Callee and arguments.
    Call(Box<Expression>, Vec<Expression>),
    BlockExpr(Vec<Statement>),
    IfExpr(Box<Expression>, Box<Expression>, Box<Option<Expression>>),
    WhileExpr(Box<Expression>, Box<Expression>),
    LoopExpr(Box<Expression>),
    BreakExpr,
    ContinueExpr,
}

} // verus!

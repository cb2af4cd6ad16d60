//! The statement half of the abstract syntax tree.

use vstd::prelude::*;
use crate::expression::{Expression, Symbol};

verus! {

/// A statement, as produced by the parser.
#[derive(Debug)]
pub enum Statement {
    /// An expression in statement position; its value becomes the
    /// enclosing block's running "last value".
    Expression(Expression),
    /// `let name = init;` (initializer optional, `Nil` when absent).
    Declaration(Symbol, Option<Expression>),
    /// `name = expr;` — never creates a binding.
    Assignment(Symbol, Expression),
    /// `fun name(params) { body }`.
    FuncDclaration(Symbol, Vec<Symbol>, Expression),
    /// `return expr;`.
    Return(Expression),
}

} // verus!

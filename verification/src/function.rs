//! User-defined functions (closures) and the native functions.

use vstd::prelude::*;
use crate::expression::Symbol;
use crate::statement::Statement;
use crate::semantics::{params_view, stmts_view_from, FunM};

verus! {

/// A user-defined function: a closure over the scope that was current
/// at its declaration. The captured scope is an arena index, so the
/// closure and the enclosing code share one environment: assignments
/// made during a call stay visible to later calls and to other
/// closures over the same scope.
pub struct Function {
    pub name: Symbol,
    pub params: Vec<Symbol>,
    pub body: Vec<Statement>,
    /// Arena index of the environment captured at declaration time.
    pub closure: usize,
}

impl View for Function {
    type V = FunM;

    open spec fn view(&self) -> FunM {
        FunM {
            params: params_view(self.params@),
            body: stmts_view_from(self.body@, 0),
            cap: self.closure as int,
        }
    }
}

impl Function {
    pub fn new(name: Symbol, params: Vec<Symbol>, body: Vec<Statement>, closure: usize) -> (f:
        Function)
        ensures
            f@ == (FunM {
                params: params_view(params@),
                body: stmts_view_from(body@, 0),
                cap: closure as int,
            }),
            f.params@ == params@,
            f.body@ == body@,
    {
        Function { name, params, body, closure }
    }

    /// The number of arguments the function takes.
    pub fn arity(&self) -> (n: usize)
        ensures
            n == self@.params.len(),
    {
        self.params.len()
    }
}

} // verus!

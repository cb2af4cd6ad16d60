//! Deep copies of AST nodes. A copy has the same ghost image as the
//! original, which is what the evaluator needs when it stores a
//! function body in its table and when it re-reads that body on a
//! call.

use vstd::prelude::*;
use crate::expression::{Expression, Symbol};
use crate::statement::Statement;
use crate::token::Literal;
use crate::semantics::{
    expr_view, exprs_view_from, lemma_exprs_view_index, lemma_exprs_view_push,
    lemma_stmts_view_index, lemma_stmts_view_push, lit_val, params_view, stmt_view,
    stmts_view_from,
};

verus! {

pub fn clone_literal(l: &Literal) -> (r: Literal)
    ensures
        lit_val(r) == lit_val(*l),
{
    match l {
        Literal::Str(s) => Literal::Str(s.clone()),
        Literal::Number(n) => Literal::Number(*n),
        Literal::True => Literal::True,
        Literal::False => Literal::False,
        Literal::Nil => Literal::Nil,
    }
}

pub fn clone_symbol(sym: &Symbol) -> (r: Symbol)
    ensures
        r.name@ == sym.name@,
        r.id == sym.id,
{
    Symbol { name: sym.name.clone(), id: sym.id }
}

pub fn clone_symbols(ps: &Vec<Symbol>) -> (r: Vec<Symbol>)
    ensures
        params_view(r@) == params_view(ps@),
        r@.len() == ps@.len(),
        forall|j: int| 0 <= j < ps@.len() ==> (#[trigger] r@[j]).name@ == ps@[j].name@,
{
    let mut out: Vec<Symbol> = Vec::new();
    let mut i: usize = 0;
    while i < ps.len()
        invariant
            i <= ps.len(),
            out@.len() == i,
            forall|j: int| 0 <= j < i ==> (#[trigger] out@[j]).name@ == ps@[j].name@,
        decreases ps.len() - i,
    {
        out.push(clone_symbol(&ps[i]));
        i += 1;
    }
    proof {
        assert(params_view(out@) =~= params_view(ps@));
    }
    out
}

#[verifier::loop_isolation(false)]
pub fn clone_expr(e: &Expression) -> (r: Expression)
    ensures
        expr_view(r) == expr_view(*e),
    decreases *e, 1int,
{
    match e {
        Expression::Binary(l, op, rr) => Expression::Binary(
            Box::new(clone_expr(&*l)),
            *op,
            Box::new(clone_expr(&*rr)),
        ),
        Expression::Logical(l, op, rr) => Expression::Logical(
            Box::new(clone_expr(&*l)),
            *op,
            Box::new(clone_expr(&*rr)),
        ),
        Expression::Unary(op, ex) => Expression::Unary(*op, Box::new(clone_expr(&*ex))),
        Expression::Literal(l) => Expression::Literal(clone_literal(l)),
        Expression::Grouping(g) => Expression::Grouping(Box::new(clone_expr(&*g))),
        Expression::Ternary(c, a, b) => Expression::Ternary(
            Box::new(clone_expr(&*c)),
            Box::new(clone_expr(&*a)),
            Box::new(clone_expr(&*b)),
        ),
        Expression::Primary(sym) => Expression::Primary(clone_symbol(sym)),
        Expression::Call(callee, args) => {
            let c2 = Box::new(clone_expr(&*callee));
            let mut out: Vec<Expression> = Vec::new();
            let mut i: usize = 0;
            while i < args.len()
                invariant
                    i <= args.len(),
                    exprs_view_from(out@, 0) =~= exprs_view_from(args@, 0).take(i as int),
                decreases args.len() - i,
            {
                proof {
                    assert(decreases_to!(*e => (*e)->Call_1));
                    assert((*e)->Call_1 == *args);
                    assert(decreases_to!(*args => args@));
                    assert(decreases_to!(args@ => args@[i as int]));
                    lemma_exprs_view_index(args@, 0);
                }
                let a = clone_expr(&args[i]);
                proof {
                    lemma_exprs_view_push(out@, a, 0);
                }
                out.push(a);
                i += 1;
            }
            proof {
                lemma_exprs_view_index(args@, 0);
                assert(exprs_view_from(out@, 0) =~= exprs_view_from(args@, 0));
            }
            Expression::Call(c2, out)
        },
        Expression::BlockExpr(stmts) => Expression::BlockExpr(clone_block_stmts(e, stmts)),
        Expression::IfExpr(c, t, els) => {
            let e2: Option<Expression> = match &**els {
                Some(ee) => Some(clone_expr(ee)),
                None => None,
            };
            Expression::IfExpr(
                Box::new(clone_expr(&*c)),
                Box::new(clone_expr(&*t)),
                Box::new(e2),
            )
        },
        Expression::WhileExpr(c, b) => Expression::WhileExpr(
            Box::new(clone_expr(&*c)),
            Box::new(clone_expr(&*b)),
        ),
        Expression::LoopExpr(b) => Expression::LoopExpr(Box::new(clone_expr(&*b))),
        Expression::BreakExpr => Expression::BreakExpr,
        Expression::ContinueExpr => Expression::ContinueExpr,
    }
}

/// Copies the statements of the block expression `e`.
#[verifier::loop_isolation(false)]
fn clone_block_stmts(e: &Expression, stmts: &Vec<Statement>) -> (r: Vec<Statement>)
    requires
        *e is BlockExpr,
        (*e)->BlockExpr_0 == *stmts,
    ensures
        stmts_view_from(r@, 0) == stmts_view_from(stmts@, 0),
    decreases *e, 0int,
{
    let mut out: Vec<Statement> = Vec::new();
    let mut i: usize = 0;
    while i < stmts.len()
        invariant
            i <= stmts.len(),
            stmts_view_from(out@, 0) =~= stmts_view_from(stmts@, 0).take(i as int),
        decreases stmts.len() - i,
    {
        proof {
            assert(decreases_to!(*e => (*e)->BlockExpr_0));
            assert(decreases_to!(*stmts => stmts@));
            assert(decreases_to!(stmts@ => stmts@[i as int]));
            lemma_stmts_view_index(stmts@, 0);
        }
        let s = clone_stmt(&stmts[i]);
        proof {
            lemma_stmts_view_push(out@, s, 0);
        }
        out.push(s);
        i += 1;
    }
    proof {
        lemma_stmts_view_index(stmts@, 0);
        assert(stmts_view_from(out@, 0) =~= stmts_view_from(stmts@, 0));
    }
    out
}

pub fn clone_stmt(s: &Statement) -> (r: Statement)
    ensures
        stmt_view(r) == stmt_view(*s),
    decreases *s, 1int,
{
    match s {
        Statement::Expression(e) => Statement::Expression(clone_expr(e)),
        Statement::Declaration(sym, init) => {
            let i2: Option<Expression> = match init {
                Some(e) => Some(clone_expr(e)),
                None => None,
            };
            Statement::Declaration(clone_symbol(sym), i2)
        },
        Statement::Assignment(sym, e) => Statement::Assignment(clone_symbol(sym), clone_expr(e)),
        Statement::FuncDclaration(name, params, body) => Statement::FuncDclaration(
            clone_symbol(name),
            clone_symbols(params),
            clone_expr(body),
        ),
        Statement::Return(e) => Statement::Return(clone_expr(e)),
    }
}

/// Copies a whole statement vector (a function body).
#[verifier::loop_isolation(false)]
pub fn clone_stmts(stmts: &Vec<Statement>) -> (r: Vec<Statement>)
    ensures
        stmts_view_from(r@, 0) == stmts_view_from(stmts@, 0),
    decreases stmts@, 0int,
{
    let mut out: Vec<Statement> = Vec::new();
    let mut i: usize = 0;
    while i < stmts.len()
        invariant
            i <= stmts.len(),
            stmts_view_from(out@, 0) =~= stmts_view_from(stmts@, 0).take(i as int),
        decreases stmts.len() - i,
    {
        proof {
            assert(decreases_to!(stmts@ => stmts@[i as int]));
            lemma_stmts_view_index(stmts@, 0);
        }
        let s = clone_stmt(&stmts[i]);
        proof {
            lemma_stmts_view_push(out@, s, 0);
        }
        out.push(s);
        i += 1;
    }
    proof {
        lemma_stmts_view_index(stmts@, 0);
        assert(stmts_view_from(out@, 0) =~= stmts_view_from(stmts@, 0));
    }
    out
}

} // verus!

//! Laws of the language, proved once and for all against the
//! semantics in `semantics` and `resolver`. Each law holds for every
//! state, every fuel budget and every subexpression, not just for the
//! cases the tests run.

use vstd::prelude::*;
use crate::interpreter::Error;
use crate::resolver::{r_stmt, RState};
use crate::semantics::{
    assoc_find, div_trunc, in_i64, lemma_seq_doms, lemma_seq_grows, s_binop, s_call_value,
    s_eval_expr, s_eval_loop, s_eval_seq, s_eval_stmt, s_eval_while, s_bind_params, s_push_scope,
    same_names, EvalR, ExprM, StmtM, St, Val,
};
use crate::token::TokenType;

verus! {

/// Arithmetic on numbers is exact: whenever the mathematical result
/// fits in the numbers' 64-bit range, the operator yields exactly it,
/// and division by a non-zero number yields exactly the quotient
/// truncated toward zero. Outside the range the operator fails with
/// `NumericOverflow` — never a silently wrong value.
pub proof fn law_arithmetic_exact(a: int, b: int)
    ensures
        s_binop(TokenType::Plus, Val::Num(a), Val::Num(b)) == if in_i64(a + b) {
            EvalR::Norm(Val::Num(a + b))
        } else {
            EvalR::Fail(Error::NumericOverflow)
        },
        s_binop(TokenType::Minus, Val::Num(a), Val::Num(b)) == if in_i64(a - b) {
            EvalR::Norm(Val::Num(a - b))
        } else {
            EvalR::Fail(Error::NumericOverflow)
        },
        s_binop(TokenType::Aster, Val::Num(a), Val::Num(b)) == if in_i64(a * b) {
            EvalR::Norm(Val::Num(a * b))
        } else {
            EvalR::Fail(Error::NumericOverflow)
        },
        b != 0 ==> s_binop(TokenType::Slash, Val::Num(a), Val::Num(b)) == if in_i64(
            div_trunc(a, b),
        ) {
            EvalR::Norm(Val::Num(div_trunc(a, b)))
        } else {
            EvalR::Fail(Error::NumericOverflow)
        },
{
}

/// Division of a number by the number zero always fails with
/// `DivisionByZero`; it never yields a value.
pub proof fn law_division_by_zero(a: int)
    ensures
        s_binop(TokenType::Slash, Val::Num(a), Val::Num(0)) == EvalR::Fail(
            Error::DivisionByZero,
        ),
{
}

/// At the expression level: when the left operand of `/` evaluates to
/// a number and the right to zero, the whole division fails with
/// `DivisionByZero`.
pub proof fn law_division_by_zero_eval(l: Box<ExprM>, r: Box<ExprM>, st: St, fuel: nat, a: int)
    requires
        fuel > 0,
        s_eval_expr(*l, st, (fuel - 1) as nat).1 == EvalR::Norm(Val::Num(a)),
        s_eval_expr(*r, s_eval_expr(*l, st, (fuel - 1) as nat).0, (fuel - 1) as nat).1
            == EvalR::Norm(Val::Num(0)),
    ensures
        s_eval_expr(ExprM::Binary(l, TokenType::Slash, r), st, fuel).1 == EvalR::Fail(
            Error::DivisionByZero,
        ),
{
}

/// `and` short-circuits: when the left operand yields `false`, the
/// right operand is never evaluated — the outcome is the same
/// whatever expression stands there, and it is `false`.
pub proof fn law_and_short_circuit(
    l: Box<ExprM>,
    r1: Box<ExprM>,
    r2: Box<ExprM>,
    st: St,
    fuel: nat,
)
    requires
        fuel > 0,
        s_eval_expr(*l, st, (fuel - 1) as nat).1 == EvalR::Norm(Val::Bool(false)),
    ensures
        s_eval_expr(ExprM::Logical(l, TokenType::And, r1), st, fuel) == s_eval_expr(
            ExprM::Logical(l, TokenType::And, r2),
            st,
            fuel,
        ),
        s_eval_expr(ExprM::Logical(l, TokenType::And, r1), st, fuel).1 == EvalR::Norm(
            Val::Bool(false),
        ),
{
}

/// `or` short-circuits: when the left operand yields `true`, the
/// right operand is never evaluated — the outcome is the same
/// whatever expression stands there, and it is `true`.
pub proof fn law_or_short_circuit(
    l: Box<ExprM>,
    r1: Box<ExprM>,
    r2: Box<ExprM>,
    st: St,
    fuel: nat,
)
    requires
        fuel > 0,
        s_eval_expr(*l, st, (fuel - 1) as nat).1 == EvalR::Norm(Val::Bool(true)),
    ensures
        s_eval_expr(ExprM::Logical(l, TokenType::Or, r1), st, fuel) == s_eval_expr(
            ExprM::Logical(l, TokenType::Or, r2),
            st,
            fuel,
        ),
        s_eval_expr(ExprM::Logical(l, TokenType::Or, r1), st, fuel).1 == EvalR::Norm(
            Val::Bool(true),
        ),
{
}

/// A ternary whose condition yields `true` evaluates only its first
/// branch: the second branch is never evaluated, and the whole
/// expression is exactly the first branch's evaluation.
pub proof fn law_ternary_true(c: Box<ExprM>, a: Box<ExprM>, b1: Box<ExprM>, b2: Box<ExprM>, st: St, fuel: nat)
    requires
        fuel > 0,
        s_eval_expr(*c, st, (fuel - 1) as nat).1 == EvalR::Norm(Val::Bool(true)),
    ensures
        s_eval_expr(ExprM::Ternary(c, a, b1), st, fuel) == s_eval_expr(
            ExprM::Ternary(c, a, b2),
            st,
            fuel,
        ),
        s_eval_expr(ExprM::Ternary(c, a, b1), st, fuel) == s_eval_expr(
            *a,
            s_eval_expr(*c, st, (fuel - 1) as nat).0,
            (fuel - 1) as nat,
        ),
{
}

/// A ternary whose condition yields `false` evaluates only its second
/// branch.
pub proof fn law_ternary_false(c: Box<ExprM>, a1: Box<ExprM>, a2: Box<ExprM>, b: Box<ExprM>, st: St, fuel: nat)
    requires
        fuel > 0,
        s_eval_expr(*c, st, (fuel - 1) as nat).1 == EvalR::Norm(Val::Bool(false)),
    ensures
        s_eval_expr(ExprM::Ternary(c, a1, b), st, fuel) == s_eval_expr(
            ExprM::Ternary(c, a2, b),
            st,
            fuel,
        ),
        s_eval_expr(ExprM::Ternary(c, a1, b), st, fuel) == s_eval_expr(
            *b,
            s_eval_expr(*c, st, (fuel - 1) as nat).0,
            (fuel - 1) as nat,
        ),
{
}

/// A `Brk` signal from the body ends exactly the enclosing `while`
/// loop: the loop consumes the signal and yields `Nil` as a normal
/// value, so no outer loop sees it.
pub proof fn law_break_stops_while(c: ExprM, b: ExprM, st: St, fuel: nat)
    requires
        fuel > 0,
        s_eval_expr(c, st, (fuel - 1) as nat).1 == EvalR::Norm(Val::Bool(true)),
        s_eval_expr(b, s_eval_expr(c, st, (fuel - 1) as nat).0, (fuel - 1) as nat).1
            == EvalR::Brk,
    ensures
        s_eval_while(c, b, st, fuel) == (
            s_eval_expr(b, s_eval_expr(c, st, (fuel - 1) as nat).0, (fuel - 1) as nat).0,
            EvalR::Norm(Val::Nil),
        ),
{
}

/// A `Brk` signal from the body ends exactly the enclosing `loop`.
pub proof fn law_break_stops_loop(b: ExprM, st: St, fuel: nat)
    requires
        fuel > 0,
        s_eval_expr(b, st, (fuel - 1) as nat).1 == EvalR::Brk,
    ensures
        s_eval_loop(b, st, fuel) == (
            s_eval_expr(b, st, (fuel - 1) as nat).0,
            EvalR::Norm(Val::Nil),
        ),
{
}

/// A `Ret` signal from a statement stops its statement sequence at
/// once: the statements after it are never evaluated, and the signal
/// propagates unchanged.
pub proof fn law_return_stops_sequence(ss: Seq<StmtM>, i: int, last: Val, st: St, fuel: nat, v: Val)
    requires
        fuel > 0,
        0 <= i < ss.len(),
        s_eval_stmt(ss[i], st, (fuel - 1) as nat).1 == EvalR::Ret(v),
    ensures
        s_eval_seq(ss, i, last, st, fuel) == (
            s_eval_stmt(ss[i], st, (fuel - 1) as nat).0,
            EvalR::Ret(v),
        ),
{
}

/// A `Ret` signal passes through a block unchanged (after the block's
/// scope is left), on its way to the enclosing call.
pub proof fn law_return_through_block(stmts: Seq<StmtM>, st: St, fuel: nat, v: Val)
    requires
        fuel > 0,
        s_eval_seq(stmts, 0, Val::Nil, s_push_scope(st, Some(st.cur)), (fuel - 1) as nat).1
            == EvalR::Ret(v),
    ensures
        s_eval_expr(ExprM::Block(stmts), st, fuel).1 == EvalR::Ret(v),
        s_eval_expr(ExprM::Block(stmts), st, fuel).0.cur == st.cur,
{
}

/// At the call boundary a `Ret` signal is consumed: the carried value
/// becomes the call's normal result, and the caller's scope is
/// restored.
pub proof fn law_return_ends_call(fid: int, vals: Seq<Val>, st: St, fuel: nat, v: Val)
    requires
        fuel > 0,
        0 <= fid < st.funs.len(),
        vals.len() == st.funs[fid].params.len(),
        s_bind_params(
            s_push_scope(st, Some(st.funs[fid].cap)),
            st.funs[fid].params,
            vals,
            0,
        ).1 == true,
        s_eval_seq(
            st.funs[fid].body,
            0,
            Val::Nil,
            s_bind_params(s_push_scope(st, Some(st.funs[fid].cap)), st.funs[fid].params, vals, 0).0,
            (fuel - 1) as nat,
        ).1 == EvalR::Ret(v),
    ensures
        s_call_value(Val::Fun(fid), vals, st, fuel).1 == EvalR::Norm(v),
        s_call_value(Val::Fun(fid), vals, st, fuel).0.cur == st.cur,
{
}

/// A block restores the current scope on every outcome: what is
/// declared inside binds in the block's own scope, which is left
/// behind on exit.
pub proof fn law_block_restores_scope(stmts: Seq<StmtM>, st: St, fuel: nat)
    requires
        fuel > 0,
    ensures
        s_eval_expr(ExprM::Block(stmts), st, fuel).0.cur == st.cur,
{
}

/// Shadowing stays inside: whatever a block declares binds in the
/// block's own scope. After the block, every scope that existed
/// before it holds exactly the names it held — an inner declaration
/// never leaks outward, on any outcome of the block.
/// (Assignments inside the block may still change the *values* of
/// enclosing bindings; that is what closures rely on.)
pub proof fn law_block_declarations_do_not_leak(stmts: Seq<StmtM>, st: St, fuel: nat)
    requires
        fuel > 0,
    ensures
        s_eval_expr(ExprM::Block(stmts), st, fuel).0.cur == st.cur,
        forall|i: int|
            0 <= i < st.scopes.len() ==> #[trigger] same_names(
                s_eval_expr(ExprM::Block(stmts), st, fuel).0.scopes[i].entries,
                st.scopes[i].entries,
            ),
{
    let f = (fuel - 1) as nat;
    let st1 = s_push_scope(st, Some(st.cur));
    lemma_seq_doms(stmts, 0, Val::Nil, st1, f);
    lemma_seq_grows(stmts, 0, Val::Nil, st1, f);
    let st2 = s_eval_seq(stmts, 0, Val::Nil, st1, f).0;
    assert forall|i: int| 0 <= i < st.scopes.len() implies #[trigger] same_names(
        s_eval_expr(ExprM::Block(stmts), st, fuel).0.scopes[i].entries,
        st.scopes[i].entries,
    ) by {
        assert(same_names(st2.scopes[i].entries, st1.scopes[i].entries));
        assert(st1.scopes[i] == st.scopes[i]);
    }
}

/// Redeclaring a name in the scope it is already declared in is
/// rejected by the resolver — before anything evaluates.
pub proof fn law_duplicate_declaration(name: Seq<char>, init: Option<ExprM>, rs: RState)
    requires
        rs.stack.len() > 0,
        assoc_find(rs.stack.last(), name) is Some,
    ensures
        r_stmt(StmtM::Decl(name, init), rs) == Err::<RState, Error>(Error::DuplicateDeclaration),
{
}

} // verus!

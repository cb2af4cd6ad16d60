//! The mathematical semantics of the language: a ghost mirror of the
//! AST, a ghost model of the evaluator state, and a step-indexed
//! big-step evaluation function. The executable evaluator in
//! `interpreter` is proved to agree with `s_eval_expr` and friends on
//! every input and every fuel budget.

use vstd::prelude::*;
use crate::expression::{Expression, Symbol};
use crate::statement::Statement;
use crate::token::{Literal, TokenType};
use crate::interpreter::{Error, NativeKind};
use crate::numfmt::dec_int;

verus! {

// ---------------------------------------------------------------------
// Ghost values and ghost state
// ---------------------------------------------------------------------

/// The mathematical image of a runtime value.
#[verifier::ext_equal]
pub enum Val {
    Num(int),
    Text(Seq<char>),
    Bool(bool),
    Nil,
    /// Index of a user function in the function table.
    Fun(int),
    Native(NativeKind),
}

/// The outcome of one evaluation step: a normal value, a control-flow
/// signal, or a failure. Signals are not values: they cannot be stored
/// in a variable, only propagated.
#[verifier::ext_equal]
pub enum EvalR {
    Norm(Val),
    Brk,
    Cont,
    Ret(Val),
    Fail(Error),
}

/// One lexical scope: bindings in declaration order, and the arena
/// index of the enclosing scope, if any.
#[verifier::ext_equal]
pub struct ScopeM {
    pub entries: Seq<(Seq<char>, Val)>,
    pub parent: Option<int>,
}

/// One user-defined function: parameter names, body, and the arena
/// index of the environment captured at declaration time.
#[verifier::ext_equal]
pub struct FunM {
    pub params: Seq<Seq<char>>,
    pub body: Seq<StmtM>,
    pub cap: int,
}

/// The whole evaluator state: the scope arena (scopes are never
/// removed, so closures can share them), the current scope, the
/// function table, the resolver's distance map, and the output
/// produced so far by `print`/`println`.
#[verifier::ext_equal]
pub struct St {
    pub scopes: Seq<ScopeM>,
    pub cur: int,
    pub funs: Seq<FunM>,
    pub dmap: Seq<(u64, usize)>,
    pub out: Seq<Seq<char>>,
}

/// A state is well formed when the current scope exists.
pub open spec fn st_wf(st: St) -> bool {
    1 <= st.scopes.len() && 0 <= st.cur < st.scopes.len()
}

// ---------------------------------------------------------------------
// Ghost mirror of the AST
// ---------------------------------------------------------------------

/// Ghost image of an `Expression`.
#[verifier::ext_equal]
pub enum ExprM {
    Binary(Box<ExprM>, TokenType, Box<ExprM>),
    Logical(Box<ExprM>, TokenType, Box<ExprM>),
    Unary(TokenType, Box<ExprM>),
    Lit(Val),
    Grouping(Box<ExprM>),
    Ternary(Box<ExprM>, Box<ExprM>, Box<ExprM>),
    /// A variable reference: name and occurrence identity.
    Var(Seq<char>, u64),
    Call(Box<ExprM>, Seq<ExprM>),
    Block(Seq<StmtM>),
    If(Box<ExprM>, Box<ExprM>, Option<Box<ExprM>>),
    While(Box<ExprM>, Box<ExprM>),
    Loop(Box<ExprM>),
    Brk,
    Cont,
}

/// Ghost image of a `Statement`.
#[verifier::ext_equal]
pub enum StmtM {
    Expr(ExprM),
    Decl(Seq<char>, Option<ExprM>),
    /// Name, occurrence identity, right-hand side.
    Assign(Seq<char>, u64, ExprM),
    /// Name, parameter names, body.
    FunDecl(Seq<char>, Seq<Seq<char>>, ExprM),
    Ret(ExprM),
}

/// The value a literal denotes.
pub open spec fn lit_val(l: Literal) -> Val {
    match l {
        Literal::Str(s) => Val::Text(s@),
        Literal::Number(n) => Val::Num(n as int),
        Literal::True => Val::Bool(true),
        Literal::False => Val::Bool(false),
        Literal::Nil => Val::Nil,
    }
}

pub open spec fn expr_view(e: Expression) -> ExprM
    decreases e, 0int,
{
    match e {
        Expression::Binary(l, op, r) => ExprM::Binary(
            Box::new(expr_view(*l)),
            op,
            Box::new(expr_view(*r)),
        ),
        Expression::Logical(l, op, r) => ExprM::Logical(
            Box::new(expr_view(*l)),
            op,
            Box::new(expr_view(*r)),
        ),
        Expression::Unary(op, ex) => ExprM::Unary(op, Box::new(expr_view(*ex))),
        Expression::Literal(l) => ExprM::Lit(lit_val(l)),
        Expression::Grouping(g) => ExprM::Grouping(Box::new(expr_view(*g))),
        Expression::Ternary(c, a, b) => ExprM::Ternary(
            Box::new(expr_view(*c)),
            Box::new(expr_view(*a)),
            Box::new(expr_view(*b)),
        ),
        Expression::Primary(sym) => ExprM::Var(sym.name@, sym.id),
        Expression::Call(callee, args) => ExprM::Call(
            Box::new(expr_view(*callee)),
            exprs_view_from(args@, 0),
        ),
        Expression::BlockExpr(stmts) => ExprM::Block(stmts_view_from(stmts@, 0)),
        Expression::IfExpr(c, t, els) => ExprM::If(
            Box::new(expr_view(*c)),
            Box::new(expr_view(*t)),
            match *els {
                Some(ee) => Some(Box::new(expr_view(ee))),
                None => None,
            },
        ),
        Expression::WhileExpr(c, b) => ExprM::While(
            Box::new(expr_view(*c)),
            Box::new(expr_view(*b)),
        ),
        Expression::LoopExpr(b) => ExprM::Loop(Box::new(expr_view(*b))),
        Expression::BreakExpr => ExprM::Brk,
        Expression::ContinueExpr => ExprM::Cont,
    }
}

pub open spec fn exprs_view_from(es: Seq<Expression>, i: int) -> Seq<ExprM>
    decreases es, es.len() - i,
{
    if i < 0 || i >= es.len() {
        Seq::empty()
    } else {
        seq![expr_view(es[i])] + exprs_view_from(es, i + 1)
    }
}

/// The parameter names of a parameter list.
pub open spec fn params_view(ps: Seq<Symbol>) -> Seq<Seq<char>> {
    ps.map_values(|p: Symbol| p.name@)
}

pub open spec fn stmt_view(s: Statement) -> StmtM
    decreases s, 0int,
{
    match s {
        Statement::Expression(e) => StmtM::Expr(expr_view(e)),
        Statement::Declaration(sym, init) => StmtM::Decl(
            sym.name@,
            match init {
                Some(e) => Some(expr_view(e)),
                None => None,
            },
        ),
        Statement::Assignment(sym, e) => StmtM::Assign(sym.name@, sym.id, expr_view(e)),
        Statement::FuncDclaration(name, params, body) => StmtM::FunDecl(
            name.name@,
            params_view(params@),
            expr_view(body),
        ),
        Statement::Return(e) => StmtM::Ret(expr_view(e)),
    }
}

pub open spec fn stmts_view_from(ss: Seq<Statement>, i: int) -> Seq<StmtM>
    decreases ss, ss.len() - i,
{
    if i < 0 || i >= ss.len() {
        Seq::empty()
    } else {
        seq![stmt_view(ss[i])] + stmts_view_from(ss, i + 1)
    }
}

// Facts about the sequence views: length, indexing, and pushing.

pub proof fn lemma_stmts_view_index(ss: Seq<Statement>, i: int)
    requires
        0 <= i <= ss.len(),
    ensures
        stmts_view_from(ss, i).len() == ss.len() - i,
        forall|j: int|
            i <= j < ss.len() ==> stmts_view_from(ss, i)[j - i] == #[trigger] stmt_view(ss[j]),
    decreases ss.len() - i,
{
    if i < ss.len() {
        lemma_stmts_view_index(ss, i + 1);
    }
}

pub proof fn lemma_exprs_view_index(es: Seq<Expression>, i: int)
    requires
        0 <= i <= es.len(),
    ensures
        exprs_view_from(es, i).len() == es.len() - i,
        forall|j: int|
            i <= j < es.len() ==> exprs_view_from(es, i)[j - i] == #[trigger] expr_view(es[j]),
    decreases es.len() - i,
{
    if i < es.len() {
        lemma_exprs_view_index(es, i + 1);
    }
}

pub proof fn lemma_stmts_view_push(ss: Seq<Statement>, x: Statement, i: int)
    requires
        0 <= i <= ss.len(),
    ensures
        stmts_view_from(ss.push(x), i) =~= stmts_view_from(ss, i) + seq![stmt_view(x)],
    decreases ss.len() - i,
{
    if i < ss.len() {
        lemma_stmts_view_push(ss, x, i + 1);
        assert(ss.push(x)[i] == ss[i]);
    } else {
        assert(ss.push(x)[i] == x);
        assert(stmts_view_from(ss.push(x), i + 1) =~= Seq::empty());
        assert(stmts_view_from(ss, i) =~= Seq::empty());
    }
}

pub proof fn lemma_exprs_view_push(es: Seq<Expression>, x: Expression, i: int)
    requires
        0 <= i <= es.len(),
    ensures
        exprs_view_from(es.push(x), i) =~= exprs_view_from(es, i) + seq![expr_view(x)],
    decreases es.len() - i,
{
    if i < es.len() {
        lemma_exprs_view_push(es, x, i + 1);
        assert(es.push(x)[i] == es[i]);
    } else {
        assert(es.push(x)[i] == x);
        assert(exprs_view_from(es.push(x), i + 1) =~= Seq::empty());
        assert(exprs_view_from(es, i) =~= Seq::empty());
    }
}

// ---------------------------------------------------------------------
// Association lists (scopes and the distance map)
// ---------------------------------------------------------------------

/// First value bound to `k`, if any.
pub open spec fn assoc_find<K, V>(s: Seq<(K, V)>, k: K) -> Option<V>
    decreases s.len(),
{
    if s.len() == 0 {
        None
    } else if s[0].0 == k {
        Some(s[0].1)
    } else {
        assoc_find(s.drop_first(), k)
    }
}

/// Replaces the first binding of `k`; identity when `k` is absent.
pub open spec fn assoc_put<K, V>(s: Seq<(K, V)>, k: K, v: V) -> Seq<(K, V)>
    decreases s.len(),
{
    if s.len() == 0 {
        s
    } else if s[0].0 == k {
        s.update(0, (k, v))
    } else {
        seq![s[0]] + assoc_put(s.drop_first(), k, v)
    }
}

/// A scan that finds the first match at index `j` agrees with `assoc_find`.
pub proof fn lemma_assoc_find_at<K, V>(s: Seq<(K, V)>, k: K, j: int)
    requires
        0 <= j < s.len(),
        s[j].0 == k,
        forall|l: int| 0 <= l < j ==> (#[trigger] s[l]).0 != k,
    ensures
        assoc_find(s, k) == Some(s[j].1),
    decreases s.len(),
{
    if j > 0 {
        lemma_assoc_find_at(s.drop_first(), k, j - 1);
    }
}

/// A scan that finds no match agrees with `assoc_find`.
pub proof fn lemma_assoc_find_none<K, V>(s: Seq<(K, V)>, k: K)
    requires
        forall|l: int| 0 <= l < s.len() ==> (#[trigger] s[l]).0 != k,
    ensures
        assoc_find(s, k) == None::<V>,
    decreases s.len(),
{
    if s.len() > 0 {
        lemma_assoc_find_none(s.drop_first(), k);
    }
}

/// Updating in place at the first match agrees with `assoc_put`.
pub proof fn lemma_assoc_put_at<K, V>(s: Seq<(K, V)>, k: K, v: V, j: int)
    requires
        0 <= j < s.len(),
        s[j].0 == k,
        forall|l: int| 0 <= l < j ==> (#[trigger] s[l]).0 != k,
    ensures
        assoc_put(s, k, v) =~= s.update(j, (k, v)),
    decreases s.len(),
{
    if j > 0 {
        lemma_assoc_put_at(s.drop_first(), k, v, j - 1);
        assert(assoc_put(s, k, v) =~= seq![s[0]] + assoc_put(s.drop_first(), k, v));
        assert(s.drop_first().update(j - 1, (k, v)) =~= s.update(j, (k, v)).drop_first());
    }
}

// ---------------------------------------------------------------------
// State operations
// ---------------------------------------------------------------------

/// Appends a fresh empty scope and makes it current.
pub open spec fn s_push_scope(st: St, parent: Option<int>) -> St {
    St {
        scopes: st.scopes.push(ScopeM { entries: Seq::empty(), parent }),
        cur: st.scopes.len() as int,
        funs: st.funs,
        dmap: st.dmap,
        out: st.out,
    }
}

/// Returns to scope `c` (used to leave a block or a call).
pub open spec fn s_with_cur(st: St, c: int) -> St {
    St { scopes: st.scopes, cur: c, funs: st.funs, dmap: st.dmap, out: st.out }
}

/// Declares `name` in the current scope; `None` on redeclaration.
pub open spec fn s_define(st: St, name: Seq<char>, v: Val) -> Option<St> {
    if 0 <= st.cur < st.scopes.len() {
        let sc = st.scopes[st.cur];
        if assoc_find(sc.entries, name) is Some {
            None
        } else {
            Some(
                St {
                    scopes: st.scopes.update(
                        st.cur,
                        ScopeM { entries: sc.entries.push((name, v)), parent: sc.parent },
                    ),
                    cur: st.cur,
                    funs: st.funs,
                    dmap: st.dmap,
                    out: st.out,
                },
            )
        }
    } else {
        None
    }
}

/// The scope `d` hops up the parent chain from `from`.
pub open spec fn s_ancestor(st: St, from: int, d: nat) -> Option<int>
    decreases d,
{
    if !(0 <= from < st.scopes.len()) {
        None
    } else if d == 0 {
        Some(from)
    } else {
        match st.scopes[from].parent {
            Some(p) => s_ancestor(st, p, (d - 1) as nat),
            None => None,
        }
    }
}

/// An ancestor, when there is one, is a real arena index.
pub proof fn lemma_ancestor_in_range(st: St, from: int, d: nat)
    ensures
        match s_ancestor(st, from, d) {
            Some(i) => 0 <= i < st.scopes.len(),
            None => true,
        },
    decreases d,
{
    if 0 <= from < st.scopes.len() && d > 0 {
        match st.scopes[from].parent {
            Some(p) => lemma_ancestor_in_range(st, p, (d - 1) as nat),
            None => {},
        }
    }
}

/// The value of `name` in the scope exactly `d` hops up from the
/// current one (the resolver's fast path).
pub open spec fn s_lookup_at(st: St, name: Seq<char>, d: nat) -> Option<Val> {
    match s_ancestor(st, st.cur, d) {
        Some(i) => assoc_find(st.scopes[i].entries, name),
        None => None,
    }
}

/// Mutates `name` in the scope exactly `d` hops up; `None` when the
/// chain is too short or the name is absent there.
pub open spec fn s_assign_at(st: St, name: Seq<char>, v: Val, d: nat) -> Option<St> {
    match s_ancestor(st, st.cur, d) {
        Some(i) => if assoc_find(st.scopes[i].entries, name) is Some {
            let sc = st.scopes[i];
            Some(
                St {
                    scopes: st.scopes.update(
                        i,
                        ScopeM { entries: assoc_put(sc.entries, name, v), parent: sc.parent },
                    ),
                    cur: st.cur,
                    funs: st.funs,
                    dmap: st.dmap,
                    out: st.out,
                },
            )
        } else {
            None
        },
        None => None,
    }
}

/// The fixed global/native scope is arena slot 0.
pub open spec fn s_lookup_global(st: St, name: Seq<char>) -> Option<Val> {
    if st.scopes.len() > 0 {
        assoc_find(st.scopes[0].entries, name)
    } else {
        None
    }
}

pub open spec fn s_assign_global(st: St, name: Seq<char>, v: Val) -> Option<St> {
    if st.scopes.len() > 0 && assoc_find(st.scopes[0].entries, name) is Some {
        let sc = st.scopes[0];
        Some(
            St {
                scopes: st.scopes.update(
                    0,
                    ScopeM { entries: assoc_put(sc.entries, name, v), parent: sc.parent },
                ),
                cur: st.cur,
                funs: st.funs,
                dmap: st.dmap,
                out: st.out,
            },
        )
    } else {
        None
    }
}

/// The resolver's distance for occurrence `id`, if it resolved one.
pub open spec fn s_dist(st: St, id: u64) -> Option<usize> {
    assoc_find(st.dmap, id)
}

/// Appends one piece of output.
pub open spec fn s_out(st: St, line: Seq<char>) -> St {
    St { scopes: st.scopes, cur: st.cur, funs: st.funs, dmap: st.dmap, out: st.out.push(line) }
}

// ---------------------------------------------------------------------
// Operators and natives
// ---------------------------------------------------------------------

pub open spec fn in_i64(i: int) -> bool {
    i64::MIN <= i <= i64::MAX
}

pub open spec fn abs_i(a: int) -> int {
    if a < 0 {
        -a
    } else {
        a
    }
}

/// Division truncating toward zero, as the language defines it.
pub open spec fn div_trunc(a: int, b: int) -> int {
    let q = abs_i(a) / abs_i(b);
    if (a < 0) != (b < 0) {
        -q
    } else {
        q
    }
}

/// The result of a unary operator.
pub open spec fn s_unop(op: TokenType, v: Val) -> EvalR {
    match (op, v) {
        (TokenType::Minus, Val::Num(n)) => if in_i64(-n) {
            EvalR::Norm(Val::Num(-n))
        } else {
            EvalR::Fail(Error::NumericOverflow)
        },
        (TokenType::Not, Val::Bool(b)) => EvalR::Norm(Val::Bool(!b)),
        _ => EvalR::Fail(Error::TypeError),
    }
}

/// The result of a binary operator on two evaluated operands.
/// `+ - * /` need two numbers, except `+`, which also concatenates
/// text with text and text with a number; comparisons need two
/// numbers; equality is defined within numbers and within booleans.
pub open spec fn s_binop(op: TokenType, l: Val, r: Val) -> EvalR {
    match (l, op, r) {
        (Val::Num(a), TokenType::Plus, Val::Num(b)) => if in_i64(a + b) {
            EvalR::Norm(Val::Num(a + b))
        } else {
            EvalR::Fail(Error::NumericOverflow)
        },
        (Val::Num(a), TokenType::Minus, Val::Num(b)) => if in_i64(a - b) {
            EvalR::Norm(Val::Num(a - b))
        } else {
            EvalR::Fail(Error::NumericOverflow)
        },
        (Val::Num(a), TokenType::Aster, Val::Num(b)) => if in_i64(a * b) {
            EvalR::Norm(Val::Num(a * b))
        } else {
            EvalR::Fail(Error::NumericOverflow)
        },
        (Val::Num(a), TokenType::Slash, Val::Num(b)) => if b == 0 {
            EvalR::Fail(Error::DivisionByZero)
        } else if in_i64(div_trunc(a, b)) {
            EvalR::Norm(Val::Num(div_trunc(a, b)))
        } else {
            EvalR::Fail(Error::NumericOverflow)
        },
        (Val::Text(x), TokenType::Plus, Val::Text(y)) => EvalR::Norm(Val::Text(x + y)),
        (Val::Text(x), TokenType::Plus, Val::Num(b)) => EvalR::Norm(Val::Text(x + dec_int(b))),
        (Val::Bool(a), TokenType::Equality, Val::Bool(b)) => EvalR::Norm(Val::Bool(a == b)),
        (Val::Bool(a), TokenType::NotEqual, Val::Bool(b)) => EvalR::Norm(Val::Bool(a != b)),
        (Val::Num(a), TokenType::Equality, Val::Num(b)) => EvalR::Norm(Val::Bool(a == b)),
        (Val::Num(a), TokenType::NotEqual, Val::Num(b)) => EvalR::Norm(Val::Bool(a != b)),
        (Val::Num(a), TokenType::Less, Val::Num(b)) => EvalR::Norm(Val::Bool(a < b)),
        (Val::Num(a), TokenType::LessEqual, Val::Num(b)) => EvalR::Norm(Val::Bool(a <= b)),
        (Val::Num(a), TokenType::Greater, Val::Num(b)) => EvalR::Norm(Val::Bool(a > b)),
        (Val::Num(a), TokenType::GreaterEqual, Val::Num(b)) => EvalR::Norm(Val::Bool(a >= b)),
        _ => EvalR::Fail(Error::TypeError),
    }
}

/// How many arguments each native takes.
pub open spec fn native_arity(k: NativeKind) -> int {
    match k {
        NativeKind::Pow => 2,
        NativeKind::Min => 2,
        NativeKind::Max => 2,
        NativeKind::Abs => 1,
        NativeKind::Print => 1,
        NativeKind::Println => 1,
    }
}

pub open spec fn native_name(k: NativeKind) -> Seq<char> {
    match k {
        NativeKind::Pow => seq!['p', 'o', 'w'],
        NativeKind::Min => seq!['m', 'i', 'n'],
        NativeKind::Max => seq!['m', 'a', 'x'],
        NativeKind::Abs => seq!['a', 'b', 's'],
        NativeKind::Print => seq!['p', 'r', 'i', 'n', 't'],
        NativeKind::Println => seq!['p', 'r', 'i', 'n', 't', 'l', 'n'],
    }
}

/// `base` to the `e`-th power, multiplying step by step and failing as
/// soon as a step leaves the 64-bit range.
pub open spec fn pow_checked(b: int, e: nat) -> Option<int>
    decreases e,
{
    if e == 0 {
        Some(1)
    } else {
        match pow_checked(b, (e - 1) as nat) {
            Some(p) => if in_i64(p * b) {
                Some(p * b)
            } else {
                None
            },
            None => None,
        }
    }
}

/// The display text of a value: numbers in decimal, strings as they
/// are, booleans as `true`/`false`, `Nil` as "Nil", functions as their
/// table index, natives as their name.
pub open spec fn val_text(v: Val) -> Seq<char> {
    match v {
        Val::Num(i) => dec_int(i),
        Val::Text(s) => s,
        Val::Bool(b) => if b {
            seq!['t', 'r', 'u', 'e']
        } else {
            seq!['f', 'a', 'l', 's', 'e']
        },
        Val::Nil => seq!['N', 'i', 'l'],
        Val::Fun(id) => dec_int(id),
        Val::Native(k) => native_name(k),
    }
}

/// The effect of a native call on correctly many arguments.
pub open spec fn s_native(k: NativeKind, args: Seq<Val>, st: St) -> (St, EvalR) {
    match k {
        NativeKind::Pow => match (args[0], args[1]) {
            (Val::Num(a), Val::Num(b)) => if b < 0 {
                (st, EvalR::Fail(Error::NativeArgumentError))
            } else {
                match pow_checked(a, b as nat) {
                    Some(p) => (st, EvalR::Norm(Val::Num(p))),
                    None => (st, EvalR::Fail(Error::NumericOverflow)),
                }
            },
            _ => (st, EvalR::Fail(Error::NativeArgumentError)),
        },
        NativeKind::Min => match (args[0], args[1]) {
            (Val::Num(a), Val::Num(b)) => (
                st,
                EvalR::Norm(Val::Num(if a <= b {
                    a
                } else {
                    b
                })),
            ),
            _ => (st, EvalR::Fail(Error::NativeArgumentError)),
        },
        NativeKind::Max => match (args[0], args[1]) {
            (Val::Num(a), Val::Num(b)) => (
                st,
                EvalR::Norm(Val::Num(if a >= b {
                    a
                } else {
                    b
                })),
            ),
            _ => (st, EvalR::Fail(Error::NativeArgumentError)),
        },
        NativeKind::Abs => match args[0] {
            Val::Num(a) => if in_i64(abs_i(a)) {
                (st, EvalR::Norm(Val::Num(abs_i(a))))
            } else {
                (st, EvalR::Fail(Error::NumericOverflow))
            },
            _ => (st, EvalR::Fail(Error::NativeArgumentError)),
        },
        NativeKind::Print => (s_out(st, val_text(args[0])), EvalR::Norm(Val::Nil)),
        NativeKind::Println => (
            s_out(st, val_text(args[0]).push('\n')),
            EvalR::Norm(Val::Nil),
        ),
    }
}

// ---------------------------------------------------------------------
// Evaluation
// ---------------------------------------------------------------------

/// Declares each parameter, left to right, in the current scope.
/// `false` when a name repeats (the partial state is kept).
pub open spec fn s_bind_params(st: St, names: Seq<Seq<char>>, vals: Seq<Val>, i: int) -> (St, bool)
    decreases names.len() - i,
{
    if i < 0 || i >= names.len() || names.len() != vals.len() {
        (st, true)
    } else {
        match s_define(st, names[i], vals[i]) {
            Some(st1) => s_bind_params(st1, names, vals, i + 1),
            None => (st, false),
        }
    }
}

/// Evaluates one expression. Every recursive step burns one unit of
/// fuel; exhausted fuel is the `StackExhausted` failure.
pub open spec fn s_eval_expr(e: ExprM, st: St, fuel: nat) -> (St, EvalR)
    decreases fuel,
{
    if fuel == 0 {
        (st, EvalR::Fail(Error::StackExhausted))
    } else {
        let f = (fuel - 1) as nat;
        match e {
            ExprM::Lit(v) => (st, EvalR::Norm(v)),
            ExprM::Grouping(g) => s_eval_expr(*g, st, f),
            ExprM::Brk => (st, EvalR::Brk),
            ExprM::Cont => (st, EvalR::Cont),
            ExprM::Unary(op, ex) => {
                let (st1, r) = s_eval_expr(*ex, st, f);
                match r {
                    EvalR::Norm(v) => (st1, s_unop(op, v)),
                    _ => (st1, r),
                }
            },
            ExprM::Binary(l, op, r) => {
                let (st1, lr) = s_eval_expr(*l, st, f);
                match lr {
                    EvalR::Norm(lv) => {
                        let (st2, rr) = s_eval_expr(*r, st1, f);
                        match rr {
                            EvalR::Norm(rv) => (st2, s_binop(op, lv, rv)),
                            _ => (st2, rr),
                        }
                    },
                    _ => (st1, lr),
                }
            },
            ExprM::Ternary(c, a, b) => {
                let (st1, cr) = s_eval_expr(*c, st, f);
                match cr {
                    EvalR::Norm(Val::Bool(true)) => s_eval_expr(*a, st1, f),
                    EvalR::Norm(Val::Bool(false)) => s_eval_expr(*b, st1, f),
                    EvalR::Norm(_) => (st1, EvalR::Fail(Error::TypeError)),
                    _ => (st1, cr),
                }
            },
            ExprM::Logical(l, op, r) => {
                if op == TokenType::And {
                    let (st1, lr) = s_eval_expr(*l, st, f);
                    match lr {
                        EvalR::Norm(Val::Bool(false)) => (st1, EvalR::Norm(Val::Bool(false))),
                        EvalR::Norm(Val::Bool(true)) => {
                            let (st2, rr) = s_eval_expr(*r, st1, f);
                            match rr {
                                EvalR::Norm(Val::Bool(b)) => (st2, EvalR::Norm(Val::Bool(b))),
                                EvalR::Norm(_) => (st2, EvalR::Fail(Error::TypeError)),
                                _ => (st2, rr),
                            }
                        },
                        EvalR::Norm(_) => (st1, EvalR::Fail(Error::TypeError)),
                        _ => (st1, lr),
                    }
                } else if op == TokenType::Or {
                    let (st1, lr) = s_eval_expr(*l, st, f);
                    match lr {
                        EvalR::Norm(Val::Bool(true)) => (st1, EvalR::Norm(Val::Bool(true))),
                        EvalR::Norm(Val::Bool(false)) => {
                            let (st2, rr) = s_eval_expr(*r, st1, f);
                            match rr {
                                EvalR::Norm(Val::Bool(b)) => (st2, EvalR::Norm(Val::Bool(b))),
                                EvalR::Norm(_) => (st2, EvalR::Fail(Error::TypeError)),
                                _ => (st2, rr),
                            }
                        },
                        EvalR::Norm(_) => (st1, EvalR::Fail(Error::TypeError)),
                        _ => (st1, lr),
                    }
                } else {
                    (st, EvalR::Fail(Error::TypeError))
                }
            },
            ExprM::Var(name, id) => {
                match s_dist(st, id) {
                    Some(d) => match s_lookup_at(st, name, d as nat) {
                        Some(v) => (st, EvalR::Norm(v)),
                        None => (st, EvalR::Fail(Error::UnboundVariable)),
                    },
                    None => match s_lookup_global(st, name) {
                        Some(v) => (st, EvalR::Norm(v)),
                        None => (st, EvalR::Fail(Error::UnboundVariable)),
                    },
                }
            },
            ExprM::Call(callee, args) => {
                let (st1, cr) = s_eval_expr(*callee, st, f);
                match cr {
                    EvalR::Norm(cv) => {
                        let (st2, ar) = s_eval_args(args, 0, Seq::empty(), st1, f);
                        match ar {
                            Ok(vals) => s_call_value(cv, vals, st2, f),
                            Err(stop) => (st2, stop),
                        }
                    },
                    _ => (st1, cr),
                }
            },
            ExprM::Block(stmts) => {
                let st1 = s_push_scope(st, Some(st.cur));
                let (st2, r) = s_eval_seq(stmts, 0, Val::Nil, st1, f);
                (s_with_cur(st2, st.cur), r)
            },
            ExprM::If(c, t, els) => {
                let (st1, cr) = s_eval_expr(*c, st, f);
                match cr {
                    EvalR::Norm(Val::Bool(true)) => s_eval_expr(*t, st1, f),
                    EvalR::Norm(Val::Bool(false)) => match els {
                        Some(ee) => s_eval_expr(*ee, st1, f),
                        None => (st1, EvalR::Norm(Val::Nil)),
                    },
                    EvalR::Norm(_) => (st1, EvalR::Fail(Error::TypeError)),
                    _ => (st1, cr),
                }
            },
            ExprM::While(c, b) => s_eval_while(*c, *b, st, f),
            ExprM::Loop(b) => s_eval_loop(*b, st, f),
        }
    }
}

/// Evaluates one statement. Declarations and assignments yield `Nil`;
/// an expression statement yields its value; `return` yields a
/// `Ret` signal.
pub open spec fn s_eval_stmt(s: StmtM, st: St, fuel: nat) -> (St, EvalR)
    decreases fuel,
{
    if fuel == 0 {
        (st, EvalR::Fail(Error::StackExhausted))
    } else {
        let f = (fuel - 1) as nat;
        match s {
            StmtM::Expr(e) => s_eval_expr(e, st, f),
            StmtM::Decl(name, init) => match init {
                None => match s_define(st, name, Val::Nil) {
                    Some(st1) => (st1, EvalR::Norm(Val::Nil)),
                    None => (st, EvalR::Fail(Error::DuplicateDefinition)),
                },
                Some(e) => {
                    let (st1, r) = s_eval_expr(e, st, f);
                    match r {
                        EvalR::Norm(v) => match s_define(st1, name, v) {
                            Some(st2) => (st2, EvalR::Norm(Val::Nil)),
                            None => (st1, EvalR::Fail(Error::DuplicateDefinition)),
                        },
                        _ => (st1, r),
                    }
                },
            },
            StmtM::Assign(name, id, e) => {
                let (st1, r) = s_eval_expr(e, st, f);
                match r {
                    EvalR::Norm(v) => match s_dist(st1, id) {
                        Some(d) => match s_assign_at(st1, name, v, d as nat) {
                            Some(st2) => (st2, EvalR::Norm(Val::Nil)),
                            None => (st1, EvalR::Fail(Error::UnboundVariable)),
                        },
                        None => match s_assign_global(st1, name, v) {
                            Some(st2) => (st2, EvalR::Norm(Val::Nil)),
                            None => (st1, EvalR::Fail(Error::UnboundVariable)),
                        },
                    },
                    _ => (st1, r),
                }
            },
            StmtM::FunDecl(name, params, body) => match body {
                ExprM::Block(stmts) => {
                    let fid = st.funs.len() as int;
                    let st1 = St {
                        scopes: st.scopes,
                        cur: st.cur,
                        funs: st.funs.push(FunM { params, body: stmts, cap: st.cur }),
                        dmap: st.dmap,
                        out: st.out,
                    };
                    match s_define(st1, name, Val::Fun(fid)) {
                        Some(st2) => (st2, EvalR::Norm(Val::Nil)),
                        None => (st1, EvalR::Fail(Error::DuplicateDefinition)),
                    }
                },
                _ => (st, EvalR::Fail(Error::TypeError)),
            },
            StmtM::Ret(e) => {
                let (st1, r) = s_eval_expr(e, st, f);
                match r {
                    EvalR::Norm(v) => (st1, EvalR::Ret(v)),
                    _ => (st1, r),
                }
            },
        }
    }
}

/// Evaluates statements `i..` in order, threading the running "last
/// value". A signal or failure stops the sequence and propagates.
pub open spec fn s_eval_seq(ss: Seq<StmtM>, i: int, last: Val, st: St, fuel: nat) -> (St, EvalR)
    decreases fuel,
{
    if fuel == 0 {
        (st, EvalR::Fail(Error::StackExhausted))
    } else if i < 0 || i >= ss.len() {
        (st, EvalR::Norm(last))
    } else {
        let f = (fuel - 1) as nat;
        let (st1, r) = s_eval_stmt(ss[i], st, f);
        match r {
            EvalR::Norm(v) => s_eval_seq(ss, i + 1, v, st1, f),
            _ => (st1, r),
        }
    }
}

/// Evaluates argument expressions left to right; a signal or failure
/// stops the call before dispatch.
pub open spec fn s_eval_args(es: Seq<ExprM>, i: int, acc: Seq<Val>, st: St, fuel: nat) -> (
    St,
    Result<Seq<Val>, EvalR>,
)
    decreases fuel,
{
    if fuel == 0 {
        (st, Err(EvalR::Fail(Error::StackExhausted)))
    } else if i < 0 || i >= es.len() {
        (st, Ok(acc))
    } else {
        let f = (fuel - 1) as nat;
        let (st1, r) = s_eval_expr(es[i], st, f);
        match r {
            EvalR::Norm(v) => s_eval_args(es, i + 1, acc.push(v), st1, f),
            _ => (st1, Err(r)),
        }
    }
}

/// Calls an already-evaluated callee on already-evaluated arguments.
/// A user function runs its body in a fresh scope whose parent is the
/// captured environment; a `Ret` signal becomes the call's value; the
/// caller's current scope is restored on every path.
pub open spec fn s_call_value(callee: Val, vals: Seq<Val>, st: St, fuel: nat) -> (St, EvalR)
    decreases fuel,
{
    if fuel == 0 {
        (st, EvalR::Fail(Error::StackExhausted))
    } else {
        let f = (fuel - 1) as nat;
        match callee {
            Val::Fun(fid) => if !(0 <= fid < st.funs.len()) {
                (st, EvalR::Fail(Error::TypeError))
            } else {
                let fun = st.funs[fid];
                if vals.len() != fun.params.len() {
                    (st, EvalR::Fail(Error::ArityMismatch))
                } else {
                    let st1 = s_push_scope(st, Some(fun.cap));
                    let (st2, bound) = s_bind_params(st1, fun.params, vals, 0);
                    if bound {
                        let (st3, r) = s_eval_seq(fun.body, 0, Val::Nil, st2, f);
                        let st4 = s_with_cur(st3, st.cur);
                        match r {
                            EvalR::Norm(v) => (st4, EvalR::Norm(v)),
                            EvalR::Ret(v) => (st4, EvalR::Norm(v)),
                            EvalR::Brk => (st4, EvalR::Fail(Error::BreakOutsideLoop)),
                            EvalR::Cont => (st4, EvalR::Fail(Error::ContinueOutsideLoop)),
                            EvalR::Fail(err) => (st4, EvalR::Fail(err)),
                        }
                    } else {
                        (s_with_cur(st2, st.cur), EvalR::Fail(Error::DuplicateDefinition))
                    }
                }
            },
            Val::Native(k) => if vals.len() != native_arity(k) {
                (st, EvalR::Fail(Error::ArityMismatch))
            } else {
                s_native(k, vals, st)
            },
            _ => (st, EvalR::Fail(Error::TypeError)),
        }
    }
}

/// A `while` loop. The condition must be a boolean; a `Brk` signal
/// from the body ends the loop, which yields `Nil`; `Cont` moves to
/// the next condition check; `Ret` and failures propagate.
pub open spec fn s_eval_while(c: ExprM, b: ExprM, st: St, fuel: nat) -> (St, EvalR)
    decreases fuel,
{
    if fuel == 0 {
        (st, EvalR::Fail(Error::StackExhausted))
    } else {
        let f = (fuel - 1) as nat;
        let (st1, cr) = s_eval_expr(c, st, f);
        match cr {
            EvalR::Norm(Val::Bool(false)) => (st1, EvalR::Norm(Val::Nil)),
            EvalR::Norm(Val::Bool(true)) => {
                let (st2, br) = s_eval_expr(b, st1, f);
                match br {
                    EvalR::Brk => (st2, EvalR::Norm(Val::Nil)),
                    EvalR::Norm(_) => s_eval_while(c, b, st2, f),
                    EvalR::Cont => s_eval_while(c, b, st2, f),
                    _ => (st2, br),
                }
            },
            EvalR::Norm(_) => (st1, EvalR::Fail(Error::TypeError)),
            _ => (st1, cr),
        }
    }
}

/// An unconditional `loop`: iterates until the body yields `Brk`.
pub open spec fn s_eval_loop(b: ExprM, st: St, fuel: nat) -> (St, EvalR)
    decreases fuel,
{
    if fuel == 0 {
        (st, EvalR::Fail(Error::StackExhausted))
    } else {
        let f = (fuel - 1) as nat;
        let (st1, br) = s_eval_expr(b, st, f);
        match br {
            EvalR::Brk => (st1, EvalR::Norm(Val::Nil)),
            EvalR::Norm(_) => s_eval_loop(b, st1, f),
            EvalR::Cont => s_eval_loop(b, st1, f),
            _ => (st1, br),
        }
    }
}

/// Runs a whole program: its statements in order, in the current
/// scope. Control-flow signals may not escape the program: one that
/// does is the error the resolver would have reported.
pub open spec fn s_run(ss: Seq<StmtM>, st: St, fuel: nat) -> (St, Result<(), Error>) {
    let (st1, r) = s_eval_seq(ss, 0, Val::Nil, st, fuel);
    (
        st1,
        match r {
            EvalR::Norm(_) => Ok(()),
            EvalR::Brk => Err(Error::BreakOutsideLoop),
            EvalR::Cont => Err(Error::ContinueOutsideLoop),
            EvalR::Ret(_) => Err(Error::ReturnOutsideFunction),
            EvalR::Fail(e) => Err(e),
        },
    )
}

// ---------------------------------------------------------------------
// Evaluation never removes scopes
// ---------------------------------------------------------------------

pub proof fn lemma_bind_params_grows(st: St, names: Seq<Seq<char>>, vals: Seq<Val>, i: int)
    ensures
        st.scopes.len() <= s_bind_params(st, names, vals, i).0.scopes.len(),
        s_bind_params(st, names, vals, i).0.cur == st.cur,
    decreases names.len() - i,
{
    if !(i < 0 || i >= names.len() || names.len() != vals.len()) {
        match s_define(st, names[i], vals[i]) {
            Some(st1) => lemma_bind_params_grows(st1, names, vals, i + 1),
            None => {},
        }
    }
}

pub proof fn lemma_expr_grows(e: ExprM, st: St, fuel: nat)
    ensures
        st.scopes.len() <= s_eval_expr(e, st, fuel).0.scopes.len(),
    decreases fuel,
{
    if fuel > 0 {
        let f = (fuel - 1) as nat;
        match e {
            ExprM::Lit(_) => {},
            ExprM::Grouping(g) => lemma_expr_grows(*g, st, f),
            ExprM::Brk => {},
            ExprM::Cont => {},
            ExprM::Unary(_, ex) => lemma_expr_grows(*ex, st, f),
            ExprM::Binary(l, _, r) => {
                lemma_expr_grows(*l, st, f);
                lemma_expr_grows(*r, s_eval_expr(*l, st, f).0, f);
            },
            ExprM::Ternary(c, a, b) => {
                lemma_expr_grows(*c, st, f);
                lemma_expr_grows(*a, s_eval_expr(*c, st, f).0, f);
                lemma_expr_grows(*b, s_eval_expr(*c, st, f).0, f);
            },
            ExprM::Logical(l, _, r) => {
                lemma_expr_grows(*l, st, f);
                lemma_expr_grows(*r, s_eval_expr(*l, st, f).0, f);
            },
            ExprM::Var(_, _) => {},
            ExprM::Call(callee, args) => {
                lemma_expr_grows(*callee, st, f);
                let st1 = s_eval_expr(*callee, st, f).0;
                lemma_args_grows(args, 0, Seq::empty(), st1, f);
                let (st2, ar) = s_eval_args(args, 0, Seq::empty(), st1, f);
                match ar {
                    Ok(vals) => match s_eval_expr(*callee, st, f).1 {
                        EvalR::Norm(cv) => lemma_call_grows(cv, vals, st2, f),
                        _ => {},
                    },
                    Err(_) => {},
                }
            },
            ExprM::Block(stmts) => {
                lemma_seq_grows(stmts, 0, Val::Nil, s_push_scope(st, Some(st.cur)), f);
            },
            ExprM::If(c, t, els) => {
                lemma_expr_grows(*c, st, f);
                let st1 = s_eval_expr(*c, st, f).0;
                lemma_expr_grows(*t, st1, f);
                match els {
                    Some(ee) => lemma_expr_grows(*ee, st1, f),
                    None => {},
                }
            },
            ExprM::While(c, b) => lemma_while_grows(*c, *b, st, f),
            ExprM::Loop(b) => lemma_loop_grows(*b, st, f),
        }
    }
}

pub proof fn lemma_stmt_grows(s: StmtM, st: St, fuel: nat)
    ensures
        st.scopes.len() <= s_eval_stmt(s, st, fuel).0.scopes.len(),
    decreases fuel,
{
    if fuel > 0 {
        let f = (fuel - 1) as nat;
        match s {
            StmtM::Expr(e) => {
                lemma_expr_grows(e, st, f);
                assert(st.scopes.len() <= s_eval_stmt(s, st, fuel).0.scopes.len());
            },
            StmtM::Decl(_, init) => {
                match init {
                    None => {},
                    Some(e) => lemma_expr_grows(e, st, f),
                }
                assert(st.scopes.len() <= s_eval_stmt(s, st, fuel).0.scopes.len());
            },
            StmtM::Assign(_, _, e) => {
                lemma_expr_grows(e, st, f);
                let st1 = s_eval_expr(e, st, f).0;
                match s_dist(st1, s->Assign_1) {
                    Some(d) => lemma_ancestor_in_range(st1, st1.cur, d as nat),
                    None => {},
                }
                assert(st.scopes.len() <= s_eval_stmt(s, st, fuel).0.scopes.len());
            },
            StmtM::FunDecl(_, _, _) => {
                assert(st.scopes.len() <= s_eval_stmt(s, st, fuel).0.scopes.len());
            },
            StmtM::Ret(e) => {
                lemma_expr_grows(e, st, f);
                assert(st.scopes.len() <= s_eval_stmt(s, st, fuel).0.scopes.len());
            },
        }
    }
}

pub proof fn lemma_seq_grows(ss: Seq<StmtM>, i: int, last: Val, st: St, fuel: nat)
    ensures
        st.scopes.len() <= s_eval_seq(ss, i, last, st, fuel).0.scopes.len(),
    decreases fuel,
{
    if fuel > 0 && 0 <= i < ss.len() {
        let f = (fuel - 1) as nat;
        lemma_stmt_grows(ss[i], st, f);
        let (st1, r) = s_eval_stmt(ss[i], st, f);
        match r {
            EvalR::Norm(v) => lemma_seq_grows(ss, i + 1, v, st1, f),
            _ => {},
        }
    }
}

pub proof fn lemma_args_grows(es: Seq<ExprM>, i: int, acc: Seq<Val>, st: St, fuel: nat)
    ensures
        st.scopes.len() <= s_eval_args(es, i, acc, st, fuel).0.scopes.len(),
    decreases fuel,
{
    if fuel > 0 && 0 <= i < es.len() {
        let f = (fuel - 1) as nat;
        lemma_expr_grows(es[i], st, f);
        let (st1, r) = s_eval_expr(es[i], st, f);
        match r {
            EvalR::Norm(v) => lemma_args_grows(es, i + 1, acc.push(v), st1, f),
            _ => {},
        }
    }
}

pub proof fn lemma_call_grows(callee: Val, vals: Seq<Val>, st: St, fuel: nat)
    ensures
        st.scopes.len() <= s_call_value(callee, vals, st, fuel).0.scopes.len(),
    decreases fuel,
{
    if fuel > 0 {
        let f = (fuel - 1) as nat;
        match callee {
            Val::Fun(fid) => if 0 <= fid < st.funs.len() {
                let fun = st.funs[fid];
                if vals.len() == fun.params.len() {
                    let st1 = s_push_scope(st, Some(fun.cap));
                    lemma_bind_params_grows(st1, fun.params, vals, 0);
                    let (st2, bound) = s_bind_params(st1, fun.params, vals, 0);
                    if bound {
                        lemma_seq_grows(fun.body, 0, Val::Nil, st2, f);
                    }
                }
            },
            _ => {},
        }
    }
}

pub proof fn lemma_while_grows(c: ExprM, b: ExprM, st: St, fuel: nat)
    ensures
        st.scopes.len() <= s_eval_while(c, b, st, fuel).0.scopes.len(),
    decreases fuel,
{
    if fuel > 0 {
        let f = (fuel - 1) as nat;
        lemma_expr_grows(c, st, f);
        let (st1, cr) = s_eval_expr(c, st, f);
        match cr {
            EvalR::Norm(Val::Bool(true)) => {
                lemma_expr_grows(b, st1, f);
                let (st2, br) = s_eval_expr(b, st1, f);
                match br {
                    EvalR::Norm(_) => lemma_while_grows(c, b, st2, f),
                    EvalR::Cont => lemma_while_grows(c, b, st2, f),
                    _ => {},
                }
            },
            _ => {},
        }
    }
}

pub proof fn lemma_loop_grows(b: ExprM, st: St, fuel: nat)
    ensures
        st.scopes.len() <= s_eval_loop(b, st, fuel).0.scopes.len(),
    decreases fuel,
{
    if fuel > 0 {
        let f = (fuel - 1) as nat;
        lemma_expr_grows(b, st, f);
        let (st1, br) = s_eval_expr(b, st, f);
        match br {
            EvalR::Norm(_) => lemma_loop_grows(b, st1, f),
            EvalR::Cont => lemma_loop_grows(b, st1, f),
            _ => {},
        }
    }
}

// ---------------------------------------------------------------------
// Evaluation never adds or removes names in enclosing scopes
// ---------------------------------------------------------------------

/// Two scopes bind the same names, in the same order. Assignments
/// keep this relation; only declarations extend a scope.
pub open spec fn same_names(a: Seq<(Seq<char>, Val)>, b: Seq<(Seq<char>, Val)>) -> bool {
    a.len() == b.len() && forall|j: int| 0 <= j < a.len() ==> (#[trigger] a[j]).0 == b[j].0
}

/// Every scope of `st1` but the `c`-th binds the same names in `st2`.
pub open spec fn doms_preserved_except(st1: St, st2: St, c: int) -> bool {
    forall|i: int|
        0 <= i < st1.scopes.len() && i != c ==> #[trigger] same_names(
            st2.scopes[i].entries,
            st1.scopes[i].entries,
        )
}

/// Replacing a value keeps the key sequence.
pub proof fn lemma_assoc_put_keys(s: Seq<(Seq<char>, Val)>, k: Seq<char>, v: Val)
    ensures
        same_names(assoc_put(s, k, v), s),
    decreases s.len(),
{
    if s.len() > 0 && s[0].0 != k {
        lemma_assoc_put_keys(s.drop_first(), k, v);
        assert(assoc_put(s, k, v) =~= seq![s[0]] + assoc_put(s.drop_first(), k, v));
        assert forall|j: int| 0 <= j < s.len() implies (#[trigger] assoc_put(s, k, v)[j]).0
            == s[j].0 by {
            if j > 0 {
                assert(assoc_put(s.drop_first(), k, v)[j - 1].0 == s.drop_first()[j - 1].0);
            }
        }
    }
}

/// Preservation composes along an evaluation chain.
pub proof fn lemma_doms_trans(st1: St, st2: St, st3: St, c: int)
    requires
        st1.scopes.len() <= st2.scopes.len(),
        doms_preserved_except(st1, st2, c),
        doms_preserved_except(st2, st3, c),
    ensures
        doms_preserved_except(st1, st3, c),
{
    assert forall|i: int| 0 <= i < st1.scopes.len() && i != c implies #[trigger] same_names(
        st3.scopes[i].entries,
        st1.scopes[i].entries,
    ) by {
        assert(same_names(st2.scopes[i].entries, st1.scopes[i].entries));
        assert(same_names(st3.scopes[i].entries, st2.scopes[i].entries));
    }
}

pub proof fn lemma_bind_params_doms(st: St, names: Seq<Seq<char>>, vals: Seq<Val>, i: int)
    ensures
        doms_preserved_except(st, s_bind_params(st, names, vals, i).0, st.cur),
    decreases names.len() - i,
{
    if !(i < 0 || i >= names.len() || names.len() != vals.len()) {
        match s_define(st, names[i], vals[i]) {
            Some(st1) => {
                lemma_bind_params_doms(st1, names, vals, i + 1);
                lemma_bind_params_grows(st1, names, vals, i + 1);
                lemma_doms_trans(st, st1, s_bind_params(st1, names, vals, i + 1).0, st.cur);
            },
            None => {},
        }
    }
}

pub proof fn lemma_expr_doms(e: ExprM, st: St, fuel: nat)
    ensures
        s_eval_expr(e, st, fuel).0.cur == st.cur,
        doms_preserved_except(st, s_eval_expr(e, st, fuel).0, st.cur),
    decreases fuel,
{
    if fuel > 0 {
        let f = (fuel - 1) as nat;
        match e {
            ExprM::Lit(_) => {},
            ExprM::Grouping(g) => lemma_expr_doms(*g, st, f),
            ExprM::Brk => {},
            ExprM::Cont => {},
            ExprM::Unary(_, ex) => lemma_expr_doms(*ex, st, f),
            ExprM::Binary(l, _, r) => {
                lemma_expr_doms(*l, st, f);
                lemma_expr_grows(*l, st, f);
                let st1 = s_eval_expr(*l, st, f).0;
                lemma_expr_doms(*r, st1, f);
                lemma_doms_trans(st, st1, s_eval_expr(*r, st1, f).0, st.cur);
            },
            ExprM::Ternary(c, a, b) => {
                lemma_expr_doms(*c, st, f);
                lemma_expr_grows(*c, st, f);
                let st1 = s_eval_expr(*c, st, f).0;
                lemma_expr_doms(*a, st1, f);
                lemma_doms_trans(st, st1, s_eval_expr(*a, st1, f).0, st.cur);
                lemma_expr_doms(*b, st1, f);
                lemma_doms_trans(st, st1, s_eval_expr(*b, st1, f).0, st.cur);
            },
            ExprM::Logical(l, _, r) => {
                lemma_expr_doms(*l, st, f);
                lemma_expr_grows(*l, st, f);
                let st1 = s_eval_expr(*l, st, f).0;
                lemma_expr_doms(*r, st1, f);
                lemma_doms_trans(st, st1, s_eval_expr(*r, st1, f).0, st.cur);
            },
            ExprM::Var(_, _) => {},
            ExprM::Call(callee, args) => {
                lemma_expr_doms(*callee, st, f);
                lemma_expr_grows(*callee, st, f);
                let st1 = s_eval_expr(*callee, st, f).0;
                lemma_args_doms(args, 0, Seq::empty(), st1, f);
                lemma_args_grows(args, 0, Seq::empty(), st1, f);
                let (st2, ar) = s_eval_args(args, 0, Seq::empty(), st1, f);
                lemma_doms_trans(st, st1, st2, st.cur);
                match ar {
                    Ok(vals) => match s_eval_expr(*callee, st, f).1 {
                        EvalR::Norm(cv) => {
                            lemma_call_doms(cv, vals, st2, f);
                            lemma_doms_trans(st, st2, s_call_value(cv, vals, st2, f).0, st.cur);
                        },
                        _ => {},
                    },
                    Err(_) => {},
                }
            },
            ExprM::Block(stmts) => {
                let st1 = s_push_scope(st, Some(st.cur));
                lemma_seq_doms(stmts, 0, Val::Nil, st1, f);
                lemma_seq_grows(stmts, 0, Val::Nil, st1, f);
                let st2 = s_eval_seq(stmts, 0, Val::Nil, st1, f).0;
                assert forall|i: int|
                    0 <= i < st.scopes.len() && i != st.cur implies #[trigger] same_names(
                    s_eval_expr(e, st, fuel).0.scopes[i].entries,
                    st.scopes[i].entries,
                ) by {
                    assert(same_names(st2.scopes[i].entries, st1.scopes[i].entries));
                    assert(st1.scopes[i] == st.scopes[i]);
                }
            },
            ExprM::If(c, t, els) => {
                lemma_expr_doms(*c, st, f);
                lemma_expr_grows(*c, st, f);
                let st1 = s_eval_expr(*c, st, f).0;
                lemma_expr_doms(*t, st1, f);
                lemma_doms_trans(st, st1, s_eval_expr(*t, st1, f).0, st.cur);
                match els {
                    Some(ee) => {
                        lemma_expr_doms(*ee, st1, f);
                        lemma_doms_trans(st, st1, s_eval_expr(*ee, st1, f).0, st.cur);
                    },
                    None => {},
                }
            },
            ExprM::While(c, b) => lemma_while_doms(*c, *b, st, f),
            ExprM::Loop(b) => lemma_loop_doms(*b, st, f),
        }
    }
}

pub proof fn lemma_stmt_doms(s: StmtM, st: St, fuel: nat)
    ensures
        s_eval_stmt(s, st, fuel).0.cur == st.cur,
        doms_preserved_except(st, s_eval_stmt(s, st, fuel).0, st.cur),
    decreases fuel,
{
    if fuel > 0 {
        let f = (fuel - 1) as nat;
        match s {
            StmtM::Expr(e) => lemma_expr_doms(e, st, f),
            StmtM::Decl(_, init) => {
                match init {
                    None => {},
                    Some(e) => {
                        lemma_expr_doms(e, st, f);
                        lemma_expr_grows(e, st, f);
                        let st1 = s_eval_expr(e, st, f).0;
                        assert(doms_preserved_except(st1, s_eval_stmt(s, st, fuel).0, st.cur));
                        lemma_doms_trans(st, st1, s_eval_stmt(s, st, fuel).0, st.cur);
                    },
                }
            },
            StmtM::Assign(name, id, e) => {
                lemma_expr_doms(e, st, f);
                lemma_expr_grows(e, st, f);
                let (st1, r) = s_eval_expr(e, st, f);
                match r {
                    EvalR::Norm(v) => {
                        match s_dist(st1, id) {
                            Some(d) => {
                                lemma_ancestor_in_range(st1, st1.cur, d as nat);
                                match s_assign_at(st1, name, v, d as nat) {
                                    Some(st2) => {
                                        let anc = s_ancestor(st1, st1.cur, d as nat)->Some_0;
                                        lemma_assoc_put_keys(st1.scopes[anc].entries, name, v);
                                        assert(doms_preserved_except(st1, st2, st1.cur));
                                        lemma_doms_trans(st, st1, st2, st.cur);
                                    },
                                    None => {},
                                }
                            },
                            None => {
                                match s_assign_global(st1, name, v) {
                                    Some(st2) => {
                                        lemma_assoc_put_keys(st1.scopes[0].entries, name, v);
                                        assert(doms_preserved_except(st1, st2, st1.cur));
                                        lemma_doms_trans(st, st1, st2, st.cur);
                                    },
                                    None => {},
                                }
                            },
                        }
                    },
                    _ => {},
                }
            },
            StmtM::FunDecl(_, _, _) => {},
            StmtM::Ret(e) => lemma_expr_doms(e, st, f),
        }
    }
}

pub proof fn lemma_seq_doms(ss: Seq<StmtM>, i: int, last: Val, st: St, fuel: nat)
    ensures
        s_eval_seq(ss, i, last, st, fuel).0.cur == st.cur,
        doms_preserved_except(st, s_eval_seq(ss, i, last, st, fuel).0, st.cur),
    decreases fuel,
{
    if fuel > 0 && 0 <= i < ss.len() {
        let f = (fuel - 1) as nat;
        lemma_stmt_doms(ss[i], st, f);
        lemma_stmt_grows(ss[i], st, f);
        let (st1, r) = s_eval_stmt(ss[i], st, f);
        match r {
            EvalR::Norm(v) => {
                lemma_seq_doms(ss, i + 1, v, st1, f);
                lemma_doms_trans(st, st1, s_eval_seq(ss, i + 1, v, st1, f).0, st.cur);
            },
            _ => {},
        }
    }
}

pub proof fn lemma_args_doms(es: Seq<ExprM>, i: int, acc: Seq<Val>, st: St, fuel: nat)
    ensures
        s_eval_args(es, i, acc, st, fuel).0.cur == st.cur,
        doms_preserved_except(st, s_eval_args(es, i, acc, st, fuel).0, st.cur),
    decreases fuel,
{
    if fuel > 0 && 0 <= i < es.len() {
        let f = (fuel - 1) as nat;
        lemma_expr_doms(es[i], st, f);
        lemma_expr_grows(es[i], st, f);
        let (st1, r) = s_eval_expr(es[i], st, f);
        match r {
            EvalR::Norm(v) => {
                lemma_args_doms(es, i + 1, acc.push(v), st1, f);
                lemma_doms_trans(st, st1, s_eval_args(es, i + 1, acc.push(v), st1, f).0, st.cur);
            },
            _ => {},
        }
    }
}

pub proof fn lemma_call_doms(callee: Val, vals: Seq<Val>, st: St, fuel: nat)
    ensures
        s_call_value(callee, vals, st, fuel).0.cur == st.cur,
        doms_preserved_except(st, s_call_value(callee, vals, st, fuel).0, st.cur),
    decreases fuel,
{
    if fuel > 0 {
        let f = (fuel - 1) as nat;
        match callee {
            Val::Fun(fid) => if 0 <= fid < st.funs.len() {
                let fun = st.funs[fid];
                if vals.len() == fun.params.len() {
                    let st1 = s_push_scope(st, Some(fun.cap));
                    let fresh = st.scopes.len() as int;
                    lemma_bind_params_doms(st1, fun.params, vals, 0);
                    lemma_bind_params_grows(st1, fun.params, vals, 0);
                    let (st2, bound) = s_bind_params(st1, fun.params, vals, 0);
                    if bound {
                        lemma_seq_doms(fun.body, 0, Val::Nil, st2, f);
                        lemma_seq_grows(fun.body, 0, Val::Nil, st2, f);
                        let st3 = s_eval_seq(fun.body, 0, Val::Nil, st2, f).0;
                        assert forall|i: int|
                            0 <= i < st.scopes.len() && i != st.cur implies #[trigger] same_names(
                            s_call_value(callee, vals, st, fuel).0.scopes[i].entries,
                            st.scopes[i].entries,
                        ) by {
                            assert(same_names(st2.scopes[i].entries, st1.scopes[i].entries));
                            assert(same_names(st3.scopes[i].entries, st2.scopes[i].entries));
                            assert(st1.scopes[i] == st.scopes[i]);
                        }
                    } else {
                        assert forall|i: int|
                            0 <= i < st.scopes.len() && i != st.cur implies #[trigger] same_names(
                            s_call_value(callee, vals, st, fuel).0.scopes[i].entries,
                            st.scopes[i].entries,
                        ) by {
                            assert(same_names(st2.scopes[i].entries, st1.scopes[i].entries));
                            assert(st1.scopes[i] == st.scopes[i]);
                        }
                    }
                }
            },
            _ => {},
        }
    }
}

pub proof fn lemma_while_doms(c: ExprM, b: ExprM, st: St, fuel: nat)
    ensures
        s_eval_while(c, b, st, fuel).0.cur == st.cur,
        doms_preserved_except(st, s_eval_while(c, b, st, fuel).0, st.cur),
    decreases fuel,
{
    if fuel > 0 {
        let f = (fuel - 1) as nat;
        lemma_expr_doms(c, st, f);
        lemma_expr_grows(c, st, f);
        let (st1, cr) = s_eval_expr(c, st, f);
        match cr {
            EvalR::Norm(Val::Bool(true)) => {
                lemma_expr_doms(b, st1, f);
                lemma_expr_grows(b, st1, f);
                let (st2, br) = s_eval_expr(b, st1, f);
                lemma_doms_trans(st, st1, st2, st.cur);
                match br {
                    EvalR::Norm(_) => {
                        lemma_while_grows(c, b, st2, f);
                        lemma_while_doms(c, b, st2, f);
                        lemma_doms_trans(st, st2, s_eval_while(c, b, st2, f).0, st.cur);
                    },
                    EvalR::Cont => {
                        lemma_while_grows(c, b, st2, f);
                        lemma_while_doms(c, b, st2, f);
                        lemma_doms_trans(st, st2, s_eval_while(c, b, st2, f).0, st.cur);
                    },
                    _ => {},
                }
            },
            _ => {},
        }
    }
}

pub proof fn lemma_loop_doms(b: ExprM, st: St, fuel: nat)
    ensures
        s_eval_loop(b, st, fuel).0.cur == st.cur,
        doms_preserved_except(st, s_eval_loop(b, st, fuel).0, st.cur),
    decreases fuel,
{
    if fuel > 0 {
        let f = (fuel - 1) as nat;
        lemma_expr_doms(b, st, f);
        lemma_expr_grows(b, st, f);
        let (st1, br) = s_eval_expr(b, st, f);
        match br {
            EvalR::Norm(_) => {
                lemma_loop_doms(b, st1, f);
                lemma_doms_trans(st, st1, s_eval_loop(b, st1, f).0, st.cur);
            },
            EvalR::Cont => {
                lemma_loop_doms(b, st1, f);
                lemma_doms_trans(st, st1, s_eval_loop(b, st1, f).0, st.cur);
            },
            _ => {},
        }
    }
}

} // verus!

//! The tree-walking evaluator. Its behaviour is specified by the
//! big-step semantics in `semantics`: every public evaluation method
//! returns exactly what `s_eval_expr` / `s_eval_stmt` / `s_run` say,
//! and leaves the state exactly where they say, for every input and
//! every fuel budget.

use vstd::prelude::*;
use crate::astdup::{clone_stmts, clone_symbols};
use crate::expression::{Expression, Symbol};
use crate::function::Function;
use crate::numfmt::{dec_i64, dec_u64};
use crate::resolver::DistanceMap;
use crate::scope::Scope;
use crate::semantics::{
    assoc_put, div_trunc, expr_view, exprs_view_from, lemma_assoc_put_at, lemma_exprs_view_index,
    lemma_seq_grows, lemma_stmts_view_index, lit_val, native_arity, native_name, params_view,
    pow_checked, s_ancestor, s_assign_at, s_assign_global, s_bind_params, s_call_value, s_define,
    s_dist, s_eval_args, s_eval_expr, s_eval_loop, s_eval_seq, s_eval_stmt, s_eval_while,
    s_lookup_at, s_lookup_global, s_native, s_out, s_push_scope, s_run, s_unop, s_binop,
    s_with_cur, st_wf, stmt_view, stmts_view_from, val_text, EvalR, FunM, ScopeM, St, Val,
};
use crate::statement::Statement;
use crate::token::{Literal, TokenType};

verus! {

/// The built-in functions.
#[derive(Clone, Copy, PartialEq, Eq, Structural, Debug)]
pub enum NativeKind {
    Pow,
    Min,
    Max,
    Abs,
    Print,
    Println,
}

/// Everything that can go wrong: statically (resolution), or at run
/// time. Control-flow signals that escape their legal context surface
/// as the three `...Outside...` errors.
#[derive(Clone, Copy, PartialEq, Eq, Structural, Debug)]
pub enum Error {
    UnboundVariable,
    DuplicateDefinition,
    DuplicateDeclaration,
    TypeError,
    ArityMismatch,
    DivisionByZero,
    NativeArgumentError,
    NumericOverflow,
    StackExhausted,
    BreakOutsideLoop,
    ContinueOutsideLoop,
    ReturnOutsideFunction,
}

/// A runtime value. Control-flow signals are *not* values (see
/// `Outcome`), so they can never be stored in a variable.
#[derive(Debug)]
pub enum Value {
    Number(i64),
    Str(String),
    Bool(bool),
    Nil,
    /// Index of a user function in the interpreter's function table.
    Function(u64),
    NativeFunction(NativeKind),
}

impl View for Value {
    type V = Val;

    open spec fn view(&self) -> Val {
        match *self {
            Value::Number(n) => Val::Num(n as int),
            Value::Str(s) => Val::Text(s@),
            Value::Bool(b) => Val::Bool(b),
            Value::Nil => Val::Nil,
            Value::Function(id) => Val::Fun(id as int),
            Value::NativeFunction(k) => Val::Native(k),
        }
    }
}

impl Value {
    /// A copy with the same mathematical value.
    pub fn dup(&self) -> (r: Value)
        ensures
            r@ == self@,
    {
        match self {
            Value::Number(n) => Value::Number(*n),
            Value::Str(s) => Value::Str(s.clone()),
            Value::Bool(b) => Value::Bool(*b),
            Value::Nil => Value::Nil,
            Value::Function(id) => Value::Function(*id),
            Value::NativeFunction(k) => Value::NativeFunction(*k),
        }
    }
}

/// What evaluating an expression or statement produces when it does
/// not fail: a normal value, or a control-flow signal.
#[derive(Debug)]
pub enum Outcome {
    Normal(Value),
    Break,
    Continue,
    Return(Value),
}

/// The ghost image of an evaluation result.
pub open spec fn res_r(r: Result<Outcome, Error>) -> EvalR {
    match r {
        Ok(Outcome::Normal(v)) => EvalR::Norm(v@),
        Ok(Outcome::Break) => EvalR::Brk,
        Ok(Outcome::Continue) => EvalR::Cont,
        Ok(Outcome::Return(v)) => EvalR::Ret(v@),
        Err(e) => EvalR::Fail(e),
    }
}

/// The ghost image of an argument list.
pub open spec fn vals_view(vs: Seq<Value>) -> Seq<Val> {
    vs.map_values(|v: Value| v@)
}

// ---------------------------------------------------------------------
// Display text
// ---------------------------------------------------------------------

/// The display form of a value, exactly `val_text`.
pub fn value_text(v: &Value) -> (s: String)
    ensures
        s@ == val_text(v@),
{
    match v {
        Value::Number(n) => dec_i64(*n),
        Value::Str(s) => s.clone(),
        Value::Bool(b) => {
            proof {
                reveal_strlit("true");
                reveal_strlit("false");
            }
            let s = if *b {
                "true".to_owned()
            } else {
                "false".to_owned()
            };
            proof {
                assert(s@ =~= val_text(v@));
            }
            s
        },
        Value::Nil => {
            proof {
                reveal_strlit("Nil");
            }
            let s = "Nil".to_owned();
            proof {
                assert(s@ =~= val_text(v@));
            }
            s
        },
        Value::Function(id) => dec_u64(*id),
        Value::NativeFunction(k) => {
            proof {
                reveal_strlit("pow");
                reveal_strlit("min");
                reveal_strlit("max");
                reveal_strlit("abs");
                reveal_strlit("print");
                reveal_strlit("println");
            }
            let s = match k {
                NativeKind::Pow => "pow".to_owned(),
                NativeKind::Min => "min".to_owned(),
                NativeKind::Max => "max".to_owned(),
                NativeKind::Abs => "abs".to_owned(),
                NativeKind::Print => "print".to_owned(),
                NativeKind::Println => "println".to_owned(),
            };
            proof {
                assert(s@ =~= val_text(v@));
            }
            s
        },
    }
}

// ---------------------------------------------------------------------
// Integer power
// ---------------------------------------------------------------------

/// Once a step of `pow_checked` overflows, every later step does.
proof fn lemma_pow_none_persists(b: int, e1: nat, e2: nat)
    requires
        e1 <= e2,
        pow_checked(b, e1) is None,
    ensures
        pow_checked(b, e2) is None,
    decreases e2,
{
    if e2 > e1 {
        lemma_pow_none_persists(b, e1, (e2 - 1) as nat);
    }
}

/// `b` to the `e`-th power with 64-bit checked steps.
#[verifier::loop_isolation(false)]
fn pow_i64(b: i64, e: u64) -> (r: Option<i64>)
    ensures
        match r {
            Some(p) => pow_checked(b as int, e as nat) == Some(p as int),
            None => pow_checked(b as int, e as nat) is None,
        },
{
    let mut acc: i64 = 1;
    let mut i: u64 = 0;
    while i < e
        invariant
            i <= e,
            pow_checked(b as int, i as nat) == Some(acc as int),
        decreases e - i,
    {
        match acc.checked_mul(b) {
            Some(x) => {
                acc = x;
            },
            None => {
                proof {
                    assert(pow_checked(b as int, (i + 1) as nat) is None);
                    lemma_pow_none_persists(b as int, (i + 1) as nat, e as nat);
                }
                return None;
            },
        }
        i += 1;
    }
    Some(acc)
}

// ---------------------------------------------------------------------
// The interpreter
// ---------------------------------------------------------------------

/// The evaluator state: an arena of scopes (slot 0 is the fixed
/// global/native scope), the current scope, the function table, the
/// resolver's distance map, and the output produced by the `print`
/// natives (each call appends one entry).
pub struct Interpreter {
    pub scopes: Vec<Scope>,
    pub cur: usize,
    pub funs: Vec<Function>,
    pub dist: DistanceMap,
    pub output: Vec<String>,
}

impl View for Interpreter {
    type V = St;

    open spec fn view(&self) -> St {
        St {
            scopes: self.scopes@.map_values(|s: Scope| s@),
            cur: self.cur as int,
            funs: self.funs@.map_values(|f: Function| f@),
            dmap: self.dist@,
            out: self.output@.map_values(|s: String| s@),
        }
    }
}

/// The bindings of the global scope: the six natives, in order.
pub open spec fn native_entries() -> Seq<(Seq<char>, Val)> {
    seq![
        (native_name(NativeKind::Pow), Val::Native(NativeKind::Pow)),
        (native_name(NativeKind::Min), Val::Native(NativeKind::Min)),
        (native_name(NativeKind::Max), Val::Native(NativeKind::Max)),
        (native_name(NativeKind::Abs), Val::Native(NativeKind::Abs)),
        (native_name(NativeKind::Print), Val::Native(NativeKind::Print)),
        (native_name(NativeKind::Println), Val::Native(NativeKind::Println)),
    ]
}

/// The state a fresh interpreter starts in: the global scope holding
/// the natives, an empty program scope, no functions, no output.
pub open spec fn init_st(dmap: Seq<(u64, usize)>) -> St {
    St {
        scopes: seq![
            ScopeM { entries: native_entries(), parent: None },
            ScopeM { entries: Seq::empty(), parent: None },
        ],
        cur: 1,
        funs: Seq::empty(),
        dmap: dmap,
        out: Seq::empty(),
    }
}

impl Interpreter {
    /// The state is well formed: the current scope exists.
    pub open spec fn wf(&self) -> bool {
        st_wf(self@)
    }

    /// A fresh interpreter over a resolver's distance map,
    /// pre-populated with the native functions.
    pub fn new(dist: DistanceMap) -> (it: Interpreter)
        ensures
            it.wf(),
            it@ == init_st(dist@),
    {
        let mut global = Scope::new(None);
        proof {
            assert(global@.entries.len() == 0);
        }
        global.entries.push(("pow".to_owned(), Value::NativeFunction(NativeKind::Pow)));
        global.entries.push(("min".to_owned(), Value::NativeFunction(NativeKind::Min)));
        global.entries.push(("max".to_owned(), Value::NativeFunction(NativeKind::Max)));
        global.entries.push(("abs".to_owned(), Value::NativeFunction(NativeKind::Abs)));
        global.entries.push(("print".to_owned(), Value::NativeFunction(NativeKind::Print)));
        global.entries.push(("println".to_owned(), Value::NativeFunction(NativeKind::Println)));
        proof {
            reveal_strlit("pow");
            reveal_strlit("min");
            reveal_strlit("max");
            reveal_strlit("abs");
            reveal_strlit("print");
            reveal_strlit("println");
            assert("pow"@ =~= native_name(NativeKind::Pow));
            assert("min"@ =~= native_name(NativeKind::Min));
            assert("max"@ =~= native_name(NativeKind::Max));
            assert("abs"@ =~= native_name(NativeKind::Abs));
            assert("print"@ =~= native_name(NativeKind::Print));
            assert("println"@ =~= native_name(NativeKind::Println));
            assert(global@.entries[0] == native_entries()[0]);
            assert(global@.entries[1] == native_entries()[1]);
            assert(global@.entries[2] == native_entries()[2]);
            assert(global@.entries[3] == native_entries()[3]);
            assert(global@.entries[4] == native_entries()[4]);
            assert(global@.entries[5] == native_entries()[5]);
            assert(global@.entries =~~= native_entries());
        }
        let program = Scope::new(None);
        let mut scopes: Vec<Scope> = Vec::new();
        scopes.push(global);
        scopes.push(program);
        let it = Interpreter { scopes, cur: 1, funs: Vec::new(), dist, output: Vec::new() };
        proof {
            assert(it@ =~~= init_st(dist@));
        }
        it
    }

    /// The output produced so far.
    pub fn output_lines(&self) -> (r: &Vec<String>)
        ensures
            r@.map_values(|s: String| s@) == self@.out,
    {
        &self.output
    }

    // -- environment operations -----------------------------------------

    /// The arena index `d` hops up the parent chain from `from`.
    fn ancestor(&self, from: usize, d: usize) -> (r: Option<usize>)
        ensures
            match r {
                Some(i) => s_ancestor(self@, from as int, d as nat) == Some(i as int) && i
                    < self.scopes.len(),
                None => s_ancestor(self@, from as int, d as nat) is None,
            },
        decreases d,
    {
        if from >= self.scopes.len() {
            return None;
        }
        if d == 0 {
            return Some(from);
        }
        match self.scopes[from].parent {
            Some(p) => self.ancestor(p, d - 1),
            None => None,
        }
    }

    /// `get_at`: the value of `name` exactly `d` hops up from the
    /// current scope.
    pub fn get_at(&self, name: &String, d: usize) -> (r: Option<Value>)
        ensures
            match r {
                Some(v) => s_lookup_at(self@, name@, d as nat) == Some(v@),
                None => s_lookup_at(self@, name@, d as nat) is None,
            },
    {
        match self.ancestor(self.cur, d) {
            Some(i) => match self.scopes[i].find_idx(name) {
                Some(j) => Some(self.scopes[i].entries[j].1.dup()),
                None => None,
            },
            None => None,
        }
    }

    /// `assign_at`: mutates `name` exactly `d` hops up; `false` when
    /// the chain is too short or the name is absent there.
    pub fn assign_at(&mut self, name: &String, v: Value, d: usize) -> (r: bool)
        requires
            old(self).wf(),
        ensures
            final(self).wf(),
            match s_assign_at(old(self)@, name@, v@, d as nat) {
                Some(st) => r && final(self)@ == st,
                None => !r && final(self)@ == old(self)@,
            },
    {
        match self.ancestor(self.cur, d) {
            Some(i) => match self.scopes[i].find_idx(name) {
                Some(j) => {
                    let ghost old_entries = self.scopes@[i as int]@.entries;
                    self.scopes[i].entries[j] = (name.clone(), v);
                    proof {
                        lemma_assoc_put_at(old_entries, name@, v@, j as int);
                        assert(self@.scopes =~~= old(self)@.scopes.update(
                            i as int,
                            ScopeM {
                                entries: assoc_put(old_entries, name@, v@),
                                parent: old(self)@.scopes[i as int].parent,
                            },
                        ));
                        assert(self@ =~~= s_assign_at(old(self)@, name@, v@, d as nat)->Some_0);
                    }
                    true
                },
                None => false,
            },
            None => false,
        }
    }

    /// The value of `name` in the fixed global scope.
    pub fn get_global(&self, name: &String) -> (r: Option<Value>)
        requires
            self.wf(),
        ensures
            match r {
                Some(v) => s_lookup_global(self@, name@) == Some(v@),
                None => s_lookup_global(self@, name@) is None,
            },
    {
        match self.scopes[0].find_idx(name) {
            Some(j) => Some(self.scopes[0].entries[j].1.dup()),
            None => None,
        }
    }

    /// Mutates `name` in the global scope; `false` when absent.
    pub fn assign_global(&mut self, name: &String, v: Value) -> (r: bool)
        requires
            old(self).wf(),
        ensures
            final(self).wf(),
            match s_assign_global(old(self)@, name@, v@) {
                Some(st) => r && final(self)@ == st,
                None => !r && final(self)@ == old(self)@,
            },
    {
        match self.scopes[0].find_idx(name) {
            Some(j) => {
                let ghost old_entries = self.scopes@[0]@.entries;
                self.scopes[0].entries[j] = (name.clone(), v);
                proof {
                    lemma_assoc_put_at(old_entries, name@, v@, j as int);
                    assert(self@.scopes =~~= old(self)@.scopes.update(
                        0,
                        ScopeM {
                            entries: assoc_put(old_entries, name@, v@),
                            parent: old(self)@.scopes[0].parent,
                        },
                    ));
                    assert(self@ =~~= s_assign_global(old(self)@, name@, v@)->Some_0);
                }
                true
            },
            None => false,
        }
    }

    /// Declares `name` in the current scope; `false` on redeclaration.
    pub fn define_cur(&mut self, name: &String, v: Value) -> (r: bool)
        requires
            old(self).wf(),
        ensures
            final(self).wf(),
            match s_define(old(self)@, name@, v@) {
                Some(st) => r && final(self)@ == st,
                None => !r && final(self)@ == old(self)@,
            },
    {
        let c = self.cur;
        let ok = self.scopes[c].define_var(name, v);
        proof {
            if ok {
                assert(self@.scopes =~~= old(self)@.scopes.update(
                    c as int,
                    ScopeM {
                        entries: old(self)@.scopes[c as int].entries.push((name@, v@)),
                        parent: old(self)@.scopes[c as int].parent,
                    },
                ));
                assert(self@ =~~= s_define(old(self)@, name@, v@)->Some_0);
            } else {
                assert(self@.scopes =~~= old(self)@.scopes);
                assert(self@ =~~= old(self)@);
            }
        }
        ok
    }

    /// Appends a fresh scope with parent `parent` and enters it.
    fn push_scope(&mut self, parent: usize)
        requires
            old(self).wf(),
        ensures
            final(self).wf(),
            final(self)@ == s_push_scope(old(self)@, Some(parent as int)),
            final(self).cur == old(self).scopes.len(),
    {
        let c = self.scopes.len();
        self.scopes.push(Scope::new(Some(parent)));
        self.cur = c;
        proof {
            assert(self@.scopes =~~= old(self)@.scopes.push(
                ScopeM { entries: Seq::empty(), parent: Some(parent as int) },
            ));
            assert(self@ =~~= s_push_scope(old(self)@, Some(parent as int)));
        }
    }

    /// Returns to scope `c` (leaving a block or a call).
    fn set_cur(&mut self, c: usize)
        requires
            c < old(self).scopes.len(),
        ensures
            final(self).wf(),
            final(self)@ == s_with_cur(old(self)@, c as int),
    {
        self.cur = c;
        proof {
            assert(self@ =~~= s_with_cur(old(self)@, c as int));
        }
    }

    /// Appends one piece of output.
    fn out_push(&mut self, s: String)
        ensures
            final(self)@ == s_out(old(self)@, s@),
            final(self).cur == old(self).cur,
            final(self).scopes@ == old(self).scopes@,
    {
        self.output.push(s);
        proof {
            assert(self@.out =~~= old(self)@.out.push(s@));
            assert(self@ =~~= s_out(old(self)@, s@));
        }
    }

    // -- evaluation -------------------------------------------------------

    /// The value a literal denotes.
    pub fn interp_literal(&self, expr: &Literal) -> (r: Value)
        ensures
            r@ == lit_val(*expr),
    {
        match expr {
            Literal::Str(s) => Value::Str(s.clone()),
            Literal::Number(n) => Value::Number(*n),
            Literal::True => Value::Bool(true),
            Literal::False => Value::Bool(false),
            Literal::Nil => Value::Nil,
        }
    }

    /// Evaluates one expression with the given fuel. Agrees with
    /// `s_eval_expr` exactly: same result, same final state.
    pub fn interp_expression(&mut self, e: &Expression, fuel: u64) -> (r: Result<Outcome, Error>)
        requires
            old(self).wf(),
        ensures
            final(self).wf(),
            final(self)@ == s_eval_expr(expr_view(*e), old(self)@, fuel as nat).0,
            res_r(r) == s_eval_expr(expr_view(*e), old(self)@, fuel as nat).1,
        decreases fuel,
    {
        if fuel == 0 {
            return Err(Error::StackExhausted);
        }
        let f = fuel - 1;
        match e {
            Expression::Literal(l) => Ok(Outcome::Normal(self.interp_literal(l))),
            Expression::Grouping(g) => self.interp_expression(&*g, f),
            Expression::BreakExpr => Ok(Outcome::Break),
            Expression::ContinueExpr => Ok(Outcome::Continue),
            Expression::Unary(op, ex) => {
                let r = self.interp_expression(&*ex, f);
                match r {
                    Ok(Outcome::Normal(v)) => apply_unop(*op, v),
                    other => other,
                }
            },
            Expression::Binary(l, op, rr) => {
                let lr = self.interp_expression(&*l, f);
                match lr {
                    Ok(Outcome::Normal(lv)) => {
                        let rres = self.interp_expression(&*rr, f);
                        match rres {
                            Ok(Outcome::Normal(rv)) => apply_binop(*op, lv, rv),
                            other => other,
                        }
                    },
                    other => other,
                }
            },
            Expression::Ternary(c, a, b) => {
                let cr = self.interp_expression(&*c, f);
                match cr {
                    Ok(Outcome::Normal(Value::Bool(true))) => self.interp_expression(&*a, f),
                    Ok(Outcome::Normal(Value::Bool(false))) => self.interp_expression(&*b, f),
                    Ok(Outcome::Normal(_)) => Err(Error::TypeError),
                    other => other,
                }
            },
            Expression::Logical(l, op, rr) => {
                if *op == TokenType::And {
                    let lr = self.interp_expression(&*l, f);
                    match lr {
                        Ok(Outcome::Normal(Value::Bool(false))) => Ok(
                            Outcome::Normal(Value::Bool(false)),
                        ),
                        Ok(Outcome::Normal(Value::Bool(true))) => {
                            let rres = self.interp_expression(&*rr, f);
                            match rres {
                                Ok(Outcome::Normal(Value::Bool(b))) => Ok(
                                    Outcome::Normal(Value::Bool(b)),
                                ),
                                Ok(Outcome::Normal(_)) => Err(Error::TypeError),
                                other => other,
                            }
                        },
                        Ok(Outcome::Normal(_)) => Err(Error::TypeError),
                        other => other,
                    }
                } else if *op == TokenType::Or {
                    let lr = self.interp_expression(&*l, f);
                    match lr {
                        Ok(Outcome::Normal(Value::Bool(true))) => Ok(
                            Outcome::Normal(Value::Bool(true)),
                        ),
                        Ok(Outcome::Normal(Value::Bool(false))) => {
                            let rres = self.interp_expression(&*rr, f);
                            match rres {
                                Ok(Outcome::Normal(Value::Bool(b))) => Ok(
                                    Outcome::Normal(Value::Bool(b)),
                                ),
                                Ok(Outcome::Normal(_)) => Err(Error::TypeError),
                                other => other,
                            }
                        },
                        Ok(Outcome::Normal(_)) => Err(Error::TypeError),
                        other => other,
                    }
                } else {
                    Err(Error::TypeError)
                }
            },
            Expression::Primary(sym) => self.interp_variable(sym),
            Expression::Call(callee, args) => {
                let cr = self.interp_expression(&*callee, f);
                match cr {
                    Ok(Outcome::Normal(cv)) => {
                        let ar = self.interp_args(args, f);
                        match ar {
                            Ok(vals) => self.call_value(cv, vals, f),
                            Err(stop) => stop,
                        }
                    },
                    other => other,
                }
            },
            Expression::BlockExpr(stmts) => {
                let saved = self.cur;
                self.push_scope(saved);
                let r = self.interp_seq(stmts, Value::Nil, f);
                proof {
                    lemma_seq_grows(
                        stmts_view_from(stmts@, 0),
                        0,
                        Val::Nil,
                        s_push_scope(old(self)@, Some(saved as int)),
                        f as nat,
                    );
                }
                self.set_cur(saved);
                r
            },
            Expression::IfExpr(c, t, els) => {
                let cr = self.interp_expression(&*c, f);
                match cr {
                    Ok(Outcome::Normal(Value::Bool(true))) => self.interp_expression(&*t, f),
                    Ok(Outcome::Normal(Value::Bool(false))) => match &**els {
                        Some(ee) => self.interp_expression(ee, f),
                        None => Ok(Outcome::Normal(Value::Nil)),
                    },
                    Ok(Outcome::Normal(_)) => Err(Error::TypeError),
                    other => other,
                }
            },
            Expression::WhileExpr(c, b) => self.interp_whileexpr(&*c, &*b, f),
            Expression::LoopExpr(b) => self.interp_loopexpr(&*b, f),
        }
    }

    /// A variable reference: the resolver's distance when it recorded
    /// one, else the global scope.
    fn interp_variable(&mut self, sym: &Symbol) -> (r: Result<Outcome, Error>)
        requires
            old(self).wf(),
        ensures
            final(self).wf(),
            *final(self) == *old(self),
            res_r(r) == ({
                match s_dist(old(self)@, sym.id) {
                    Some(d) => match s_lookup_at(old(self)@, sym.name@, d as nat) {
                        Some(v) => EvalR::Norm(v),
                        None => EvalR::Fail(Error::UnboundVariable),
                    },
                    None => match s_lookup_global(old(self)@, sym.name@) {
                        Some(v) => EvalR::Norm(v),
                        None => EvalR::Fail(Error::UnboundVariable),
                    },
                }
            }),
    {
        match self.dist.find(sym.id) {
            Some(d) => match self.get_at(&sym.name, d) {
                Some(v) => Ok(Outcome::Normal(v)),
                None => Err(Error::UnboundVariable),
            },
            None => match self.get_global(&sym.name) {
                Some(v) => Ok(Outcome::Normal(v)),
                None => Err(Error::UnboundVariable),
            },
        }
    }

    /// Evaluates one statement. Agrees with `s_eval_stmt` exactly.
    #[verifier::rlimit(60)]
    pub fn interp_statement(&mut self, stmt: &Statement, fuel: u64) -> (r: Result<Outcome, Error>)
        requires
            old(self).wf(),
        ensures
            final(self).wf(),
            final(self)@ == s_eval_stmt(stmt_view(*stmt), old(self)@, fuel as nat).0,
            res_r(r) == s_eval_stmt(stmt_view(*stmt), old(self)@, fuel as nat).1,
        decreases fuel,
    {
        if fuel == 0 {
            return Err(Error::StackExhausted);
        }
        let f = fuel - 1;
        match stmt {
            Statement::Expression(e) => self.interp_expression(e, f),
            Statement::Declaration(sym, init) => {
                let v: Value = match init {
                    Some(e) => {
                        let r = self.interp_expression(e, f);
                        match r {
                            Ok(Outcome::Normal(v)) => v,
                            other => {
                                return other;
                            },
                        }
                    },
                    None => Value::Nil,
                };
                if self.define_cur(&sym.name, v) {
                    Ok(Outcome::Normal(Value::Nil))
                } else {
                    Err(Error::DuplicateDefinition)
                }
            },
            Statement::Assignment(sym, e) => {
                let r = self.interp_expression(e, f);
                match r {
                    Ok(Outcome::Normal(v)) => match self.dist.find(sym.id) {
                        Some(d) => {
                            if self.assign_at(&sym.name, v, d) {
                                Ok(Outcome::Normal(Value::Nil))
                            } else {
                                Err(Error::UnboundVariable)
                            }
                        },
                        None => {
                            if self.assign_global(&sym.name, v) {
                                Ok(Outcome::Normal(Value::Nil))
                            } else {
                                Err(Error::UnboundVariable)
                            }
                        },
                    },
                    other => other,
                }
            },
            Statement::FuncDclaration(name, params, body) => match body {
                Expression::BlockExpr(stmts) => {
                    let fid = self.funs.len() as u64;
                    let ps = clone_symbols(params);
                    let bd = clone_stmts(stmts);
                    let func = Function::new(
                        crate::astdup::clone_symbol(name),
                        ps,
                        bd,
                        self.cur,
                    );
                    self.funs.push(func);
                    proof {
                        assert(self@.funs =~~= old(self)@.funs.push(
                            FunM {
                                params: params_view(params@),
                                body: stmts_view_from(stmts@, 0),
                                cap: old(self)@.cur,
                            },
                        ));
                    }
                    if self.define_cur(&name.name, Value::Function(fid)) {
                        Ok(Outcome::Normal(Value::Nil))
                    } else {
                        Err(Error::DuplicateDefinition)
                    }
                },
                _ => Err(Error::TypeError),
            },
            Statement::Return(e) => {
                let r = self.interp_expression(e, f);
                match r {
                    Ok(Outcome::Normal(v)) => Ok(Outcome::Return(v)),
                    other => other,
                }
            },
        }
    }

    /// Evaluates statements in order, threading the running "last
    /// value". Agrees with `s_eval_seq` exactly.
    #[verifier::loop_isolation(false)]
    #[verifier::rlimit(60)]
    fn interp_seq(&mut self, stmts: &Vec<Statement>, last: Value, fuel: u64) -> (r: Result<
        Outcome,
        Error,
    >)
        requires
            old(self).wf(),
        ensures
            final(self).wf(),
            final(self)@ == s_eval_seq(
                stmts_view_from(stmts@, 0),
                0,
                last@,
                old(self)@,
                fuel as nat,
            ).0,
            res_r(r) == s_eval_seq(
                stmts_view_from(stmts@, 0),
                0,
                last@,
                old(self)@,
                fuel as nat,
            ).1,
        decreases fuel,
    {
        let ghost ms = stmts_view_from(stmts@, 0);
        let ghost st0 = self@;
        proof {
            lemma_stmts_view_index(stmts@, 0);
        }
        let mut cur_last = last;
        let mut i: usize = 0;
        let mut fl = fuel;
        loop
            invariant
                self.wf(),
                i <= stmts.len(),
                fl <= fuel,
                s_eval_seq(ms, 0, last@, st0, fuel as nat) == s_eval_seq(
                    ms,
                    i as int,
                    cur_last@,
                    self@,
                    fl as nat,
                ),
            decreases fl,
        {
            if fl == 0 {
                return Err(Error::StackExhausted);
            }
            if i >= stmts.len() {
                return Ok(Outcome::Normal(cur_last));
            }
            let r = self.interp_statement(&stmts[i], fl - 1);
            match r {
                Ok(Outcome::Normal(v)) => {
                    cur_last = v;
                    i += 1;
                    fl -= 1;
                },
                other => {
                    return other;
                },
            }
        }
    }

    /// Evaluates call arguments left to right. Agrees with
    /// `s_eval_args` exactly: `Err` carries the signal or failure that
    /// stopped the call.
    #[verifier::loop_isolation(false)]
    fn interp_args(&mut self, args: &Vec<Expression>, fuel: u64) -> (r: Result<
        Vec<Value>,
        Result<Outcome, Error>,
    >)
        requires
            old(self).wf(),
        ensures
            final(self).wf(),
            final(self)@ == s_eval_args(
                exprs_view_from(args@, 0),
                0,
                Seq::empty(),
                old(self)@,
                fuel as nat,
            ).0,
            match r {
                Ok(vals) => s_eval_args(
                    exprs_view_from(args@, 0),
                    0,
                    Seq::empty(),
                    old(self)@,
                    fuel as nat,
                ).1 == Ok::<Seq<Val>, EvalR>(vals_view(vals@)),
                Err(stop) => s_eval_args(
                    exprs_view_from(args@, 0),
                    0,
                    Seq::empty(),
                    old(self)@,
                    fuel as nat,
                ).1 == Err::<Seq<Val>, EvalR>(res_r(stop)),
            },
        decreases fuel,
    {
        let ghost ms = exprs_view_from(args@, 0);
        let ghost st0 = self@;
        proof {
            lemma_exprs_view_index(args@, 0);
        }
        let mut acc: Vec<Value> = Vec::new();
        let mut i: usize = 0;
        let mut fl = fuel;
        proof {
            assert(vals_view(acc@) =~= Seq::<Val>::empty());
        }
        loop
            invariant
                self.wf(),
                i <= args.len(),
                fl <= fuel,
                s_eval_args(ms, 0, Seq::empty(), st0, fuel as nat) == s_eval_args(
                    ms,
                    i as int,
                    vals_view(acc@),
                    self@,
                    fl as nat,
                ),
            decreases fl,
        {
            if fl == 0 {
                return Err(Err(Error::StackExhausted));
            }
            if i >= args.len() {
                return Ok(acc);
            }
            let r = self.interp_expression(&args[i], fl - 1);
            match r {
                Ok(Outcome::Normal(v)) => {
                    proof {
                        assert(vals_view(acc@.push(v)) =~= vals_view(acc@).push(v@));
                    }
                    acc.push(v);
                    i += 1;
                    fl -= 1;
                },
                other => {
                    return Err(other);
                },
            }
        }
    }

    /// Calls an evaluated callee on evaluated arguments. Agrees with
    /// `s_call_value` exactly.
    #[verifier::loop_isolation(false)]
    fn call_value(&mut self, callee: Value, args: Vec<Value>, fuel: u64) -> (r: Result<
        Outcome,
        Error,
    >)
        requires
            old(self).wf(),
        ensures
            final(self).wf(),
            final(self)@ == s_call_value(callee@, vals_view(args@), old(self)@, fuel as nat).0,
            res_r(r) == s_call_value(callee@, vals_view(args@), old(self)@, fuel as nat).1,
        decreases fuel,
    {
        if fuel == 0 {
            return Err(Error::StackExhausted);
        }
        let f = fuel - 1;
        match callee {
            Value::Function(fid) => {
                if fid >= self.funs.len() as u64 {
                    return Err(Error::TypeError);
                }
                let fidx = fid as usize;
                let ghost funm = self@.funs[fid as int];
                let params = clone_symbols(&self.funs[fidx].params);
                let body = clone_stmts(&self.funs[fidx].body);
                let cap = self.funs[fidx].closure;
                proof {
                    assert(funm.params == params_view(params@));
                    assert(funm.body == stmts_view_from(body@, 0));
                    assert(funm.cap == cap as int);
                }
                if args.len() != params.len() {
                    return Err(Error::ArityMismatch);
                }
                let saved = self.cur;
                self.push_scope(cap);
                let ghost st1 = self@;
                let ghost pnames = params_view(params@);
                let ghost vals = vals_view(args@);
                let mut k: usize = 0;
                while k < params.len()
                    invariant
                        self.wf(),
                        k <= params.len(),
                        args.len() == params.len(),
                        saved < self.scopes.len(),
                        s_bind_params(st1, pnames, vals, 0) == s_bind_params(
                            self@,
                            pnames,
                            vals,
                            k as int,
                        ),
                    decreases params.len() - k,
                {
                    let av = args[k].dup();
                    let ok = self.define_cur(&params[k].name, av);
                    if !ok {
                        let ghost st2 = self@;
                        proof {
                            assert(s_bind_params(st1, pnames, vals, 0) == (st2, false));
                        }
                        self.set_cur(saved);
                        return Err(Error::DuplicateDefinition);
                    }
                    k += 1;
                }
                let ghost st2 = self@;
                proof {
                    assert(s_bind_params(st1, pnames, vals, 0) == (st2, true));
                }
                let r = self.interp_seq(&body, Value::Nil, f);
                proof {
                    lemma_seq_grows(funm.body, 0, Val::Nil, st2, f as nat);
                }
                self.set_cur(saved);
                match r {
                    Ok(Outcome::Normal(v)) => Ok(Outcome::Normal(v)),
                    Ok(Outcome::Return(v)) => Ok(Outcome::Normal(v)),
                    Ok(Outcome::Break) => Err(Error::BreakOutsideLoop),
                    Ok(Outcome::Continue) => Err(Error::ContinueOutsideLoop),
                    Err(err) => Err(err),
                }
            },
            Value::NativeFunction(k) => {
                let ar: usize = match k {
                    NativeKind::Pow => 2,
                    NativeKind::Min => 2,
                    NativeKind::Max => 2,
                    NativeKind::Abs => 1,
                    NativeKind::Print => 1,
                    NativeKind::Println => 1,
                };
                if args.len() != ar {
                    return Err(Error::ArityMismatch);
                }
                self.call_native(k, &args)
            },
            _ => Err(Error::TypeError),
        }
    }

    /// Applies a native to correctly many arguments. Agrees with
    /// `s_native` exactly.
    fn call_native(&mut self, k: NativeKind, args: &Vec<Value>) -> (r: Result<Outcome, Error>)
        requires
            old(self).wf(),
            args@.len() == native_arity(k),
        ensures
            final(self).wf(),
            final(self)@ == s_native(k, vals_view(args@), old(self)@).0,
            res_r(r) == s_native(k, vals_view(args@), old(self)@).1,
    {
        match k {
            NativeKind::Pow => match (&args[0], &args[1]) {
                (Value::Number(a), Value::Number(b)) => {
                    if *b < 0 {
                        Err(Error::NativeArgumentError)
                    } else {
                        match pow_i64(*a, *b as u64) {
                            Some(p) => Ok(Outcome::Normal(Value::Number(p))),
                            None => Err(Error::NumericOverflow),
                        }
                    }
                },
                _ => Err(Error::NativeArgumentError),
            },
            NativeKind::Min => match (&args[0], &args[1]) {
                (Value::Number(a), Value::Number(b)) => Ok(
                    Outcome::Normal(Value::Number(if *a <= *b {
                        *a
                    } else {
                        *b
                    })),
                ),
                _ => Err(Error::NativeArgumentError),
            },
            NativeKind::Max => match (&args[0], &args[1]) {
                (Value::Number(a), Value::Number(b)) => Ok(
                    Outcome::Normal(Value::Number(if *a >= *b {
                        *a
                    } else {
                        *b
                    })),
                ),
                _ => Err(Error::NativeArgumentError),
            },
            NativeKind::Abs => match &args[0] {
                Value::Number(a) => {
                    if *a == i64::MIN {
                        Err(Error::NumericOverflow)
                    } else if *a < 0 {
                        Ok(Outcome::Normal(Value::Number(-*a)))
                    } else {
                        Ok(Outcome::Normal(Value::Number(*a)))
                    }
                },
                _ => Err(Error::NativeArgumentError),
            },
            NativeKind::Print => {
                let txt = value_text(&args[0]);
                self.out_push(txt);
                Ok(Outcome::Normal(Value::Nil))
            },
            NativeKind::Println => {
                let mut txt = value_text(&args[0]);
                proof {
                    reveal_strlit("\n");
                }
                txt.append("\n");
                proof {
                    assert(txt@ =~= val_text(vals_view(args@)[0]).push('\n'));
                }
                self.out_push(txt);
                Ok(Outcome::Normal(Value::Nil))
            },
        }
    }

    /// A `while` loop. Agrees with `s_eval_while` exactly.
    #[verifier::loop_isolation(false)]
    fn interp_whileexpr(&mut self, c: &Expression, b: &Expression, fuel: u64) -> (r: Result<
        Outcome,
        Error,
    >)
        requires
            old(self).wf(),
        ensures
            final(self).wf(),
            final(self)@ == s_eval_while(expr_view(*c), expr_view(*b), old(self)@, fuel as nat).0,
            res_r(r) == s_eval_while(expr_view(*c), expr_view(*b), old(self)@, fuel as nat).1,
        decreases fuel,
    {
        let ghost cm = expr_view(*c);
        let ghost bm = expr_view(*b);
        let ghost st0 = self@;
        let mut fl = fuel;
        loop
            invariant
                self.wf(),
                fl <= fuel,
                s_eval_while(cm, bm, st0, fuel as nat) == s_eval_while(cm, bm, self@, fl as nat),
            decreases fl,
        {
            if fl == 0 {
                return Err(Error::StackExhausted);
            }
            let f = fl - 1;
            let cr = self.interp_expression(c, f);
            match cr {
                Ok(Outcome::Normal(Value::Bool(false))) => {
                    return Ok(Outcome::Normal(Value::Nil));
                },
                Ok(Outcome::Normal(Value::Bool(true))) => {
                    let br = self.interp_expression(b, f);
                    match br {
                        Ok(Outcome::Break) => {
                            return Ok(Outcome::Normal(Value::Nil));
                        },
                        Ok(Outcome::Normal(_)) => {
                            fl = f;
                        },
                        Ok(Outcome::Continue) => {
                            fl = f;
                        },
                        other => {
                            return other;
                        },
                    }
                },
                Ok(Outcome::Normal(_)) => {
                    return Err(Error::TypeError);
                },
                other => {
                    return other;
                },
            }
        }
    }

    /// An unconditional `loop`. Agrees with `s_eval_loop` exactly.
    #[verifier::loop_isolation(false)]
    fn interp_loopexpr(&mut self, b: &Expression, fuel: u64) -> (r: Result<Outcome, Error>)
        requires
            old(self).wf(),
        ensures
            final(self).wf(),
            final(self)@ == s_eval_loop(expr_view(*b), old(self)@, fuel as nat).0,
            res_r(r) == s_eval_loop(expr_view(*b), old(self)@, fuel as nat).1,
        decreases fuel,
    {
        let ghost bm = expr_view(*b);
        let ghost st0 = self@;
        let mut fl = fuel;
        loop
            invariant
                self.wf(),
                fl <= fuel,
                s_eval_loop(bm, st0, fuel as nat) == s_eval_loop(bm, self@, fl as nat),
            decreases fl,
        {
            if fl == 0 {
                return Err(Error::StackExhausted);
            }
            let f = fl - 1;
            let br = self.interp_expression(b, f);
            match br {
                Ok(Outcome::Break) => {
                    return Ok(Outcome::Normal(Value::Nil));
                },
                Ok(Outcome::Normal(_)) => {
                    fl = f;
                },
                Ok(Outcome::Continue) => {
                    fl = f;
                },
                other => {
                    return other;
                },
            }
        }
    }

    /// Runs a whole program: its statements in order in the program
    /// scope. Agrees with `s_run` exactly; a control-flow signal that
    /// escapes the program is the error the resolver reports for it.
    pub fn interp(&mut self, stmts: &Vec<Statement>, fuel: u64) -> (r: Result<(), Error>)
        requires
            old(self).wf(),
        ensures
            final(self).wf(),
            final(self)@ == s_run(stmts_view_from(stmts@, 0), old(self)@, fuel as nat).0,
            r == s_run(stmts_view_from(stmts@, 0), old(self)@, fuel as nat).1,
    {
        let rr = self.interp_seq(stmts, Value::Nil, fuel);
        match rr {
            Ok(Outcome::Normal(_)) => Ok(()),
            Ok(Outcome::Break) => Err(Error::BreakOutsideLoop),
            Ok(Outcome::Continue) => Err(Error::ContinueOutsideLoop),
            Ok(Outcome::Return(_)) => Err(Error::ReturnOutsideFunction),
            Err(e) => Err(e),
        }
    }
}

/// The result of a unary operator on an evaluated operand.
fn apply_unop(op: TokenType, v: Value) -> (r: Result<Outcome, Error>)
    ensures
        res_r(r) == s_unop(op, v@),
{
    match (op, &v) {
        (TokenType::Minus, Value::Number(n)) => {
            if *n == i64::MIN {
                Err(Error::NumericOverflow)
            } else {
                Ok(Outcome::Normal(Value::Number(-*n)))
            }
        },
        (TokenType::Not, Value::Bool(b)) => Ok(Outcome::Normal(Value::Bool(!*b))),
        _ => Err(Error::TypeError),
    }
}

/// The result of a binary operator on two evaluated operands.
fn apply_binop(op: TokenType, l: Value, r: Value) -> (res: Result<Outcome, Error>)
    ensures
        res_r(res) == s_binop(op, l@, r@),
{
    match (l, op, r) {
        (Value::Number(a), TokenType::Plus, Value::Number(b)) => match a.checked_add(b) {
            Some(x) => Ok(Outcome::Normal(Value::Number(x))),
            None => Err(Error::NumericOverflow),
        },
        (Value::Number(a), TokenType::Minus, Value::Number(b)) => match a.checked_sub(b) {
            Some(x) => Ok(Outcome::Normal(Value::Number(x))),
            None => Err(Error::NumericOverflow),
        },
        (Value::Number(a), TokenType::Aster, Value::Number(b)) => match a.checked_mul(b) {
            Some(x) => Ok(Outcome::Normal(Value::Number(x))),
            None => Err(Error::NumericOverflow),
        },
        (Value::Number(a), TokenType::Slash, Value::Number(b)) => {
            if b == 0 {
                Err(Error::DivisionByZero)
            } else {
                match a.checked_div(b) {
                    Some(q) => {
                        proof {
                            assert(q as int == div_trunc(a as int, b as int));
                        }
                        Ok(Outcome::Normal(Value::Number(q)))
                    },
                    None => Err(Error::NumericOverflow),
                }
            }
        },
        (Value::Str(x), TokenType::Plus, Value::Str(y)) => Ok(
            Outcome::Normal(Value::Str(x.concat(y.as_str()))),
        ),
        (Value::Str(x), TokenType::Plus, Value::Number(b)) => {
            let t = dec_i64(b);
            Ok(Outcome::Normal(Value::Str(x.concat(t.as_str()))))
        },
        (Value::Bool(a), TokenType::Equality, Value::Bool(b)) => Ok(
            Outcome::Normal(Value::Bool(a == b)),
        ),
        (Value::Bool(a), TokenType::NotEqual, Value::Bool(b)) => Ok(
            Outcome::Normal(Value::Bool(a != b)),
        ),
        (Value::Number(a), TokenType::Equality, Value::Number(b)) => Ok(
            Outcome::Normal(Value::Bool(a == b)),
        ),
        (Value::Number(a), TokenType::NotEqual, Value::Number(b)) => Ok(
            Outcome::Normal(Value::Bool(a != b)),
        ),
        (Value::Number(a), TokenType::Less, Value::Number(b)) => Ok(
            Outcome::Normal(Value::Bool(a < b)),
        ),
        (Value::Number(a), TokenType::LessEqual, Value::Number(b)) => Ok(
            Outcome::Normal(Value::Bool(a <= b)),
        ),
        (Value::Number(a), TokenType::Greater, Value::Number(b)) => Ok(
            Outcome::Normal(Value::Bool(a > b)),
        ),
        (Value::Number(a), TokenType::GreaterEqual, Value::Number(b)) => Ok(
            Outcome::Normal(Value::Bool(a >= b)),
        ),
        _ => Err(Error::TypeError),
    }
}

} // verus!

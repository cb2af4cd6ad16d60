//! The static scope resolver: computes, for every variable occurrence,
//! how many scopes separate its use from its declaration, and rejects
//! duplicate declarations in one scope and misplaced
//! `break`/`continue`/`return` before anything runs.
//!
//! The executable resolver agrees exactly with the spec-level mirror
//! (`r_expr`, `r_stmt`, `r_program`), which walks the same ghost AST
//! the evaluator's semantics uses.

use vstd::prelude::*;
use crate::expression::{Expression, Symbol};
use crate::interpreter::Error;
use crate::semantics::{
    assoc_find, assoc_put, expr_view, exprs_view_from, lemma_assoc_find_at,
    lemma_assoc_find_none, lemma_assoc_put_at, lemma_exprs_view_index, lemma_stmts_view_index,
    stmt_view, stmts_view_from, ExprM, StmtM,
};
use crate::statement::Statement;

verus! {

/// The resolver's output: occurrence identity to hop count.
/// An occurrence with no entry resolves against the global scope.
pub struct DistanceMap {
    pub entries: Vec<(u64, usize)>,
}

impl View for DistanceMap {
    type V = Seq<(u64, usize)>;

    open spec fn view(&self) -> Seq<(u64, usize)> {
        self.entries@
    }
}

impl DistanceMap {
    pub fn new() -> (m: DistanceMap)
        ensures
            m@ =~= Seq::<(u64, usize)>::empty(),
    {
        DistanceMap { entries: Vec::new() }
    }

    /// The recorded distance for occurrence `id`, if any.
    pub fn find(&self, id: u64) -> (r: Option<usize>)
        ensures
            r == assoc_find(self@, id),
    {
        let mut i: usize = 0;
        while i < self.entries.len()
            invariant
                i <= self.entries.len(),
                forall|l: int| 0 <= l < i ==> (#[trigger] self@[l]).0 != id,
            decreases self.entries.len() - i,
        {
            if self.entries[i].0 == id {
                proof {
                    lemma_assoc_find_at(self@, id, i as int);
                }
                return Some(self.entries[i].1);
            }
            i += 1;
        }
        proof {
            lemma_assoc_find_none::<u64, usize>(self@, id);
        }
        None
    }
}

// ---------------------------------------------------------------------
// The ghost mirror of resolution
// ---------------------------------------------------------------------

/// The resolver's ghost state: the static scope stack (innermost
/// last; each scope maps a name to "defined yet"), the distance map
/// built so far, and whether the position is inside a loop body or a
/// function body.
#[verifier::ext_equal]
pub struct RState {
    pub stack: Seq<Seq<(Seq<char>, bool)>>,
    pub dmap: Seq<(u64, usize)>,
    pub in_loop: bool,
    pub in_fun: bool,
}

pub open spec fn r_begin(rs: RState) -> RState {
    RState { stack: rs.stack.push(Seq::empty()), dmap: rs.dmap, in_loop: rs.in_loop, in_fun: rs.in_fun }
}

pub open spec fn r_end(rs: RState) -> RState {
    if rs.stack.len() == 0 {
        rs
    } else {
        RState {
            stack: rs.stack.drop_last(),
            dmap: rs.dmap,
            in_loop: rs.in_loop,
            in_fun: rs.in_fun,
        }
    }
}

/// Declares `name` (not yet defined) in the innermost scope; `None`
/// on redeclaration in that same scope. Outside any scope it does
/// nothing, like the dynamic global scope it stands for.
pub open spec fn r_declare(rs: RState, name: Seq<char>) -> Option<RState> {
    if rs.stack.len() == 0 {
        Some(rs)
    } else if assoc_find(rs.stack.last(), name) is Some {
        None
    } else {
        Some(
            RState {
                stack: rs.stack.update(rs.stack.len() - 1, rs.stack.last().push((name, false))),
                dmap: rs.dmap,
                in_loop: rs.in_loop,
                in_fun: rs.in_fun,
            },
        )
    }
}

/// Marks `name` defined in the innermost scope.
pub open spec fn r_define(rs: RState, name: Seq<char>) -> RState {
    if rs.stack.len() == 0 {
        rs
    } else {
        let top = rs.stack.last();
        let top2 = if assoc_find(top, name) is Some {
            assoc_put(top, name, true)
        } else {
            top.push((name, true))
        };
        RState {
            stack: rs.stack.update(rs.stack.len() - 1, top2),
            dmap: rs.dmap,
            in_loop: rs.in_loop,
            in_fun: rs.in_fun,
        }
    }
}

/// The hop count of the innermost scope (from `d` outwards) that
/// holds `name`, if any.
pub open spec fn r_depth(stack: Seq<Seq<(Seq<char>, bool)>>, name: Seq<char>, d: int) -> Option<
    int,
>
    decreases stack.len() - d,
{
    if d < 0 || d >= stack.len() {
        None
    } else if assoc_find(stack[stack.len() - 1 - d], name) is Some {
        Some(d)
    } else {
        r_depth(stack, name, d + 1)
    }
}

/// Records the hop count for occurrence `id` of `name`; an occurrence
/// of a name no scope holds is left to the global scope (no entry).
pub open spec fn r_resolve_local(rs: RState, name: Seq<char>, id: u64) -> RState {
    match r_depth(rs.stack, name, 0) {
        Some(d) => RState {
            stack: rs.stack,
            dmap: rs.dmap.push((id, d as usize)),
            in_loop: rs.in_loop,
            in_fun: rs.in_fun,
        },
        None => rs,
    }
}

/// Declares and defines each parameter in the innermost scope;
/// a repeated parameter name is a duplicate declaration.
pub open spec fn r_params(ps: Seq<Seq<char>>, i: int, rs: RState) -> Result<RState, Error>
    decreases ps.len() - i,
{
    if i < 0 || i >= ps.len() {
        Ok(rs)
    } else {
        match r_declare(rs, ps[i]) {
            Some(rs1) => r_params(ps, i + 1, r_define(rs1, ps[i])),
            None => Err(Error::DuplicateDeclaration),
        }
    }
}

/// Resolves one expression.
pub open spec fn r_expr(e: ExprM, rs: RState) -> Result<RState, Error>
    decreases e, 1int,
{
    match e {
        ExprM::Lit(_) => Ok(rs),
        ExprM::Brk => if rs.in_loop {
            Ok(rs)
        } else {
            Err(Error::BreakOutsideLoop)
        },
        ExprM::Cont => if rs.in_loop {
            Ok(rs)
        } else {
            Err(Error::ContinueOutsideLoop)
        },
        ExprM::Grouping(g) => r_expr(*g, rs),
        ExprM::Unary(_, ex) => r_expr(*ex, rs),
        ExprM::Binary(l, _, r) => match r_expr(*l, rs) {
            Ok(rs1) => r_expr(*r, rs1),
            Err(err) => Err(err),
        },
        ExprM::Logical(l, _, r) => match r_expr(*l, rs) {
            Ok(rs1) => r_expr(*r, rs1),
            Err(err) => Err(err),
        },
        ExprM::Ternary(c, a, b) => match r_expr(*c, rs) {
            Ok(rs1) => match r_expr(*a, rs1) {
                Ok(rs2) => r_expr(*b, rs2),
                Err(err) => Err(err),
            },
            Err(err) => Err(err),
        },
        ExprM::Var(name, id) => Ok(r_resolve_local(rs, name, id)),
        ExprM::Call(callee, args) => match r_expr(*callee, rs) {
            Ok(rs1) => r_exprs(args, 0, rs1),
            Err(err) => Err(err),
        },
        ExprM::Block(ss) => match r_stmts(ss, 0, r_begin(rs)) {
            Ok(rs1) => Ok(r_end(rs1)),
            Err(err) => Err(err),
        },
        ExprM::If(c, t, els) => match r_expr(*c, rs) {
            Ok(rs1) => match r_expr(*t, rs1) {
                Ok(rs2) => match els {
                    Some(ee) => r_expr(*ee, rs2),
                    None => Ok(rs2),
                },
                Err(err) => Err(err),
            },
            Err(err) => Err(err),
        },
        ExprM::While(c, b) => match r_expr(*c, rs) {
            Ok(rs1) => match r_expr(
                *b,
                RState { stack: rs1.stack, dmap: rs1.dmap, in_loop: true, in_fun: rs1.in_fun },
            ) {
                Ok(rs2) => Ok(
                    RState {
                        stack: rs2.stack,
                        dmap: rs2.dmap,
                        in_loop: rs1.in_loop,
                        in_fun: rs2.in_fun,
                    },
                ),
                Err(err) => Err(err),
            },
            Err(err) => Err(err),
        },
        ExprM::Loop(b) => match r_expr(
            *b,
            RState { stack: rs.stack, dmap: rs.dmap, in_loop: true, in_fun: rs.in_fun },
        ) {
            Ok(rs2) => Ok(
                RState {
                    stack: rs2.stack,
                    dmap: rs2.dmap,
                    in_loop: rs.in_loop,
                    in_fun: rs2.in_fun,
                },
            ),
            Err(err) => Err(err),
        },
    }
}

/// Resolves expressions `i..` in order (call arguments).
pub open spec fn r_exprs(es: Seq<ExprM>, i: int, rs: RState) -> Result<RState, Error>
    decreases es, es.len() - i,
{
    if i < 0 || i >= es.len() {
        Ok(rs)
    } else {
        match r_expr(es[i], rs) {
            Ok(rs1) => r_exprs(es, i + 1, rs1),
            Err(err) => Err(err),
        }
    }
}

/// Resolves a function body: a fresh scope holding the parameters,
/// inside a function and outside any loop.
pub open spec fn r_fun_body(body: ExprM, ps: Seq<Seq<char>>, rs: RState) -> Result<RState, Error>
    decreases body, 2int,
{
    match body {
        ExprM::Block(ss) => {
            let rs1 = RState {
                stack: r_begin(rs).stack,
                dmap: rs.dmap,
                in_loop: false,
                in_fun: true,
            };
            match r_params(ps, 0, rs1) {
                Ok(rs2) => match r_stmts(ss, 0, rs2) {
                    Ok(rs3) => Ok(
                        RState {
                            stack: r_end(rs3).stack,
                            dmap: rs3.dmap,
                            in_loop: rs.in_loop,
                            in_fun: rs.in_fun,
                        },
                    ),
                    Err(err) => Err(err),
                },
                Err(err) => Err(err),
            }
        },
        _ => Err(Error::TypeError),
    }
}

/// Resolves one statement.
pub open spec fn r_stmt(s: StmtM, rs: RState) -> Result<RState, Error>
    decreases s, 1int,
{
    match s {
        StmtM::Expr(e) => r_expr(e, rs),
        StmtM::Decl(name, init) => match r_declare(rs, name) {
            Some(rs1) => match init {
                Some(e) => match r_expr(e, rs1) {
                    Ok(rs2) => Ok(r_define(rs2, name)),
                    Err(err) => Err(err),
                },
                None => Ok(r_define(rs1, name)),
            },
            None => Err(Error::DuplicateDeclaration),
        },
        StmtM::Assign(name, id, e) => match r_expr(e, rs) {
            Ok(rs1) => Ok(r_resolve_local(rs1, name, id)),
            Err(err) => Err(err),
        },
        StmtM::FunDecl(name, ps, body) => match r_declare(rs, name) {
            Some(rs1) => r_fun_body(body, ps, r_define(rs1, name)),
            None => Err(Error::DuplicateDeclaration),
        },
        StmtM::Ret(e) => if rs.in_fun {
            r_expr(e, rs)
        } else {
            Err(Error::ReturnOutsideFunction)
        },
    }
}

/// Resolves statements `i..` in order.
pub open spec fn r_stmts(ss: Seq<StmtM>, i: int, rs: RState) -> Result<RState, Error>
    decreases ss, ss.len() - i,
{
    if i < 0 || i >= ss.len() {
        Ok(rs)
    } else {
        match r_stmt(ss[i], rs) {
            Ok(rs1) => r_stmts(ss, i + 1, rs1),
            Err(err) => Err(err),
        }
    }
}

/// The state a fresh resolver starts in.
pub open spec fn r_init() -> RState {
    RState { stack: Seq::empty(), dmap: Seq::empty(), in_loop: false, in_fun: false }
}

/// Resolves a whole program: its statements in one fresh scope. On
/// success the distance map drives the evaluator's scope lookups.
pub open spec fn r_program(ss: Seq<StmtM>) -> Result<Seq<(u64, usize)>, Error> {
    match r_stmts(ss, 0, r_begin(r_init())) {
        Ok(rs) => Ok(rs.dmap),
        Err(err) => Err(err),
    }
}

// ---------------------------------------------------------------------
// The executable resolver
// ---------------------------------------------------------------------

/// The image of one static scope.
pub open spec fn rscope_view(v: Seq<(String, bool)>) -> Seq<(Seq<char>, bool)> {
    v.map_values(|p: (String, bool)| (p.0@, p.1))
}

pub struct Resolver {
    pub scope_stack: Vec<Vec<(String, bool)>>,
    pub lex_scope: DistanceMap,
    pub in_loop: bool,
    pub in_fun: bool,
}

impl View for Resolver {
    type V = RState;

    open spec fn view(&self) -> RState {
        RState {
            stack: self.scope_stack@.map_values(|v: Vec<(String, bool)>| rscope_view(v@)),
            dmap: self.lex_scope@,
            in_loop: self.in_loop,
            in_fun: self.in_fun,
        }
    }
}

/// Index of `name` in one static scope, if present.
fn find_name_idx(v: &Vec<(String, bool)>, name: &String) -> (r: Option<usize>)
    ensures
        match r {
            Some(j) => {
                &&& j < v.len()
                &&& rscope_view(v@)[j as int].0 == name@
                &&& assoc_find(rscope_view(v@), name@) == Some(rscope_view(v@)[j as int].1)
                &&& forall|l: int| 0 <= l < j ==> (#[trigger] rscope_view(v@)[l]).0 != name@
            },
            None => assoc_find(rscope_view(v@), name@) is None,
        },
{
    let mut i: usize = 0;
    while i < v.len()
        invariant
            i <= v.len(),
            forall|l: int| 0 <= l < i ==> (#[trigger] rscope_view(v@)[l]).0 != name@,
        decreases v.len() - i,
    {
        if v[i].0 == *name {
            proof {
                lemma_assoc_find_at(rscope_view(v@), name@, i as int);
            }
            return Some(i);
        }
        i += 1;
    }
    proof {
        lemma_assoc_find_none::<Seq<char>, bool>(rscope_view(v@), name@);
    }
    None
}

impl Resolver {
    pub fn new() -> (r: Resolver)
        ensures
            r@ == r_init(),
    {
        let r = Resolver {
            scope_stack: Vec::new(),
            lex_scope: DistanceMap::new(),
            in_loop: false,
            in_fun: false,
        };
        proof {
            assert(r@ =~~= r_init());
        }
        r
    }

    /// Opens a scope.
    pub fn begin_scope(&mut self)
        ensures
            final(self)@ == r_begin(old(self)@),
    {
        self.scope_stack.push(Vec::new());
        proof {
            assert(rscope_view(Seq::<(String, bool)>::empty()) =~= Seq::<(
                Seq<char>,
                bool,
            )>::empty());
            assert(self@ =~~= r_begin(old(self)@));
        }
    }

    /// Closes the innermost scope.
    pub fn end_scope(&mut self)
        ensures
            final(self)@ == r_end(old(self)@),
    {
        let popped = self.scope_stack.pop();
        proof {
            if old(self).scope_stack@.len() > 0 {
                assert(self@.stack =~~= old(self)@.stack.drop_last());
            }
            assert(self@ =~~= r_end(old(self)@));
        }
    }

    /// Declares `name` in the innermost scope; `false` (and an
    /// unchanged state) when it is already declared there.
    pub fn declare(&mut self, name: &String) -> (r: bool)
        ensures
            match r_declare(old(self)@, name@) {
                Some(rs) => r && final(self)@ == rs,
                None => !r && final(self)@ == old(self)@,
            },
    {
        if self.scope_stack.len() == 0 {
            return true;
        }
        let top = self.scope_stack.len() - 1;
        match find_name_idx(&self.scope_stack[top], name) {
            Some(_) => false,
            None => {
                self.scope_stack[top].push((name.clone(), false));
                proof {
                    assert(rscope_view(self.scope_stack@[top as int]@) =~= rscope_view(
                        old(self).scope_stack@[top as int]@,
                    ).push((name@, false)));
                    assert(self@.stack =~~= old(self)@.stack.update(
                        top as int,
                        old(self)@.stack.last().push((name@, false)),
                    ));
                    assert(self@ =~~= r_declare(old(self)@, name@)->Some_0);
                }
                true
            },
        }
    }

    /// Marks `name` defined in the innermost scope.
    pub fn define(&mut self, name: &String)
        ensures
            final(self)@ == r_define(old(self)@, name@),
    {
        if self.scope_stack.len() == 0 {
            return ;
        }
        let top = self.scope_stack.len() - 1;
        match find_name_idx(&self.scope_stack[top], name) {
            Some(j) => {
                let ghost old_top = rscope_view(old(self).scope_stack@[top as int]@);
                self.scope_stack[top][j] = (name.clone(), true);
                proof {
                    lemma_assoc_put_at(old_top, name@, true, j as int);
                    assert(rscope_view(self.scope_stack@[top as int]@) =~= old_top.update(
                        j as int,
                        (name@, true),
                    ));
                    assert(self@.stack =~~= old(self)@.stack.update(
                        top as int,
                        assoc_put(old(self)@.stack.last(), name@, true),
                    ));
                    assert(self@ =~~= r_define(old(self)@, name@));
                }
            },
            None => {
                self.scope_stack[top].push((name.clone(), true));
                proof {
                    assert(rscope_view(self.scope_stack@[top as int]@) =~= rscope_view(
                        old(self).scope_stack@[top as int]@,
                    ).push((name@, true)));
                    assert(self@.stack =~~= old(self)@.stack.update(
                        top as int,
                        old(self)@.stack.last().push((name@, true)),
                    ));
                    assert(self@ =~~= r_define(old(self)@, name@));
                }
            },
        }
    }

    /// Walks the scope stack innermost-to-outermost and records the
    /// hop count for this occurrence; a name held by no scope is left
    /// to the global scope.
    #[verifier::loop_isolation(false)]
    pub fn resolve_local(&mut self, sym: &Symbol)
        ensures
            final(self)@ == r_resolve_local(old(self)@, sym.name@, sym.id),
    {
        let n = self.scope_stack.len();
        let mut d: usize = 0;
        while d < n
            invariant
                d <= n,
                n == self.scope_stack.len(),
                self@ == old(self)@,
                r_depth(old(self)@.stack, sym.name@, 0) == r_depth(
                    old(self)@.stack,
                    sym.name@,
                    d as int,
                ),
            decreases n - d,
        {
            let idx = n - 1 - d;
            match find_name_idx(&self.scope_stack[idx], name_of(sym)) {
                Some(_) => {
                    self.lex_scope.entries.push((sym.id, d));
                    proof {
                        assert(r_depth(old(self)@.stack, sym.name@, d as int) == Some(d as int));
                        assert(self@.dmap =~= old(self)@.dmap.push((sym.id, d)));
                        assert(self@ =~~= r_resolve_local(old(self)@, sym.name@, sym.id));
                    }
                    return ;
                },
                None => {
                    d += 1;
                },
            }
        }
        proof {
            assert(r_depth(old(self)@.stack, sym.name@, n as int) is None);
            assert(self@ =~~= r_resolve_local(old(self)@, sym.name@, sym.id));
        }
    }

    /// Resolves a variable reference.
    pub fn var_expr(&mut self, sym: &Symbol)
        ensures
            final(self)@ == r_resolve_local(old(self)@, sym.name@, sym.id),
    {
        self.resolve_local(sym);
    }

    /// A literal mentions no name: nothing to resolve.
    pub fn literal(&mut self)
        ensures
            *final(self) == *old(self),
    {
    }

    /// Resolves one expression.
    pub fn resolve_expr(&mut self, e: &Expression) -> (r: Result<(), Error>)
        ensures
            match r_expr(expr_view(*e), old(self)@) {
                Ok(rs) => r is Ok && final(self)@ == rs,
                Err(err) => r == Err::<(), Error>(err),
            },
        decreases *e, 1int,
    {
        match e {
            Expression::Literal(_) => {
                self.literal();
                Ok(())
            },
            Expression::BreakExpr => {
                if self.in_loop {
                    Ok(())
                } else {
                    Err(Error::BreakOutsideLoop)
                }
            },
            Expression::ContinueExpr => {
                if self.in_loop {
                    Ok(())
                } else {
                    Err(Error::ContinueOutsideLoop)
                }
            },
            Expression::Grouping(g) => self.resolve_expr(&*g),
            Expression::Unary(_, ex) => self.resolve_expr(&*ex),
            Expression::Binary(l, _, rr) => self.binary(e, l, rr),
            Expression::Logical(l, _, rr) => self.binary(e, l, rr),
            Expression::Ternary(c, a, b) => self.ternary(e, c, a, b),
            Expression::Primary(sym) => {
                self.var_expr(sym);
                Ok(())
            },
            Expression::Call(callee, args) => {
                match self.resolve_expr(&*callee) {
                    Ok(()) => self.call_args(e, args),
                    Err(err) => Err(err),
                }
            },
            Expression::BlockExpr(stmts) => self.block_stmts(e, stmts),
            Expression::IfExpr(c, t, els) => self.if_expr(e, c, t, els),
            Expression::WhileExpr(c, b) => self.while_expr(e, c, b),
            Expression::LoopExpr(b) => self.loop_expr(e, b),
        }
    }

    /// Resolves the two operands of a binary or logical expression.
    fn binary(&mut self, e: &Expression, l: &Box<Expression>, rr: &Box<Expression>) -> (r: Result<
        (),
        Error,
    >)
        requires
            (*e matches Expression::Binary(a, _, b) && *a == **l && *b == **rr) || (
            *e matches Expression::Logical(a, _, b) && *a == **l && *b == **rr),
        ensures
            ({
                let sr = match r_expr(expr_view(**l), old(self)@) {
                    Ok(rs1) => r_expr(expr_view(**rr), rs1),
                    Err(err) => Err(err),
                };
                match sr {
                    Ok(rs) => r is Ok && final(self)@ == rs,
                    Err(err) => r == Err::<(), Error>(err),
                }
            }),
        decreases *e, 0int,
    {
        let a = self.resolve_expr(&*l);
        match a {
            Ok(()) => self.resolve_expr(&*rr),
            Err(err) => Err(err),
        }
    }

    /// Resolves the three limbs of a ternary expression, in order.
    fn ternary(
        &mut self,
        e: &Expression,
        c: &Box<Expression>,
        a: &Box<Expression>,
        b: &Box<Expression>,
    ) -> (r: Result<(), Error>)
        requires
            *e matches Expression::Ternary(x, y, z) && *x == **c && *y == **a && *z == **b,
        ensures
            match r_expr(expr_view(*e), old(self)@) {
                Ok(rs) => r is Ok && final(self)@ == rs,
                Err(err) => r == Err::<(), Error>(err),
            },
        decreases *e, 0int,
    {
        match self.resolve_expr(&*c) {
            Ok(()) => match self.resolve_expr(&*a) {
                Ok(()) => self.resolve_expr(&*b),
                Err(err) => Err(err),
            },
            Err(err) => Err(err),
        }
    }

    /// Resolves an if expression: condition, then branch, else branch.
    fn if_expr(
        &mut self,
        e: &Expression,
        c: &Box<Expression>,
        t: &Box<Expression>,
        els: &Box<Option<Expression>>,
    ) -> (r: Result<(), Error>)
        requires
            *e matches Expression::IfExpr(x, y, z) && *x == **c && *y == **t && *z == **els,
        ensures
            match r_expr(expr_view(*e), old(self)@) {
                Ok(rs) => r is Ok && final(self)@ == rs,
                Err(err) => r == Err::<(), Error>(err),
            },
        decreases *e, 0int,
    {
        match self.resolve_expr(&*c) {
            Ok(()) => match self.resolve_expr(&*t) {
                Ok(()) => match &**els {
                    Some(ee) => self.resolve_expr(ee),
                    None => Ok(()),
                },
                Err(err) => Err(err),
            },
            Err(err) => Err(err),
        }
    }

    /// Resolves a while expression; its body is inside a loop.
    fn while_expr(&mut self, e: &Expression, c: &Box<Expression>, b: &Box<Expression>) -> (r:
        Result<(), Error>)
        requires
            *e matches Expression::WhileExpr(x, y) && *x == **c && *y == **b,
        ensures
            match r_expr(expr_view(*e), old(self)@) {
                Ok(rs) => r is Ok && final(self)@ == rs,
                Err(err) => r == Err::<(), Error>(err),
            },
        decreases *e, 0int,
    {
        match self.resolve_expr(&*c) {
            Ok(()) => {
                let was = self.in_loop;
                self.in_loop = true;
                let r = self.resolve_expr(&*b);
                match r {
                    Ok(()) => {
                        self.in_loop = was;
                        proof {
                            assert(self@ =~~= r_expr(expr_view(*e), old(self)@)->Ok_0);
                        }
                        Ok(())
                    },
                    Err(err) => Err(err),
                }
            },
            Err(err) => Err(err),
        }
    }

    /// Resolves a loop expression; its body is inside a loop.
    fn loop_expr(&mut self, e: &Expression, b: &Box<Expression>) -> (r: Result<(), Error>)
        requires
            *e matches Expression::LoopExpr(y) && *y == **b,
        ensures
            match r_expr(expr_view(*e), old(self)@) {
                Ok(rs) => r is Ok && final(self)@ == rs,
                Err(err) => r == Err::<(), Error>(err),
            },
        decreases *e, 0int,
    {
        let was = self.in_loop;
        self.in_loop = true;
        let r = self.resolve_expr(&*b);
        match r {
            Ok(()) => {
                self.in_loop = was;
                proof {
                    assert(self@ =~~= r_expr(expr_view(*e), old(self)@)->Ok_0);
                }
                Ok(())
            },
            Err(err) => Err(err),
        }
    }

    /// Resolves each argument of the call expression `e`, in order.
    #[verifier::loop_isolation(false)]
    fn call_args(&mut self, e: &Expression, args: &Vec<Expression>) -> (r: Result<(), Error>)
        requires
            *e is Call,
            (*e)->Call_1 == *args,
        ensures
            match r_exprs(exprs_view_from(args@, 0), 0, old(self)@) {
                Ok(rs) => r is Ok && final(self)@ == rs,
                Err(err) => r == Err::<(), Error>(err),
            },
        decreases *e, 0int,
    {
        let ghost ms = exprs_view_from(args@, 0);
        let ghost rs_in = self@;
        proof {
            lemma_exprs_view_index(args@, 0);
        }
        let mut i: usize = 0;
        while i < args.len()
            invariant
                i <= args.len(),
                r_exprs(ms, 0, rs_in) == r_exprs(ms, i as int, self@),
            decreases args.len() - i,
        {
            proof {
                assert(decreases_to!(*e => (*e)->Call_1));
                assert(decreases_to!(*args => args@));
                assert(decreases_to!(args@ => args@[i as int]));
            }
            let a = self.resolve_expr(&args[i]);
            match a {
                Ok(()) => {
                    i += 1;
                },
                Err(err) => {
                    return Err(err);
                },
            }
        }
        Ok(())
    }

    /// Resolves a block's statements in a scope of their own.
    #[verifier::loop_isolation(false)]
    fn block_stmts(&mut self, e: &Expression, stmts: &Vec<Statement>) -> (r: Result<(), Error>)
        requires
            *e is BlockExpr,
            (*e)->BlockExpr_0 == *stmts,
        ensures
            match r_expr(expr_view(*e), old(self)@) {
                Ok(rs) => r is Ok && final(self)@ == rs,
                Err(err) => r == Err::<(), Error>(err),
            },
        decreases *e, 0int,
    {
        self.begin_scope();
        let ghost ms = stmts_view_from(stmts@, 0);
        let ghost rs_in = self@;
        proof {
            lemma_stmts_view_index(stmts@, 0);
        }
        let mut i: usize = 0;
        while i < stmts.len()
            invariant
                i <= stmts.len(),
                r_stmts(ms, 0, rs_in) == r_stmts(ms, i as int, self@),
            decreases stmts.len() - i,
        {
            proof {
                assert(decreases_to!(*e => (*e)->BlockExpr_0));
                assert(decreases_to!(*stmts => stmts@));
                assert(decreases_to!(stmts@ => stmts@[i as int]));
            }
            let a = self.resolve_stmt(&stmts[i]);
            match a {
                Ok(()) => {
                    i += 1;
                },
                Err(err) => {
                    return Err(err);
                },
            }
        }
        self.end_scope();
        Ok(())
    }

    /// Resolves a block expression: its own scope around its
    /// statements.
    pub fn block_expr(&mut self, block: &Expression) -> (r: Result<(), Error>)
        requires
            *block is BlockExpr,
        ensures
            match r_expr(expr_view(*block), old(self)@) {
                Ok(rs) => r is Ok && final(self)@ == rs,
                Err(err) => r == Err::<(), Error>(err),
            },
    {
        match block {
            Expression::BlockExpr(stmts) => self.block_stmts(block, stmts),
            _ => Err(Error::TypeError),
        }
    }

    /// Resolves a variable declaration: declare, resolve the
    /// initializer (which cannot yet see the name as local), define.
    pub fn decl_stmt(&mut self, sym: &Symbol, init: &Option<Expression>) -> (r: Result<(), Error>)
        ensures
            match r_stmt(
                StmtM::Decl(
                    sym.name@,
                    match init {
                        Some(e) => Some(expr_view(*e)),
                        None => None,
                    },
                ),
                old(self)@,
            ) {
                Ok(rs) => r is Ok && final(self)@ == rs,
                Err(err) => r == Err::<(), Error>(err),
            },
        decreases *init, 2int,
    {
        if !self.declare(&sym.name) {
            return Err(Error::DuplicateDeclaration);
        }
        match init {
            Some(e) => {
                let a = self.resolve_expr(e);
                match a {
                    Ok(()) => {
                        self.define(&sym.name);
                        Ok(())
                    },
                    Err(err) => Err(err),
                }
            },
            None => {
                self.define(&sym.name);
                Ok(())
            },
        }
    }

    /// Resolves one statement.
    #[verifier::loop_isolation(false)]
    pub fn resolve_stmt(&mut self, s: &Statement) -> (r: Result<(), Error>)
        ensures
            match r_stmt(stmt_view(*s), old(self)@) {
                Ok(rs) => r is Ok && final(self)@ == rs,
                Err(err) => r == Err::<(), Error>(err),
            },
        decreases *s, 1int,
    {
        match s {
            Statement::Expression(e) => self.resolve_expr(e),
            Statement::Declaration(sym, init) => self.decl_stmt(sym, init),
            Statement::Assignment(sym, e) => {
                let a = self.resolve_expr(e);
                match a {
                    Ok(()) => {
                        self.resolve_local(sym);
                        Ok(())
                    },
                    Err(err) => Err(err),
                }
            },
            Statement::FuncDclaration(name, params, body) => {
                if !self.declare(&name.name) {
                    return Err(Error::DuplicateDeclaration);
                }
                self.define(&name.name);
                self.function_body(body, params)
            },
            Statement::Return(e) => {
                if self.in_fun {
                    self.resolve_expr(e)
                } else {
                    Err(Error::ReturnOutsideFunction)
                }
            },
        }
    }

    /// Resolves a function body: parameters declared and defined in a
    /// fresh scope, inside a function and outside any loop.
    #[verifier::loop_isolation(false)]
    fn function_body(&mut self, body: &Expression, params: &Vec<Symbol>) -> (r: Result<(), Error>)
        ensures
            match r_fun_body(expr_view(*body), crate::semantics::params_view(params@), old(self)@) {
                Ok(rs) => r is Ok && final(self)@ == rs,
                Err(err) => r == Err::<(), Error>(err),
            },
        decreases *body, 0int,
    {
        match body {
            Expression::BlockExpr(stmts) => {
                let was_loop = self.in_loop;
                let was_fun = self.in_fun;
                self.begin_scope();
                self.in_loop = false;
                self.in_fun = true;
                let ghost ps = crate::semantics::params_view(params@);
                let ghost rs1 = self@;
                let mut k: usize = 0;
                while k < params.len()
                    invariant
                        k <= params.len(),
                        r_params(ps, 0, rs1) == r_params(ps, k as int, self@),
                    decreases params.len() - k,
                {
                    let okd = self.declare(&params[k].name);
                    if !okd {
                        return Err(Error::DuplicateDeclaration);
                    }
                    self.define(&params[k].name);
                    k += 1;
                }
                let ghost ms = stmts_view_from(stmts@, 0);
                let ghost rs2 = self@;
                proof {
                    lemma_stmts_view_index(stmts@, 0);
                }
                let mut i: usize = 0;
                while i < stmts.len()
                    invariant
                        i <= stmts.len(),
                        r_stmts(ms, 0, rs2) == r_stmts(ms, i as int, self@),
                    decreases stmts.len() - i,
                {
                    proof {
                        assert(decreases_to!(*body => (*body)->BlockExpr_0));
                        assert(decreases_to!(*stmts => stmts@));
                        assert(decreases_to!(stmts@ => stmts@[i as int]));
                    }
                    let a = self.resolve_stmt(&stmts[i]);
                    match a {
                        Ok(()) => {
                            i += 1;
                        },
                        Err(err) => {
                            return Err(err);
                        },
                    }
                }
                self.end_scope();
                self.in_loop = was_loop;
                self.in_fun = was_fun;
                proof {
                    assert(self@ =~~= r_fun_body(
                        expr_view(*body),
                        crate::semantics::params_view(params@),
                        old(self)@,
                    )->Ok_0);
                }
                Ok(())
            },
            _ => Err(Error::TypeError),
        }
    }

    /// Resolves statements in order.
    #[verifier::loop_isolation(false)]
    pub fn resolve_stmts(&mut self, stmts: &Vec<Statement>) -> (r: Result<(), Error>)
        ensures
            match r_stmts(stmts_view_from(stmts@, 0), 0, old(self)@) {
                Ok(rs) => r is Ok && final(self)@ == rs,
                Err(err) => r == Err::<(), Error>(err),
            },
        decreases stmts@, 2int,
    {
        let ghost ms = stmts_view_from(stmts@, 0);
        let ghost rs_in = self@;
        proof {
            lemma_stmts_view_index(stmts@, 0);
        }
        let mut i: usize = 0;
        while i < stmts.len()
            invariant
                i <= stmts.len(),
                r_stmts(ms, 0, rs_in) == r_stmts(ms, i as int, self@),
            decreases stmts.len() - i,
        {
            proof {
                assert(decreases_to!(stmts@ => stmts@[i as int]));
            }
            let a = self.resolve_stmt(&stmts[i]);
            match a {
                Ok(()) => {
                    i += 1;
                },
                Err(err) => {
                    return Err(err);
                },
            }
        }
        Ok(())
    }

    /// Resolves a whole program. On success `lex_scope` holds the
    /// distance map the evaluator consumes.
    pub fn resolve(&mut self, stmts: &Vec<Statement>) -> (r: Result<(), Error>)
        requires
            old(self)@ == r_init(),
        ensures
            match r_program(stmts_view_from(stmts@, 0)) {
                Ok(dmap) => r is Ok && final(self).lex_scope@ == dmap,
                Err(err) => r == Err::<(), Error>(err),
            },
    {
        self.begin_scope();
        let a = self.resolve_stmts(stmts);
        match a {
            Ok(()) => {
                self.end_scope();
                Ok(())
            },
            Err(err) => Err(err),
        }
    }
}

/// The name of a symbol (a borrow helper for loops).
fn name_of(sym: &Symbol) -> (r: &String)
    ensures
        r@ == sym.name@,
{
    &sym.name
}

} // verus!

//! Whole-program behaviour: the resolver followed by the evaluator,
//! with scoping, closures, control flow and recursion.

use scrlt::expression::{Expression, Symbol};
use scrlt::interpreter::{Error, Interpreter};
use scrlt::resolver::Resolver;
use scrlt::statement::Statement;
use scrlt::token::{Literal, TokenType};

fn num(n: i64) -> Expression {
    Expression::Literal(Literal::Number(n))
}

fn boolean(b: bool) -> Expression {
    Expression::Literal(if b { Literal::True } else { Literal::False })
}

fn text(s: &str) -> Expression {
    Expression::Literal(Literal::Str(s.to_string()))
}

fn sym(name: &str, id: u64) -> Symbol {
    Symbol { name: name.to_string(), id }
}

fn var(name: &str, id: u64) -> Expression {
    Expression::Primary(sym(name, id))
}

fn bin(l: Expression, op: TokenType, r: Expression) -> Expression {
    Expression::Binary(Box::new(l), op, Box::new(r))
}

fn call(callee: Expression, args: Vec<Expression>) -> Expression {
    Expression::Call(Box::new(callee), args)
}

fn block(stmts: Vec<Statement>) -> Expression {
    Expression::BlockExpr(stmts)
}

fn if_no_else(c: Expression, t: Expression) -> Expression {
    Expression::IfExpr(Box::new(c), Box::new(t), Box::new(None))
}

fn if_else(c: Expression, t: Expression, e: Expression) -> Expression {
    Expression::IfExpr(Box::new(c), Box::new(t), Box::new(Some(e)))
}

fn while_loop(c: Expression, b: Expression) -> Expression {
    Expression::WhileExpr(Box::new(c), Box::new(b))
}

fn let_stmt(name: &str, id: u64, init: Expression) -> Statement {
    Statement::Declaration(sym(name, id), Some(init))
}

fn assign(name: &str, id: u64, e: Expression) -> Statement {
    Statement::Assignment(sym(name, id), e)
}

fn expr(e: Expression) -> Statement {
    Statement::Expression(e)
}

fn println_of(id: u64, e: Expression) -> Statement {
    expr(call(var("println", id), vec![e]))
}

/// Resolves and runs a program; panics if resolution fails.
fn run(stmts: Vec<Statement>) -> (Result<(), Error>, Vec<String>) {
    let mut r = Resolver::new();
    r.resolve(&stmts).expect("the program resolves");
    let mut it = Interpreter::new(r.lex_scope);
    let res = it.interp(&stmts, 1_000_000);
    (res, it.output)
}

/// Resolves a program and returns the resolver's verdict.
fn resolve_only(stmts: Vec<Statement>) -> Result<(), Error> {
    let mut r = Resolver::new();
    r.resolve(&stmts)
}

#[test]
fn declaration_and_lookup() {
    let prog = vec![
        let_stmt("x", 1, num(41)),
        println_of(2, bin(var("x", 3), TokenType::Plus, num(1))),
    ];
    let (res, out) = run(prog);
    assert_eq!(res, Ok(()));
    assert_eq!(out, vec!["42\n".to_string()]);
}

#[test]
fn assignment_updates_binding() {
    let prog = vec![
        let_stmt("x", 1, num(1)),
        assign("x", 2, num(5)),
        println_of(3, var("x", 4)),
    ];
    let (res, out) = run(prog);
    assert_eq!(res, Ok(()));
    assert_eq!(out, vec!["5\n".to_string()]);
}

#[test]
fn assignment_never_creates_a_binding() {
    let prog = vec![assign("ghostly", 1, num(3))];
    let (res, _) = run(prog);
    assert_eq!(res, Err(Error::UnboundVariable));
}

#[test]
fn shadowing_does_not_leak_outward() {
    // let x = 1; { let x = 2; println(x); } println(x);
    let prog = vec![
        let_stmt("x", 1, num(1)),
        expr(block(vec![let_stmt("x", 2, num(2)), println_of(3, var("x", 4))])),
        println_of(5, var("x", 6)),
    ];
    let (res, out) = run(prog);
    assert_eq!(res, Ok(()));
    assert_eq!(out, vec!["2\n".to_string(), "1\n".to_string()]);
}

#[test]
fn redeclaration_in_one_scope_is_rejected_before_running() {
    // let x = 1; let x = 2;  — the resolver refuses, nothing runs
    let prog = vec![let_stmt("x", 1, num(1)), let_stmt("x", 2, num(2))];
    assert_eq!(resolve_only(prog), Err(Error::DuplicateDeclaration));
}

#[test]
fn redeclaration_in_nested_scope_is_fine() {
    let prog = vec![
        let_stmt("x", 1, num(1)),
        expr(block(vec![let_stmt("x", 2, num(2))])),
    ];
    assert_eq!(resolve_only(prog), Ok(()));
}

#[test]
fn closures_share_the_captured_binding() {
    // let c = 0; fun inc() { c = c + 1; return c; }
    // println(inc()); println(inc()); println(inc());   => 1 2 3
    let body = block(vec![
        assign("c", 10, bin(var("c", 11), TokenType::Plus, num(1))),
        Statement::Return(var("c", 12)),
    ]);
    let prog = vec![
        let_stmt("c", 1, num(0)),
        Statement::FuncDclaration(sym("inc", 2), vec![], body),
        println_of(20, call(var("inc", 21), vec![])),
        println_of(22, call(var("inc", 23), vec![])),
        println_of(24, call(var("inc", 25), vec![])),
    ];
    let (res, out) = run(prog);
    assert_eq!(res, Ok(()));
    assert_eq!(out, vec!["1\n".to_string(), "2\n".to_string(), "3\n".to_string()]);
}

#[test]
fn break_exits_only_the_nearest_loop() {
    // let i = 0;
    // while i < 2 { while true { if true { break; } }; i = i + 1; }
    // println(i);   => 2
    let inner = while_loop(
        boolean(true),
        block(vec![expr(if_no_else(boolean(true), block(vec![expr(
            Expression::BreakExpr,
        )])))]),
    );
    let outer_body = block(vec![
        expr(inner),
        assign("i", 10, bin(var("i", 11), TokenType::Plus, num(1))),
    ]);
    let prog = vec![
        let_stmt("i", 1, num(0)),
        expr(while_loop(bin(var("i", 2), TokenType::Less, num(2)), outer_body)),
        println_of(3, var("i", 4)),
    ];
    let (res, out) = run(prog);
    assert_eq!(res, Ok(()));
    assert_eq!(out, vec!["2\n".to_string()]);
}

#[test]
fn loop_runs_until_break() {
    // let i = 0; loop { i = i + 1; if i == 3 { break; } }; println(i);
    let body = block(vec![
        assign("i", 10, bin(var("i", 11), TokenType::Plus, num(1))),
        expr(if_no_else(
            bin(var("i", 12), TokenType::Equality, num(3)),
            block(vec![expr(Expression::BreakExpr)]),
        )),
    ]);
    let prog = vec![
        let_stmt("i", 1, num(0)),
        expr(Expression::LoopExpr(Box::new(body))),
        println_of(2, var("i", 3)),
    ];
    let (res, out) = run(prog);
    assert_eq!(res, Ok(()));
    assert_eq!(out, vec!["3\n".to_string()]);
}

#[test]
fn continue_skips_to_the_next_iteration() {
    // let i = 0; let s = 0;
    // while i < 5 { i = i + 1; if i == 2 { continue; }; s = s + i; }
    // println(s);   => 1 + 3 + 4 + 5 = 13
    let body = block(vec![
        assign("i", 10, bin(var("i", 11), TokenType::Plus, num(1))),
        expr(if_no_else(
            bin(var("i", 12), TokenType::Equality, num(2)),
            block(vec![expr(Expression::ContinueExpr)]),
        )),
        assign("s", 13, bin(var("s", 14), TokenType::Plus, var("i", 15))),
    ]);
    let prog = vec![
        let_stmt("i", 1, num(0)),
        let_stmt("s", 2, num(0)),
        expr(while_loop(bin(var("i", 3), TokenType::Less, num(5)), body)),
        println_of(4, var("s", 5)),
    ];
    let (res, out) = run(prog);
    assert_eq!(res, Ok(()));
    assert_eq!(out, vec!["13\n".to_string()]);
}

#[test]
fn while_sums_a_range() {
    let body = block(vec![
        assign("s", 10, bin(var("s", 11), TokenType::Plus, var("i", 12))),
        assign("i", 13, bin(var("i", 14), TokenType::Plus, num(1))),
    ]);
    let prog = vec![
        let_stmt("i", 1, num(0)),
        let_stmt("s", 2, num(0)),
        expr(while_loop(bin(var("i", 3), TokenType::Less, num(5)), body)),
        println_of(4, var("s", 5)),
    ];
    let (res, out) = run(prog);
    assert_eq!(res, Ok(()));
    assert_eq!(out, vec!["10\n".to_string()]);
}

#[test]
fn return_unwinds_nested_blocks() {
    // fun f() { { { return 42; } }; println("no"); } println(f());
    let body = block(vec![
        expr(block(vec![expr(block(vec![Statement::Return(num(42))]))])),
        println_of(10, text("no")),
    ]);
    let prog = vec![
        Statement::FuncDclaration(sym("f", 1), vec![], body),
        println_of(2, call(var("f", 3), vec![])),
    ];
    let (res, out) = run(prog);
    assert_eq!(res, Ok(()));
    assert_eq!(out, vec!["42\n".to_string()]);
}

#[test]
fn recursion_computes_factorial() {
    // fun fact(n) { if n <= 1 { 1 } else { n * fact(n - 1) } }
    // println(fact(5));   => 120
    let fact_body = block(vec![expr(if_else(
        bin(var("n", 10), TokenType::LessEqual, num(1)),
        block(vec![expr(num(1))]),
        block(vec![expr(bin(
            var("n", 11),
            TokenType::Aster,
            call(var("fact", 12), vec![bin(var("n", 13), TokenType::Minus, num(1))]),
        ))]),
    ))]);
    let prog = vec![
        Statement::FuncDclaration(sym("fact", 1), vec![sym("n", 2)], fact_body),
        println_of(3, call(var("fact", 4), vec![num(5)])),
    ];
    let (res, out) = run(prog);
    assert_eq!(res, Ok(()));
    assert_eq!(out, vec!["120\n".to_string()]);
}

#[test]
fn function_yields_its_last_expression_without_return() {
    let body = block(vec![expr(bin(var("a", 10), TokenType::Plus, var("b", 11)))]);
    let prog = vec![
        Statement::FuncDclaration(sym("add2", 1), vec![sym("a", 2), sym("b", 3)], body),
        println_of(4, call(var("add2", 5), vec![num(2), num(3)])),
    ];
    let (res, out) = run(prog);
    assert_eq!(res, Ok(()));
    assert_eq!(out, vec!["5\n".to_string()]);
}

#[test]
fn call_with_wrong_arity_fails() {
    let body = block(vec![expr(var("a", 10))]);
    let prog = vec![
        Statement::FuncDclaration(sym("one", 1), vec![sym("a", 2)], body),
        expr(call(var("one", 3), vec![num(1), num(2)])),
    ];
    let (res, _) = run(prog);
    assert_eq!(res, Err(Error::ArityMismatch));
}

#[test]
fn break_outside_a_loop_is_rejected_statically() {
    let prog = vec![expr(Expression::BreakExpr)];
    assert_eq!(resolve_only(prog), Err(Error::BreakOutsideLoop));
}

#[test]
fn continue_outside_a_loop_is_rejected_statically() {
    let prog = vec![expr(Expression::ContinueExpr)];
    assert_eq!(resolve_only(prog), Err(Error::ContinueOutsideLoop));
}

#[test]
fn return_outside_a_function_is_rejected_statically() {
    let prog = vec![Statement::Return(num(1))];
    assert_eq!(resolve_only(prog), Err(Error::ReturnOutsideFunction));
}

#[test]
fn break_inside_function_inside_loop_is_rejected() {
    // a function body is outside any enclosing loop
    let body = block(vec![expr(Expression::BreakExpr)]);
    let prog = vec![expr(while_loop(
        boolean(true),
        block(vec![Statement::FuncDclaration(sym("f", 1), vec![], body)]),
    ))];
    assert_eq!(resolve_only(prog), Err(Error::BreakOutsideLoop));
}

#[test]
fn block_yields_its_last_expression_value() {
    let prog = vec![println_of(1, block(vec![expr(num(1)), expr(num(2))]))];
    let (res, out) = run(prog);
    assert_eq!(res, Ok(()));
    assert_eq!(out, vec!["2\n".to_string()]);
}

#[test]
fn empty_block_yields_nil() {
    let prog = vec![println_of(1, block(vec![]))];
    let (res, out) = run(prog);
    assert_eq!(res, Ok(()));
    assert_eq!(out, vec!["Nil\n".to_string()]);
}

#[test]
fn block_ending_in_declaration_yields_nil() {
    let prog = vec![println_of(1, block(vec![expr(num(7)), let_stmt("q", 2, num(1))]))];
    let (res, out) = run(prog);
    assert_eq!(res, Ok(()));
    assert_eq!(out, vec!["Nil\n".to_string()]);
}

#[test]
fn deep_recursion_exhausts_fuel_not_the_host() {
    // fun f() { return f(); } f();
    let body = block(vec![Statement::Return(call(var("f", 10), vec![]))]);
    let prog = vec![
        Statement::FuncDclaration(sym("f", 1), vec![], body),
        expr(call(var("f", 2), vec![])),
    ];
    let mut r = Resolver::new();
    r.resolve(&prog).expect("the program resolves");
    let mut it = Interpreter::new(r.lex_scope);
    assert_eq!(it.interp(&prog, 5_000), Err(Error::StackExhausted));
}

#[test]
fn declaration_without_initializer_is_nil() {
    let prog = vec![
        Statement::Declaration(sym("x", 1), None),
        println_of(2, var("x", 3)),
    ];
    let (res, out) = run(prog);
    assert_eq!(res, Ok(()));
    assert_eq!(out, vec!["Nil\n".to_string()]);
}

#[test]
fn if_condition_must_be_boolean() {
    let prog = vec![expr(if_no_else(num(1), block(vec![])))];
    let (res, _) = run(prog);
    assert_eq!(res, Err(Error::TypeError));
}

#[test]
fn duplicate_parameter_names_are_rejected() {
    let body = block(vec![expr(var("a", 10))]);
    let prog = vec![Statement::FuncDclaration(
        sym("f", 1),
        vec![sym("a", 2), sym("a", 3)],
        body,
    )];
    assert_eq!(resolve_only(prog), Err(Error::DuplicateDeclaration));
}

#[test]
fn two_references_to_one_closure_share_state() {
    // let c = 0; fun inc() { c = c + 1; return c; }
    // let other = inc; println(inc()); println(other());   => 1 2
    let body = block(vec![
        assign("c", 10, bin(var("c", 11), TokenType::Plus, num(1))),
        Statement::Return(var("c", 12)),
    ]);
    let prog = vec![
        let_stmt("c", 1, num(0)),
        Statement::FuncDclaration(sym("inc", 2), vec![], body),
        let_stmt("other", 3, var("inc", 4)),
        println_of(20, call(var("inc", 21), vec![])),
        println_of(22, call(var("other", 23), vec![])),
    ];
    let (res, out) = run(prog);
    assert_eq!(res, Ok(()));
    assert_eq!(out, vec!["1\n".to_string(), "2\n".to_string()]);
}

#[test]
fn unresolved_assignment_falls_back_to_the_global_scope() {
    // a name held only by the global scope can be assigned to
    let prog = vec![
        assign("pow", 1, num(7)),
        println_of(2, var("pow", 3)),
    ];
    let (res, out) = run(prog);
    assert_eq!(res, Ok(()));
    assert_eq!(out, vec!["7\n".to_string()]);
}

#[test]
fn finished_loops_yield_nil() {
    // a while whose condition is false and a loop ended by break both yield Nil
    let prog = vec![
        println_of(1, while_loop(boolean(false), block(vec![]))),
        println_of(
            2,
            Expression::LoopExpr(Box::new(block(vec![expr(Expression::BreakExpr)]))),
        ),
    ];
    let (res, out) = run(prog);
    assert_eq!(res, Ok(()));
    assert_eq!(out, vec!["Nil\n".to_string(), "Nil\n".to_string()]);
}

#[test]
fn outer_binding_mutated_inside_a_block_stays_mutated() {
    // assignment (unlike declaration) does reach outward
    let prog = vec![
        let_stmt("x", 1, num(1)),
        expr(block(vec![assign("x", 2, num(9))])),
        println_of(3, var("x", 4)),
    ];
    let (res, out) = run(prog);
    assert_eq!(res, Ok(()));
    assert_eq!(out, vec!["9\n".to_string()]);
}

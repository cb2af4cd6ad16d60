//! Expression-level behaviour: operators, natives, display text.

use scrlt::expression::{Expression, Symbol};
use scrlt::interpreter::{Error, Interpreter, Outcome, Value};
use scrlt::resolver::DistanceMap;
use scrlt::token::{Literal, TokenType};

fn num(n: i64) -> Expression {
    Expression::Literal(Literal::Number(n))
}

fn boolean(b: bool) -> Expression {
    Expression::Literal(if b { Literal::True } else { Literal::False })
}

fn text(s: &str) -> Expression {
    Expression::Literal(Literal::Str(s.to_string()))
}

fn bin(l: Expression, op: TokenType, r: Expression) -> Expression {
    Expression::Binary(Box::new(l), op, Box::new(r))
}

fn logical(l: Expression, op: TokenType, r: Expression) -> Expression {
    Expression::Logical(Box::new(l), op, Box::new(r))
}

fn var(name: &str, id: u64) -> Expression {
    Expression::Primary(Symbol { name: name.to_string(), id })
}

fn call(callee: Expression, args: Vec<Expression>) -> Expression {
    Expression::Call(Box::new(callee), args)
}

fn eval(e: &Expression) -> Result<Outcome, Error> {
    let mut it = Interpreter::new(DistanceMap::new());
    it.interp_expression(e, 10_000)
}

fn eval_num(e: &Expression) -> i64 {
    match eval(e) {
        Ok(Outcome::Normal(Value::Number(n))) => n,
        other => panic!("expected a number, got {:?}", other),
    }
}

fn eval_bool(e: &Expression) -> bool {
    match eval(e) {
        Ok(Outcome::Normal(Value::Bool(b))) => b,
        other => panic!("expected a boolean, got {:?}", other),
    }
}

fn eval_str(e: &Expression) -> String {
    match eval(e) {
        Ok(Outcome::Normal(Value::Str(s))) => s,
        other => panic!("expected a string, got {:?}", other),
    }
}

fn eval_err(e: &Expression) -> Error {
    match eval(e) {
        Err(err) => err,
        other => panic!("expected an error, got {:?}", other),
    }
}

#[test]
fn arithmetic_precedence_in_tree() {
    // 2 + 3 * 4 == 14 (the parser builds the tree; here it is direct)
    let e = bin(num(2), TokenType::Plus, bin(num(3), TokenType::Aster, num(4)));
    assert_eq!(eval_num(&e), 14);
}

#[test]
fn subtraction_and_negation() {
    let e = bin(num(5), TokenType::Minus, num(9));
    assert_eq!(eval_num(&e), -4);
    let neg = Expression::Unary(TokenType::Minus, Box::new(num(7)));
    assert_eq!(eval_num(&neg), -7);
}

#[test]
fn division_truncates_toward_zero() {
    assert_eq!(eval_num(&bin(num(7), TokenType::Slash, num(2))), 3);
    assert_eq!(eval_num(&bin(num(-7), TokenType::Slash, num(2))), -3);
    assert_eq!(eval_num(&bin(num(7), TokenType::Slash, num(-2))), -3);
}

#[test]
fn division_by_zero_fails() {
    assert_eq!(eval_err(&bin(num(7), TokenType::Slash, num(0))), Error::DivisionByZero);
    assert_eq!(eval_err(&bin(num(0), TokenType::Slash, num(0))), Error::DivisionByZero);
}

#[test]
fn arithmetic_overflow_is_reported() {
    let e = bin(num(i64::MAX), TokenType::Plus, num(1));
    assert_eq!(eval_err(&e), Error::NumericOverflow);
    let d = bin(num(i64::MIN), TokenType::Slash, num(-1));
    assert_eq!(eval_err(&d), Error::NumericOverflow);
    let m = Expression::Unary(TokenType::Minus, Box::new(num(i64::MIN)));
    assert_eq!(eval_err(&m), Error::NumericOverflow);
}

#[test]
fn plus_concatenates_strings() {
    assert_eq!(eval_str(&bin(text("foo"), TokenType::Plus, text("bar"))), "foobar");
    assert_eq!(eval_str(&bin(text("x"), TokenType::Plus, num(3))), "x3");
    assert_eq!(eval_str(&bin(text("n="), TokenType::Plus, num(-42))), "n=-42");
}

#[test]
fn equality_within_one_type_only() {
    assert!(eval_bool(&bin(num(3), TokenType::Equality, num(3))));
    assert!(!eval_bool(&bin(num(3), TokenType::Equality, num(4))));
    assert!(eval_bool(&bin(boolean(true), TokenType::Equality, boolean(true))));
    assert!(eval_bool(&bin(num(3), TokenType::NotEqual, num(4))));
    assert_eq!(
        eval_err(&bin(num(3), TokenType::Equality, text("3"))),
        Error::TypeError
    );
    assert_eq!(
        eval_err(&bin(boolean(true), TokenType::Equality, num(1))),
        Error::TypeError
    );
}

#[test]
fn comparisons_need_numbers() {
    assert!(eval_bool(&bin(num(2), TokenType::Less, num(3))));
    assert!(eval_bool(&bin(num(3), TokenType::LessEqual, num(3))));
    assert!(eval_bool(&bin(num(4), TokenType::Greater, num(3))));
    assert!(eval_bool(&bin(num(3), TokenType::GreaterEqual, num(3))));
    assert_eq!(
        eval_err(&bin(text("a"), TokenType::Less, text("b"))),
        Error::TypeError
    );
}

#[test]
fn unary_type_errors() {
    let e = Expression::Unary(TokenType::Minus, Box::new(boolean(true)));
    assert_eq!(eval_err(&e), Error::TypeError);
    let n = Expression::Unary(TokenType::Not, Box::new(num(1)));
    assert_eq!(eval_err(&n), Error::TypeError);
}

#[test]
fn not_negates_booleans() {
    let e = Expression::Unary(TokenType::Not, Box::new(boolean(false)));
    assert!(eval_bool(&e));
}

#[test]
fn and_short_circuits_on_false() {
    // `false and sideEffect()` never evaluates `sideEffect`
    let e = logical(boolean(false), TokenType::And, call(var("sideEffect", 1), vec![]));
    assert!(!eval_bool(&e));
}

#[test]
fn or_short_circuits_on_true() {
    // `true or sideEffect()` never evaluates `sideEffect`
    let e = logical(boolean(true), TokenType::Or, call(var("sideEffect", 1), vec![]));
    assert!(eval_bool(&e));
}

#[test]
fn logical_needs_booleans() {
    let e = logical(num(1), TokenType::And, boolean(true));
    assert_eq!(eval_err(&e), Error::TypeError);
}

#[test]
fn and_and_or_full_tables() {
    for (a, b, want) in [(true, true, true), (true, false, false), (false, true, false)] {
        assert_eq!(eval_bool(&logical(boolean(a), TokenType::And, boolean(b))), want);
    }
    for (a, b, want) in [(false, false, false), (false, true, true), (true, false, true)] {
        assert_eq!(eval_bool(&logical(boolean(a), TokenType::Or, boolean(b))), want);
    }
}

#[test]
fn ternary_takes_one_branch_only() {
    // `true ? 1 : sideEffect()` never evaluates `sideEffect`
    let e = Expression::Ternary(
        Box::new(boolean(true)),
        Box::new(num(1)),
        Box::new(call(var("sideEffect", 1), vec![])),
    );
    assert_eq!(eval_num(&e), 1);
    let f = Expression::Ternary(
        Box::new(boolean(false)),
        Box::new(call(var("sideEffect", 2), vec![])),
        Box::new(num(9)),
    );
    assert_eq!(eval_num(&f), 9);
}

#[test]
fn ternary_condition_must_be_boolean() {
    let e = Expression::Ternary(Box::new(num(1)), Box::new(num(2)), Box::new(num(3)));
    assert_eq!(eval_err(&e), Error::TypeError);
}

#[test]
fn unbound_variable_is_reported() {
    assert_eq!(eval_err(&var("nothing", 7)), Error::UnboundVariable);
}

#[test]
fn native_pow_min_max_abs() {
    assert_eq!(eval_num(&call(var("pow", 1), vec![num(2), num(10)])), 1024);
    assert_eq!(eval_num(&call(var("pow", 2), vec![num(5), num(0)])), 1);
    assert_eq!(eval_num(&call(var("min", 3), vec![num(3), num(-4)])), -4);
    assert_eq!(eval_num(&call(var("max", 4), vec![num(3), num(-4)])), 3);
    assert_eq!(eval_num(&call(var("abs", 5), vec![num(-5)])), 5);
    assert_eq!(eval_num(&call(var("abs", 6), vec![num(5)])), 5);
}

#[test]
fn native_argument_errors() {
    assert_eq!(
        eval_err(&call(var("pow", 1), vec![num(2), num(-1)])),
        Error::NativeArgumentError
    );
    assert_eq!(
        eval_err(&call(var("abs", 2), vec![text("a")])),
        Error::NativeArgumentError
    );
    assert_eq!(eval_err(&call(var("pow", 3), vec![num(2)])), Error::ArityMismatch);
    assert_eq!(
        eval_err(&call(var("abs", 4), vec![num(i64::MIN)])),
        Error::NumericOverflow
    );
    assert_eq!(
        eval_err(&call(var("pow", 5), vec![num(2), num(64)])),
        Error::NumericOverflow
    );
}

#[test]
fn calling_a_number_is_a_type_error() {
    assert_eq!(eval_err(&call(num(3), vec![])), Error::TypeError);
}

#[test]
fn print_and_println_format_values() {
    let mut it = Interpreter::new(DistanceMap::new());
    let cases: Vec<(Expression, &str)> = vec![
        (num(0), "0"),
        (num(12345), "12345"),
        (num(-5), "-5"),
        (num(i64::MIN), "-9223372036854775808"),
        (text("raw"), "raw"),
        (boolean(true), "true"),
        (boolean(false), "false"),
        (Expression::Literal(Literal::Nil), "Nil"),
    ];
    let n = cases.len();
    for (i, (e, _)) in cases.iter().enumerate() {
        let p = call(var("print", 100 + i as u64), vec![scrlt::astdup::clone_expr(e)]);
        it.interp_expression(&p, 10_000).unwrap();
    }
    assert_eq!(it.output.len(), n);
    for (i, (_, want)) in cases.iter().enumerate() {
        assert_eq!(it.output[i], *want);
    }
    let p = call(var("println", 200), vec![num(7)]);
    it.interp_expression(&p, 10_000).unwrap();
    assert_eq!(it.output[n], "7\n");
}

#[test]
fn fuel_runs_out_as_stack_exhausted() {
    let e = bin(num(1), TokenType::Plus, num(2));
    let mut it = Interpreter::new(DistanceMap::new());
    assert_eq!(
        match it.interp_expression(&e, 1) {
            Err(err) => err,
            other => panic!("expected an error, got {:?}", other),
        },
        Error::StackExhausted
    );
}

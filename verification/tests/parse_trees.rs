// Parser tests on the shape of the returned trees and on reported error
// positions.

use mevac::ast::{Args, BinOp, Error, Expr, UnOp};
use mevac::parser::parse;

fn num(t: &str) -> Box<Expr<Vec<u8>>> {
    Box::new(Expr::Num(t.as_bytes().to_vec()))
}

fn var(n: &str) -> Box<Expr<Vec<u8>>> {
    Box::new(Expr::Var(n.as_bytes().to_vec()))
}

#[test]
fn product_binds_tighter_than_sum() {
    let got = parse(b"2+3*4").unwrap();
    let want = Expr::Bin(
        BinOp::Add,
        num("2"),
        Box::new(Expr::Bin(BinOp::Mul, num("3"), num("4"))),
    );
    assert_eq!(got, want);
}

#[test]
fn parentheses_override_precedence() {
    let got = parse(b"(2+3)*4").unwrap();
    let want = Expr::Bin(
        BinOp::Mul,
        Box::new(Expr::Bin(BinOp::Add, num("2"), num("3"))),
        num("4"),
    );
    assert_eq!(got, want);
}

#[test]
fn power_is_right_associative() {
    let got = parse(b"2^3^2").unwrap();
    let want = Expr::Bin(
        BinOp::Pow,
        num("2"),
        Box::new(Expr::Bin(BinOp::Pow, num("3"), num("2"))),
    );
    assert_eq!(got, want);
}

#[test]
fn unary_minus_binds_less_tightly_than_power() {
    let got = parse(b"-2^2").unwrap();
    let want = Expr::Unary(
        UnOp::Neg,
        Box::new(Expr::Bin(BinOp::Pow, num("2"), num("2"))),
    );
    assert_eq!(got, want);
}

#[test]
fn subtraction_is_left_associative() {
    let got = parse(b"8-3-2").unwrap();
    let want = Expr::Bin(
        BinOp::Sub,
        Box::new(Expr::Bin(BinOp::Sub, num("8"), num("3"))),
        num("2"),
    );
    assert_eq!(got, want);
}

#[test]
fn call_arguments_stay_in_order() {
    let got = parse(b"atan2(x, y)").unwrap();
    let want = Expr::Call(
        b"atan2".to_vec(),
        Args::Cons(var("x"), Box::new(Args::Cons(var("y"), Box::new(Args::Nil)))),
    );
    assert_eq!(got, want);
}

#[test]
fn call_with_no_arguments() {
    let got = parse(b"pi()").unwrap();
    assert_eq!(got, Expr::Call(b"pi".to_vec(), Args::Nil));
}

#[test]
fn name_resolution_is_deferred_to_evaluation() {
    // An unknown function name still parses; only evaluation rejects it.
    let got = parse(b"nosuch(1)").unwrap();
    assert_eq!(got, Expr::Call(b"nosuch".to_vec(), Args::Cons(num("1"), Box::new(Args::Nil))));
}

#[test]
fn whitespace_is_insignificant() {
    assert_eq!(parse(b" 1 +\t2 ").unwrap(), parse(b"1+2").unwrap());
}

#[test]
fn identifiers_take_digits_and_underscores() {
    let got = parse(b"a_1+b").unwrap();
    let want = Expr::Bin(BinOp::Add, var("a_1"), var("b"));
    assert_eq!(got, want);
}

#[test]
fn trailing_token_position_is_reported() {
    assert_eq!(parse(b"2x"), Err(Error::Parse { pos: 1 }));
    assert_eq!(parse(b"2)3"), Err(Error::Parse { pos: 1 }));
}

#[test]
fn exhausted_input_reports_the_end() {
    assert_eq!(parse(b"1 +"), Err(Error::Parse { pos: 3 }));
    assert_eq!(parse(b"(2+3"), Err(Error::Parse { pos: 4 }));
}

#[test]
fn bad_byte_position_is_reported() {
    assert_eq!(parse(b"1+$2"), Err(Error::Parse { pos: 2 }));
}

#[test]
fn exponent_needs_a_digit() {
    // "2e" is a number followed by an identifier, which no grammar rule
    // joins; "2e+3" carries a signed exponent.
    assert!(matches!(parse(b"2e"), Err(Error::Parse { .. })));
    assert_eq!(parse(b"2e+3").unwrap(), Expr::Num(b"2e+3".to_vec()));
}

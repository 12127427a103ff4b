// End-to-end evaluation tests: the library parses, resolves and drives the
// evaluation; the arithmetic on bit patterns is supplied here, as a host
// would supply it.

use mevac::ast::{BinOp, Error, UnOp};
use mevac::context::Context;
use mevac::eval::{eval_point, ConstName, FloatOps, Func1, Func2};

struct TestOps;

impl FloatOps for TestOps {
    // The erased models of the operations: the verifier reasons with these
    // in specifications only; compiled code never calls them.
    fn spec_number(&self, _: mevac::eval::LiteralText) -> u64 {
        0
    }

    fn spec_constant(&self, _: ConstName) -> u64 {
        0
    }

    fn spec_unary(&self, _: UnOp, _: u64) -> u64 {
        0
    }

    fn spec_binary(&self, _: BinOp, _: u64, _: u64) -> u64 {
        0
    }

    fn spec_apply1(&self, _: Func1, _: u64) -> u64 {
        0
    }

    fn spec_apply2(&self, _: Func2, _: u64, _: u64) -> u64 {
        0
    }

    fn number(&self, text: &[u8]) -> u64 {
        std::str::from_utf8(text).unwrap().parse::<f64>().unwrap().to_bits()
    }

    fn constant(&self, c: ConstName) -> u64 {
        match c {
            ConstName::Pi => std::f64::consts::PI.to_bits(),
            ConstName::E => std::f64::consts::E.to_bits(),
        }
    }

    fn unary(&self, op: UnOp, a: u64) -> u64 {
        let x = f64::from_bits(a);
        match op {
            UnOp::Plus => x.to_bits(),
            UnOp::Neg => (-x).to_bits(),
        }
    }

    fn binary(&self, op: BinOp, a: u64, b: u64) -> u64 {
        let x = f64::from_bits(a);
        let y = f64::from_bits(b);
        let r = match op {
            BinOp::Add => x + y,
            BinOp::Sub => x - y,
            BinOp::Mul => x * y,
            BinOp::Div => x / y,
            BinOp::Rem => x % y,
            BinOp::Pow => x.powf(y),
        };
        r.to_bits()
    }

    fn apply1(&self, f: Func1, a: u64) -> u64 {
        let x = f64::from_bits(a);
        let r = match f {
            Func1::Sin => x.sin(),
            Func1::Cos => x.cos(),
            Func1::Tan => x.tan(),
            Func1::Asin => x.asin(),
            Func1::Acos => x.acos(),
            Func1::Atan => x.atan(),
            Func1::Sinh => x.sinh(),
            Func1::Cosh => x.cosh(),
            Func1::Tanh => x.tanh(),
            Func1::Exp => x.exp(),
            Func1::Ln => x.ln(),
            Func1::Log => x.log10(),
            Func1::Sqrt => x.sqrt(),
            Func1::Abs => x.abs(),
            Func1::Floor => x.floor(),
            Func1::Ceil => x.ceil(),
            Func1::Round => x.round(),
            Func1::Sign => x.signum(),
        };
        r.to_bits()
    }

    fn apply2(&self, f: Func2, a: u64, b: u64) -> u64 {
        let x = f64::from_bits(a);
        let y = f64::from_bits(b);
        let r = match f {
            Func2::Atan2 => x.atan2(y),
            Func2::Min => x.min(y),
            Func2::Max => x.max(y),
            Func2::Pow => x.powf(y),
        };
        r.to_bits()
    }
}

fn ev(expr: &str, names: &[&str], vals: &[f64]) -> Result<f64, Error<Vec<u8>>> {
    let ns: Vec<Vec<u8>> = names.iter().map(|n| n.as_bytes().to_vec()).collect();
    let vs: Vec<u64> = vals.iter().map(|v| v.to_bits()).collect();
    eval_point(&TestOps, expr.as_bytes(), &ns, &vs, names.len()).map(f64::from_bits)
}

fn bits(x: f64) -> u64 {
    x.to_bits()
}

#[test]
fn sum_of_two_variables() {
    assert_eq!(bits(ev("x+y", &["x", "y"], &[1.5, 2.5]).unwrap()), bits(4.0));
}

#[test]
fn sin_plus_cos_at_zero() {
    assert_eq!(bits(ev("sin(0) + cos(0)", &[], &[]).unwrap()), bits(1.0));
}

#[test]
fn polynomial_at_three() {
    assert_eq!(bits(ev("x^2 + 2*x + 1", &["x"], &[3.0]).unwrap()), bits(16.0));
}

#[test]
fn division_by_zero_gives_infinity() {
    assert_eq!(ev("a/b", &["a", "b"], &[1.0, 0.0]).unwrap(), f64::INFINITY);
}

#[test]
fn zero_over_zero_gives_nan() {
    assert!(ev("a/b", &["a", "b"], &[0.0, 0.0]).unwrap().is_nan());
}

#[test]
fn pi_constant() {
    assert_eq!(bits(ev("pi", &[], &[]).unwrap()), bits(std::f64::consts::PI));
}

#[test]
fn e_constant() {
    assert_eq!(bits(ev("e", &[], &[]).unwrap()), bits(std::f64::consts::E));
}

#[test]
fn sqrt_of_negative_is_nan() {
    assert!(ev("sqrt(x)", &["x"], &[-1.0]).unwrap().is_nan());
}

#[test]
fn incomplete_expression_is_parse_error() {
    assert!(matches!(ev("1 +", &[], &[]), Err(Error::Parse { .. })));
}

#[test]
fn unbound_variable_is_name_error() {
    match ev("x + 1", &[], &[]) {
        Err(Error::UnknownName { name }) => assert_eq!(name, b"x".to_vec()),
        other => panic!("expected a name resolution error, got {:?}", other),
    }
}

#[test]
fn wrong_arity_is_arity_error() {
    match ev("sin(1,2)", &[], &[]) {
        Err(Error::Arity { name, expected }) => {
            assert_eq!(name, b"sin".to_vec());
            assert_eq!(expected, 1);
        },
        other => panic!("expected an arity error, got {:?}", other),
    }
}

#[test]
fn precedence_conformance() {
    assert_eq!(bits(ev("2+3*4", &[], &[]).unwrap()), bits(14.0));
    assert_eq!(bits(ev("(2+3)*4", &[], &[]).unwrap()), bits(20.0));
    assert_eq!(bits(ev("2^3^2", &[], &[]).unwrap()), bits(512.0));
}

#[test]
fn unary_minus_and_power() {
    assert_eq!(bits(ev("-2^2", &[], &[]).unwrap()), bits(-4.0));
    assert_eq!(bits(ev("2^-3", &[], &[]).unwrap()), bits(0.125));
}

#[test]
fn commutativity_on_literals() {
    let pairs = [("1.5", "2.25"), ("0.1", "0.2"), ("1e300", "2.5e299"), ("7", "0.001")];
    for (a, b) in pairs {
        let left = ev(&format!("{}+{}", a, b), &[], &[]).unwrap();
        let right = ev(&format!("{}+{}", b, a), &[], &[]).unwrap();
        assert_eq!(bits(left), bits(right));
    }
}

#[test]
fn additive_and_multiplicative_identity() {
    for e in ["2*3", "sin(1)", "7/9", "2^0.5"] {
        let plain = ev(e, &[], &[]).unwrap();
        let zero_plus = ev(&format!("0+({})", e), &[], &[]).unwrap();
        let one_times = ev(&format!("1*({})", e), &[], &[]).unwrap();
        assert_eq!(bits(plain), bits(zero_plus));
        assert_eq!(bits(plain), bits(one_times));
    }
}

#[test]
fn literal_substitution() {
    let bound = ev("x*x-x", &["x"], &[2.5]).unwrap();
    let substituted = ev("2.5*2.5-2.5", &[], &[]).unwrap();
    assert_eq!(bits(bound), bits(substituted));
}

#[test]
fn repeated_calls_are_bit_identical() {
    let first = ev("sin(3)+tan(2)^2/x", &["x"], &[0.7]).unwrap();
    let second = ev("sin(3)+tan(2)^2/x", &["x"], &[0.7]).unwrap();
    assert_eq!(bits(first), bits(second));
}

#[test]
fn interleaved_calls_do_not_interfere() {
    let alone_a = ev("x+1", &["x"], &[1.0]).unwrap();
    let alone_b = ev("y*2", &["y"], &[3.0]).unwrap();
    for _ in 0..3 {
        assert_eq!(bits(ev("x+1", &["x"], &[1.0]).unwrap()), bits(alone_a));
        assert_eq!(bits(ev("y*2", &["y"], &[3.0]).unwrap()), bits(alone_b));
    }
}

#[test]
fn literal_forms() {
    assert_eq!(bits(ev(".5", &[], &[]).unwrap()), bits(0.5));
    assert_eq!(bits(ev("2e-3", &[], &[]).unwrap()), bits(0.002));
    assert_eq!(bits(ev("1.5e+2", &[], &[]).unwrap()), bits(150.0));
    assert_eq!(bits(ev("7", &[], &[]).unwrap()), bits(7.0));
}

#[test]
fn dangling_dot_is_parse_error() {
    assert!(matches!(ev("5.", &[], &[]), Err(Error::Parse { .. })));
}

#[test]
fn implicit_multiplication_is_parse_error() {
    assert!(matches!(ev("2x", &[], &[]), Err(Error::Parse { .. })));
}

#[test]
fn empty_and_blank_inputs_are_parse_errors() {
    assert!(matches!(ev("", &[], &[]), Err(Error::Parse { .. })));
    assert!(matches!(ev("   ", &[], &[]), Err(Error::Parse { .. })));
}

#[test]
fn unclosed_parenthesis_is_parse_error() {
    assert!(matches!(ev("(2+3", &[], &[]), Err(Error::Parse { .. })));
}

#[test]
fn bad_character_reports_its_position() {
    assert!(matches!(ev("2 # 3", &[], &[]), Err(Error::Parse { pos: 2 })));
}

#[test]
fn modulo_follows_host_remainder() {
    assert_eq!(bits(ev("7%3", &[], &[]).unwrap()), bits(1.0));
    assert_eq!(bits(ev("x%y", &["x", "y"], &[-7.0, 3.0]).unwrap()), bits(-7.0f64 % 3.0));
}

#[test]
fn unary_functions_match_host_library() {
    let cases: [(&str, f64); 12] = [
        ("sin(2)", 2f64.sin()),
        ("cos(2)", 2f64.cos()),
        ("tan(2)", 2f64.tan()),
        ("asin(0.5)", 0.5f64.asin()),
        ("acos(0.5)", 0.5f64.acos()),
        ("atan(1.5)", 1.5f64.atan()),
        ("sinh(1)", 1f64.sinh()),
        ("cosh(1)", 1f64.cosh()),
        ("tanh(1)", 1f64.tanh()),
        ("exp(2)", 2f64.exp()),
        ("ln(2)", 2f64.ln()),
        ("log(100)", 100f64.log10()),
    ];
    for (e, want) in cases {
        assert_eq!(bits(ev(e, &[], &[]).unwrap()), bits(want), "{}", e);
    }
}

#[test]
fn rounding_and_sign_functions() {
    assert_eq!(bits(ev("sqrt(9)", &[], &[]).unwrap()), bits(3.0));
    assert_eq!(bits(ev("abs(-2)", &[], &[]).unwrap()), bits(2.0));
    assert_eq!(bits(ev("floor(1.5)", &[], &[]).unwrap()), bits(1.0));
    assert_eq!(bits(ev("ceil(1.2)", &[], &[]).unwrap()), bits(2.0));
    assert_eq!(bits(ev("round(2.5)", &[], &[]).unwrap()), bits(2.5f64.round()));
    assert_eq!(bits(ev("sign(-5)", &[], &[]).unwrap()), bits(-1.0));
}

#[test]
fn binary_functions_match_host_library() {
    assert_eq!(bits(ev("atan2(2,3)", &[], &[]).unwrap()), bits(2f64.atan2(3.0)));
    assert_eq!(bits(ev("min(2,3)", &[], &[]).unwrap()), bits(2.0));
    assert_eq!(bits(ev("max(2,3)", &[], &[]).unwrap()), bits(3.0));
    assert_eq!(bits(ev("pow(2,10)", &[], &[]).unwrap()), bits(1024.0));
}

#[test]
fn caller_binding_shadows_builtin_constant() {
    assert_eq!(bits(ev("pi", &["pi"], &[1.0]).unwrap()), bits(1.0));
}

#[test]
fn constant_called_with_no_arguments() {
    assert_eq!(bits(ev("pi()", &[], &[]).unwrap()), bits(std::f64::consts::PI));
}

#[test]
fn constant_called_with_an_argument_is_arity_error() {
    match ev("pi(1)", &[], &[]) {
        Err(Error::Arity { name, expected }) => {
            assert_eq!(name, b"pi".to_vec());
            assert_eq!(expected, 0);
        },
        other => panic!("expected an arity error, got {:?}", other),
    }
}

#[test]
fn unknown_function_is_name_error() {
    match ev("foo(1)", &[], &[]) {
        Err(Error::UnknownName { name }) => assert_eq!(name, b"foo".to_vec()),
        other => panic!("expected a name resolution error, got {:?}", other),
    }
}

#[test]
fn bound_variable_is_not_a_function() {
    assert!(matches!(ev("x(1)", &["x"], &[1.0]), Err(Error::UnknownName { .. })));
}

#[test]
fn later_binding_replaces_earlier() {
    let mut c = Context::new();
    c.var(b"x".to_vec(), 1.0f64.to_bits());
    c.var(b"x".to_vec(), 2.0f64.to_bits());
    assert_eq!(c.lookup(b"x"), Some(2.0f64.to_bits()));
    assert_eq!(c.lookup(b"y"), None);
}

#[test]
fn only_len_pairs_are_consumed() {
    let ns: Vec<Vec<u8>> = vec![b"x".to_vec(), b"y".to_vec()];
    let vs: Vec<u64> = vec![1.0f64.to_bits(), 2.0f64.to_bits()];
    let r = eval_point(&TestOps, b"y", &ns, &vs, 1);
    assert!(matches!(r, Err(Error::UnknownName { .. })));
}

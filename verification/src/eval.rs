//! Name resolution and evaluation.
//!
//! Evaluation walks the tree strictly, eagerly and left to right, resolving
//! names against the context and the built-in table.  The only evaluation
//! failures are an unresolvable name and a call of a built-in with the wrong
//! number of arguments; numeric conditions are never errors and propagate as
//! IEEE-754 infinities or NaN in the value.
//!
//! The arithmetic itself — on `u64` bit patterns of binary64 numbers — is
//! supplied by the caller through [`FloatOps`]; this module fixes exactly
//! when evaluation fails and pins a successful result as [`spec_value`],
//! the strict left-to-right fold of the arithmetic's model over the tree.

use vstd::prelude::*;
use vstd::slice::slice_to_vec;
use vstd::string::StringSliceAdditionalSpecFns;
use crate::ast::{Args, BinOp, Error, Expr, UnOp, args_view, expr_view, spec_args_len};
use crate::context::{Context, bytes_eq};
use crate::parser::{parse, spec_parse, spec_parse_err};

verus! {

/// Built-in constants: `pi` and `e`.
#[derive(Clone, Copy, Debug, PartialEq, Eq, Structural)]
pub enum ConstName {
    Pi,
    E,
}

/// Built-in functions of one argument.  `Ln` is the natural logarithm,
/// `Log` the base-10 logarithm.
#[derive(Clone, Copy, Debug, PartialEq, Eq, Structural)]
pub enum Func1 {
    Sin,
    Cos,
    Tan,
    Asin,
    Acos,
    Atan,
    Sinh,
    Cosh,
    Tanh,
    Exp,
    Ln,
    Log,
    Sqrt,
    Abs,
    Floor,
    Ceil,
    Round,
    Sign,
}

/// Built-in functions of two arguments.
#[derive(Clone, Copy, Debug, PartialEq, Eq, Structural)]
pub enum Func2 {
    Atan2,
    Min,
    Max,
    Pow,
}

/// A built-in name: a constant or a function of fixed arity.
#[derive(Clone, Copy, Debug, PartialEq, Eq, Structural)]
pub enum Builtin {
    Constant(ConstName),
    Unary(Func1),
    Binary(Func2),
}

/// The fixed table of built-in names.
pub open spec fn spec_builtin(name: Seq<u8>) -> Option<Builtin> {
    if name == "pi".spec_bytes() {
        Some(Builtin::Constant(ConstName::Pi))
    } else if name == "e".spec_bytes() {
        Some(Builtin::Constant(ConstName::E))
    } else if name == "sin".spec_bytes() {
        Some(Builtin::Unary(Func1::Sin))
    } else if name == "cos".spec_bytes() {
        Some(Builtin::Unary(Func1::Cos))
    } else if name == "tan".spec_bytes() {
        Some(Builtin::Unary(Func1::Tan))
    } else if name == "asin".spec_bytes() {
        Some(Builtin::Unary(Func1::Asin))
    } else if name == "acos".spec_bytes() {
        Some(Builtin::Unary(Func1::Acos))
    } else if name == "atan".spec_bytes() {
        Some(Builtin::Unary(Func1::Atan))
    } else if name == "sinh".spec_bytes() {
        Some(Builtin::Unary(Func1::Sinh))
    } else if name == "cosh".spec_bytes() {
        Some(Builtin::Unary(Func1::Cosh))
    } else if name == "tanh".spec_bytes() {
        Some(Builtin::Unary(Func1::Tanh))
    } else if name == "exp".spec_bytes() {
        Some(Builtin::Unary(Func1::Exp))
    } else if name == "ln".spec_bytes() {
        Some(Builtin::Unary(Func1::Ln))
    } else if name == "log".spec_bytes() {
        Some(Builtin::Unary(Func1::Log))
    } else if name == "sqrt".spec_bytes() {
        Some(Builtin::Unary(Func1::Sqrt))
    } else if name == "abs".spec_bytes() {
        Some(Builtin::Unary(Func1::Abs))
    } else if name == "floor".spec_bytes() {
        Some(Builtin::Unary(Func1::Floor))
    } else if name == "ceil".spec_bytes() {
        Some(Builtin::Unary(Func1::Ceil))
    } else if name == "round".spec_bytes() {
        Some(Builtin::Unary(Func1::Round))
    } else if name == "sign".spec_bytes() {
        Some(Builtin::Unary(Func1::Sign))
    } else if name == "atan2".spec_bytes() {
        Some(Builtin::Binary(Func2::Atan2))
    } else if name == "min".spec_bytes() {
        Some(Builtin::Binary(Func2::Min))
    } else if name == "max".spec_bytes() {
        Some(Builtin::Binary(Func2::Max))
    } else if name == "pow".spec_bytes() {
        Some(Builtin::Binary(Func2::Pow))
    } else {
        None
    }
}

/// The number of arguments a built-in takes; a constant takes none.
pub open spec fn spec_arity(b: Builtin) -> nat {
    match b {
        Builtin::Constant(_) => 0,
        Builtin::Unary(_) => 1,
        Builtin::Binary(_) => 2,
    }
}

/// Whether `name` is a byte string equal to the text of `lit`.
fn name_is(name: &[u8], lit: &str) -> (r: bool)
    ensures
        r == (name@ == lit.spec_bytes()),
{
    bytes_eq(name, lit.as_bytes())
}

/// Looks a name up in the built-in table.
pub fn lookup_builtin(name: &[u8]) -> (r: Option<Builtin>)
    ensures
        r == spec_builtin(name@),
{
    if name_is(name, "pi") {
        Some(Builtin::Constant(ConstName::Pi))
    } else if name_is(name, "e") {
        Some(Builtin::Constant(ConstName::E))
    } else if name_is(name, "sin") {
        Some(Builtin::Unary(Func1::Sin))
    } else if name_is(name, "cos") {
        Some(Builtin::Unary(Func1::Cos))
    } else if name_is(name, "tan") {
        Some(Builtin::Unary(Func1::Tan))
    } else if name_is(name, "asin") {
        Some(Builtin::Unary(Func1::Asin))
    } else if name_is(name, "acos") {
        Some(Builtin::Unary(Func1::Acos))
    } else if name_is(name, "atan") {
        Some(Builtin::Unary(Func1::Atan))
    } else if name_is(name, "sinh") {
        Some(Builtin::Unary(Func1::Sinh))
    } else if name_is(name, "cosh") {
        Some(Builtin::Unary(Func1::Cosh))
    } else if name_is(name, "tanh") {
        Some(Builtin::Unary(Func1::Tanh))
    } else if name_is(name, "exp") {
        Some(Builtin::Unary(Func1::Exp))
    } else if name_is(name, "ln") {
        Some(Builtin::Unary(Func1::Ln))
    } else if name_is(name, "log") {
        Some(Builtin::Unary(Func1::Log))
    } else if name_is(name, "sqrt") {
        Some(Builtin::Unary(Func1::Sqrt))
    } else if name_is(name, "abs") {
        Some(Builtin::Unary(Func1::Abs))
    } else if name_is(name, "floor") {
        Some(Builtin::Unary(Func1::Floor))
    } else if name_is(name, "ceil") {
        Some(Builtin::Unary(Func1::Ceil))
    } else if name_is(name, "round") {
        Some(Builtin::Unary(Func1::Round))
    } else if name_is(name, "sign") {
        Some(Builtin::Unary(Func1::Sign))
    } else if name_is(name, "atan2") {
        Some(Builtin::Binary(Func2::Atan2))
    } else if name_is(name, "min") {
        Some(Builtin::Binary(Func2::Min))
    } else if name_is(name, "max") {
        Some(Builtin::Binary(Func2::Max))
    } else if name_is(name, "pow") {
        Some(Builtin::Binary(Func2::Pow))
    } else {
        None
    }
}

/// The first failure that a strict left-to-right evaluation of `e` under the
/// bindings `m` meets, if any: an unresolvable name, or a call of a built-in
/// with the wrong number of arguments.  Caller bindings shadow the built-in
/// constants; a call resolves its name first, then its arity, then its
/// arguments, left to right.
pub open spec fn spec_check(e: Expr<Seq<u8>>, m: Map<Seq<u8>, u64>) -> Option<Error<Seq<u8>>>
    decreases e,
{
    match e {
        Expr::Num(_) => None,
        Expr::Var(name) => if m.contains_key(name) || spec_builtin(name) matches Some(
            Builtin::Constant(_),
        ) {
            None
        } else {
            Some(Error::UnknownName { name })
        },
        Expr::Unary(_, a) => spec_check(*a, m),
        Expr::Bin(_, a, b) => if spec_check(*a, m) is Some {
            spec_check(*a, m)
        } else {
            spec_check(*b, m)
        },
        Expr::Call(name, args) => match spec_builtin(name) {
            None => Some(Error::UnknownName { name }),
            Some(b) => if spec_args_len(args) != spec_arity(b) {
                Some(Error::Arity { name, expected: spec_arity(b) as u32 })
            } else {
                spec_check_args(args, m)
            },
        },
    }
}

/// The first failure among the arguments, left to right.
pub open spec fn spec_check_args(a: Args<Seq<u8>>, m: Map<Seq<u8>, u64>) -> Option<Error<Seq<u8>>>
    decreases a,
{
    match a {
        Args::Nil => None,
        Args::Cons(e, rest) => if spec_check(*e, m) is Some {
            spec_check(*e, m)
        } else {
            spec_check_args(*rest, m)
        },
    }
}

/// Reports the first failure of `e` under `ctx`, exactly as `spec_check`
/// describes it, or nothing when evaluation must produce a value.
pub fn check(e: &Expr<Vec<u8>>, ctx: &Context) -> (r: Option<Error<Vec<u8>>>)
    ensures
        match r {
            Some(er) => spec_check(e@, ctx@) == Some(er@),
            None => spec_check(e@, ctx@) is None,
        },
    decreases *e,
{
    match e {
        Expr::Num(_) => None,
        Expr::Var(name) => {
            if ctx.lookup(name.as_slice()).is_some() {
                None
            } else {
                match lookup_builtin(name.as_slice()) {
                    Some(Builtin::Constant(_)) => None,
                    _ => Some(Error::UnknownName { name: slice_to_vec(name.as_slice()) }),
                }
            }
        },
        Expr::Unary(_, a) => check(&*a, ctx),
        Expr::Bin(_, a, b) => {
            match check(&*a, ctx) {
                Some(er) => Some(er),
                None => check(&*b, ctx),
            }
        },
        Expr::Call(name, args) => {
            match lookup_builtin(name.as_slice()) {
                None => Some(Error::UnknownName { name: slice_to_vec(name.as_slice()) }),
                Some(b) => {
                    let expected: u32 = match b {
                        Builtin::Constant(_) => 0,
                        Builtin::Unary(_) => 1,
                        Builtin::Binary(_) => 2,
                    };
                    if args_len_is(args, expected) {
                        check_args(args, ctx)
                    } else {
                        Some(Error::Arity { name: slice_to_vec(name.as_slice()), expected })
                    }
                },
            }
        },
    }
}

/// Whether the argument list holds exactly `n` arguments (`n` at most 2).
fn args_len_is(a: &Args<Vec<u8>>, n: u32) -> (r: bool)
    requires
        n <= 2,
    ensures
        r == (spec_args_len(args_view(*a)) == n as nat),
{
    match a {
        Args::Nil => {
            proof {
                assert(args_view(*a) == Args::<Seq<u8>>::Nil);
            }
            n == 0
        },
        Args::Cons(_, rest) => {
            proof {
                assert(spec_args_len(args_view(*a)) == 1 + spec_args_len(args_view(**rest)));
            }
            match &**rest {
                Args::Nil => {
                    proof {
                        assert(args_view(**rest) == Args::<Seq<u8>>::Nil);
                    }
                    n == 1
                },
                Args::Cons(_, rest2) => {
                    proof {
                        assert(spec_args_len(args_view(**rest)) == 1 + spec_args_len(
                            args_view(**rest2),
                        ));
                    }
                    match &**rest2 {
                        Args::Nil => {
                            proof {
                                assert(args_view(**rest2) == Args::<Seq<u8>>::Nil);
                            }
                            n == 2
                        },
                        Args::Cons(_, rest3) => {
                            proof {
                                assert(spec_args_len(args_view(**rest2)) == 1 + spec_args_len(
                                    args_view(**rest3),
                                ));
                            }
                            false
                        },
                    }
                },
            }
        },
    }
}

fn check_args(a: &Args<Vec<u8>>, ctx: &Context) -> (r: Option<Error<Vec<u8>>>)
    ensures
        match r {
            Some(er) => spec_check_args(args_view(*a), ctx@) == Some(er@),
            None => spec_check_args(args_view(*a), ctx@) is None,
        },
    decreases *a,
{
    match a {
        Args::Nil => None,
        Args::Cons(e, rest) => {
            match check(&*e, ctx) {
                Some(er) => Some(er),
                None => check_args(&*rest, ctx),
            }
        },
    }
}

/// The content of a numeric literal as the model functions see it: a byte
/// sequence.  Named so that implementations outside the verified library
/// can write the erased signature of `FloatOps::spec_number`.
pub type LiteralText = Seq<u8>;

/// The arithmetic on IEEE-754 binary64 bit patterns, supplied by the caller.
///
/// Verified code cannot carry out floating-point operations, so the library
/// fixes which operation is applied to which operands and leaves the
/// operations themselves to the host.  An implementation must interpret each
/// `u64` as the bit pattern of a binary64 number and apply the standard
/// double-precision operation named by the method and its tag.
///
/// Each operation must be a function of its arguments: the `spec_*` members
/// are the implementation's model of its operations, each method promises to
/// return exactly its model's value, and the evaluator's contracts pin the
/// returned bit pattern as [`spec_value`], the fold of that model over the
/// tree.  An implementation outside the verified world supplies the erased
/// `spec_*` items as stubs that are never called; what it takes on itself is
/// that its operations are deterministic.
pub trait FloatOps {
    /// The implementation's model of a literal's value: each operation of an
    /// implementation is a function of its arguments, and these spec members
    /// name those functions, so that the evaluator's result can be stated as
    /// a fold over them.
    spec fn spec_number(&self, text: LiteralText) -> u64;

    /// The model of a built-in constant's value.
    spec fn spec_constant(&self, c: ConstName) -> u64;

    /// The model of a unary operator.
    spec fn spec_unary(&self, op: UnOp, a: u64) -> u64;

    /// The model of a binary operator.
    spec fn spec_binary(&self, op: BinOp, a: u64, b: u64) -> u64;

    /// The model of a built-in function of one argument.
    spec fn spec_apply1(&self, f: Func1, a: u64) -> u64;

    /// The model of a built-in function of two arguments.
    spec fn spec_apply2(&self, f: Func2, a: u64, b: u64) -> u64;

    /// The value of a numeric literal, given its source text (which
    /// satisfies the literal grammar: digits, an optional fraction, an
    /// optional exponent).
    fn number(&self, text: &[u8]) -> (r: u64)
        ensures
            r == self.spec_number(text@),
    ;

    /// The value of a built-in constant, to double precision.
    fn constant(&self, c: ConstName) -> (r: u64)
        ensures
            r == self.spec_constant(c),
    ;

    /// `+a` or `-a`.
    fn unary(&self, op: UnOp, a: u64) -> (r: u64)
        ensures
            r == self.spec_unary(op, a),
    ;

    /// `a + b`, `a - b`, `a * b`, `a / b`, `a % b` or `a ^ b`, following
    /// IEEE-754: division by zero gives an infinity or NaN, a negative base
    /// under a non-integer exponent gives NaN, never an error.
    fn binary(&self, op: BinOp, a: u64, b: u64) -> (r: u64)
        ensures
            r == self.spec_binary(op, a, b),
    ;

    /// A built-in function of one argument; out-of-domain arguments give
    /// the IEEE-754 value of the host's mathematics library, never an error.
    fn apply1(&self, f: Func1, a: u64) -> (r: u64)
        ensures
            r == self.spec_apply1(f, a),
    ;

    /// A built-in function of two arguments.
    fn apply2(&self, f: Func2, a: u64, b: u64) -> (r: u64)
        ensures
            r == self.spec_apply2(f, a, b),
    ;
}

/// The value of an expression that resolves under `m`: the strict
/// left-to-right fold of the arithmetic's model over the tree.  Caller
/// bindings shadow the built-in constants.  On a tree that `spec_check`
/// rejects the result is arbitrary; `eval` promises it only where
/// `spec_check` reports no failure.
pub open spec fn spec_value<F: FloatOps>(ops: F, e: Expr<Seq<u8>>, m: Map<Seq<u8>, u64>) -> u64
    decreases e,
{
    match e {
        Expr::Num(t) => ops.spec_number(t),
        Expr::Var(name) => if m.contains_key(name) {
            m[name]
        } else {
            match spec_builtin(name) {
                Some(Builtin::Constant(c)) => ops.spec_constant(c),
                _ => arbitrary(),
            }
        },
        Expr::Unary(op, a) => ops.spec_unary(op, spec_value(ops, *a, m)),
        Expr::Bin(op, a, b) => ops.spec_binary(
            op,
            spec_value(ops, *a, m),
            spec_value(ops, *b, m),
        ),
        Expr::Call(name, args) => match spec_builtin(name) {
            Some(Builtin::Constant(c)) => ops.spec_constant(c),
            Some(Builtin::Unary(f)) => match args {
                Args::Cons(a1, _) => ops.spec_apply1(f, spec_value(ops, *a1, m)),
                Args::Nil => arbitrary(),
            },
            Some(Builtin::Binary(f)) => match args {
                Args::Cons(a1, rest) => match *rest {
                    Args::Cons(a2, _) => ops.spec_apply2(
                        f,
                        spec_value(ops, *a1, m),
                        spec_value(ops, *a2, m),
                    ),
                    Args::Nil => arbitrary(),
                },
                Args::Nil => arbitrary(),
            },
            None => arbitrary(),
        },
    }
}

/// Evaluates `e` under `ctx`, taking the arithmetic from `ops`.
///
/// Fails exactly when `spec_check` reports a failure, with that error;
/// a successful evaluation returns exactly `spec_value`: the strict
/// left-to-right fold of the arithmetic's model over the tree.
#[verifier::rlimit(60)]
pub fn eval<F: FloatOps>(ops: &F, e: &Expr<Vec<u8>>, ctx: &Context) -> (r: Result<
    u64,
    Error<Vec<u8>>,
>)
    ensures
        match spec_check(e@, ctx@) {
            Some(er) => r matches Err(re) && re@ == er,
            None => r matches Ok(v) && v == spec_value(*ops, e@, ctx@),
        },
    decreases *e,
{
    match e {
        Expr::Num(txt) => Ok(ops.number(txt.as_slice())),
        Expr::Var(name) => {
            match ctx.lookup(name.as_slice()) {
                Some(v) => Ok(v),
                None => {
                    match lookup_builtin(name.as_slice()) {
                        Some(Builtin::Constant(c)) => Ok(ops.constant(c)),
                        _ => Err(Error::UnknownName { name: slice_to_vec(name.as_slice()) }),
                    }
                },
            }
        },
        Expr::Unary(op, a) => {
            match eval(ops, &*a, ctx) {
                Ok(v) => Ok(ops.unary(*op, v)),
                Err(er) => Err(er),
            }
        },
        Expr::Bin(op, a, b) => {
            match eval(ops, &*a, ctx) {
                Err(er) => Err(er),
                Ok(va) => {
                    match eval(ops, &*b, ctx) {
                        Err(er) => Err(er),
                        Ok(vb) => Ok(ops.binary(*op, va, vb)),
                    }
                },
            }
        },
        Expr::Call(name, args) => eval_call(ops, name, args, ctx),
    }
}

#[verifier::rlimit(100)]
#[verifier::spinoff_prover]
fn eval_call<F: FloatOps>(ops: &F, name: &Vec<u8>, args: &Args<Vec<u8>>, ctx: &Context) -> (r:
    Result<u64, Error<Vec<u8>>>)
    ensures
        match spec_check(Expr::Call(name@, args_view(*args)), ctx@) {
            Some(er) => r matches Err(re) && re@ == er,
            None => r matches Ok(v) && v == spec_value(
                *ops,
                Expr::Call(name@, args_view(*args)),
                ctx@,
            ),
        },
    decreases *args,
{
    match lookup_builtin(name.as_slice()) {
        None => {
            let re = Error::UnknownName { name: slice_to_vec(name.as_slice()) };
            proof {
                assert(re@ == Error::<Seq<u8>>::UnknownName { name: name@ });
                assert(spec_check(Expr::Call(name@, args_view(*args)), ctx@) == Some(re@));
            }
            Err(re)
        },
        Some(b) => {
            let expected: u32 = match b {
                Builtin::Constant(_) => 0,
                Builtin::Unary(_) => 1,
                Builtin::Binary(_) => 2,
            };
            proof {
                assert(spec_arity(b) == expected as nat);
            }
            if !args_len_is(args, expected) {
                let re = Error::Arity { name: slice_to_vec(name.as_slice()), expected };
                proof {
                    assert(re@ == Error::<Seq<u8>>::Arity { name: name@, expected });
                    assert(spec_check(Expr::Call(name@, args_view(*args)), ctx@) == Some(re@));
                }
                Err(re)
            } else {
                match b {
                    Builtin::Constant(c) => {
                        proof {
                            assert(args_view(*args) is Nil);
                            assert(spec_check_args(args_view(*args), ctx@) is None);
                            assert(spec_check(
                                Expr::Call(name@, args_view(*args)),
                                ctx@,
                            ) is None);
                        }
                        Ok(ops.constant(c))
                    },
                    Builtin::Unary(f) => {
                        match args {
                            Args::Cons(a1, rest) => {
                                proof {
                                    assert(spec_args_len(args_view(*args)) == 1
                                        + spec_args_len(args_view(**rest)));
                                    assert(args_view(**rest) is Nil);
                                    assert(args_view(*args) == Args::<Seq<u8>>::Cons(
                                        Box::new(expr_view(**a1)),
                                        Box::new(args_view(**rest)),
                                    ));
                                    assert(spec_check_args(args_view(**rest), ctx@)
                                        is None);
                                    assert(spec_check(
                                        Expr::Call(name@, args_view(*args)),
                                        ctx@,
                                    ) == spec_check(expr_view(**a1), ctx@));
                                }
                                match eval(ops, &*a1, ctx) {
                                    Ok(v) => Ok(ops.apply1(f, v)),
                                    Err(er) => Err(er),
                                }
                            },
                            Args::Nil => {
                                proof {
                                    assert(args_view(*args) == Args::<Seq<u8>>::Nil);
                                    assert(false);
                                }
                                // not reached: the arity test above admits no such argument list
                                Err(Error::Parse { pos: 0 })
                            },
                        }
                    },
                    Builtin::Binary(f) => {
                        match args {
                            Args::Cons(a1, rest) => {
                                proof {
                                    assert(spec_args_len(args_view(*args)) == 1
                                        + spec_args_len(args_view(**rest)));
                                }
                                match &**rest {
                                    Args::Cons(a2, rest2) => {
                                        proof {
                                            assert(spec_args_len(args_view(**rest)) == 1
                                                + spec_args_len(args_view(**rest2)));
                                            assert(args_view(**rest2) is Nil);
                                            assert(args_view(*args) == Args::<
                                                Seq<u8>,
                                            >::Cons(
                                                Box::new(expr_view(**a1)),
                                                Box::new(args_view(**rest)),
                                            ));
                                            assert(args_view(**rest) == Args::<
                                                Seq<u8>,
                                            >::Cons(
                                                Box::new(expr_view(**a2)),
                                                Box::new(args_view(**rest2)),
                                            ));
                                            assert(spec_check_args(
                                                args_view(**rest2),
                                                ctx@,
                                            ) is None);
                                            let c1 = spec_check(expr_view(**a1), ctx@);
                                            let c2 = spec_check(expr_view(**a2), ctx@);
                                            assert(spec_check_args(
                                                args_view(**rest),
                                                ctx@,
                                            ) == if c2 is Some {
                                                c2
                                            } else {
                                                spec_check_args(args_view(**rest2), ctx@)
                                            });
                                            assert(spec_check_args(
                                                args_view(*args),
                                                ctx@,
                                            ) == if c1 is Some {
                                                c1
                                            } else {
                                                spec_check_args(args_view(**rest), ctx@)
                                            });
                                            assert(spec_check(
                                                Expr::Call(name@, args_view(*args)),
                                                ctx@,
                                            ) == if c1 is Some {
                                                c1
                                            } else {
                                                c2
                                            });
                                        }
                                        match eval(ops, &*a1, ctx) {
                                            Err(er) => Err(er),
                                            Ok(v1) => {
                                                match eval(ops, &*a2, ctx) {
                                                    Err(er) => Err(er),
                                                    Ok(v2) => Ok(ops.apply2(f, v1, v2)),
                                                }
                                            },
                                        }
                                    },
                                    Args::Nil => {
                                        proof {
                                            assert(args_view(**rest) == Args::<
                                                Seq<u8>,
                                            >::Nil);
                                            assert(false);
                                        }
                                        // not reached: the arity test above
                                        // admits no such argument list
                                        Err(Error::Parse { pos: 0 })
                                    },
                                }
                            },
                            Args::Nil => {
                                proof {
                                    assert(args_view(*args) == Args::<Seq<u8>>::Nil);
                                    assert(false);
                                }
                                // not reached: the arity test above admits no such argument list
                                Err(Error::Parse { pos: 0 })
                            },
                        }
                    },
                }
            }
        },
    }
}

/// The bindings formed by zipping the first `len` names with the first
/// `len` values; a later pair wins.
pub open spec fn zip_bindings(names: Seq<Vec<u8>>, values: Seq<u64>, len: int) -> Map<Seq<u8>, u64>
    decreases len,
{
    if len <= 0 {
        Map::empty()
    } else {
        zip_bindings(names, values, len - 1).insert(names[len - 1]@, values[len - 1])
    }
}

/// Literal substitution for a variable: every reference to `v` becomes the
/// numeric literal `lit`; nothing else changes.  A call's function name is
/// not a variable reference and is left alone.
pub open spec fn subst(e: Expr<Seq<u8>>, v: Seq<u8>, lit: Seq<u8>) -> Expr<Seq<u8>>
    decreases e,
{
    match e {
        Expr::Num(t) => Expr::Num(t),
        Expr::Var(name) => if name == v {
            Expr::Num(lit)
        } else {
            Expr::Var(name)
        },
        Expr::Unary(op, a) => Expr::Unary(op, Box::new(subst(*a, v, lit))),
        Expr::Bin(op, a, b) => Expr::Bin(
            op,
            Box::new(subst(*a, v, lit)),
            Box::new(subst(*b, v, lit)),
        ),
        Expr::Call(name, args) => Expr::Call(name, subst_args(args, v, lit)),
    }
}

/// Literal substitution in an argument list.
pub open spec fn subst_args(a: Args<Seq<u8>>, v: Seq<u8>, lit: Seq<u8>) -> Args<Seq<u8>>
    decreases a,
{
    match a {
        Args::Nil => Args::Nil,
        Args::Cons(e, rest) => Args::Cons(
            Box::new(subst(*e, v, lit)),
            Box::new(subst_args(*rest, v, lit)),
        ),
    }
}

/// The resolution half of the substitution law: an expression with the
/// variable `v` replaced by a literal resolves under `m` exactly as the
/// original resolves under `m` with `v` bound — both succeed together or
/// fail with the same error, whatever value `x` the binding carries.  That
/// the substituted literal denotes the bound value is the half that belongs
/// to the host arithmetic.
pub proof fn lemma_subst_matches_binding(
    e: Expr<Seq<u8>>,
    v: Seq<u8>,
    lit: Seq<u8>,
    x: u64,
    m: Map<Seq<u8>, u64>,
)
    ensures
        spec_check(subst(e, v, lit), m) == spec_check(e, m.insert(v, x)),
    decreases e,
{
    match e {
        Expr::Num(_) => {},
        Expr::Var(_) => {},
        Expr::Unary(_, a) => {
            lemma_subst_matches_binding(*a, v, lit, x, m);
        },
        Expr::Bin(_, a, b) => {
            lemma_subst_matches_binding(*a, v, lit, x, m);
            lemma_subst_matches_binding(*b, v, lit, x, m);
        },
        Expr::Call(_, args) => {
            lemma_subst_args_matches_binding(args, v, lit, x, m);
        },
    }
}

/// The substitution law over an argument list, together with the fact that
/// substitution keeps the number of arguments.
pub proof fn lemma_subst_args_matches_binding(
    a: Args<Seq<u8>>,
    v: Seq<u8>,
    lit: Seq<u8>,
    x: u64,
    m: Map<Seq<u8>, u64>,
)
    ensures
        spec_check_args(subst_args(a, v, lit), m) == spec_check_args(a, m.insert(v, x)),
        spec_args_len(subst_args(a, v, lit)) == spec_args_len(a),
    decreases a,
{
    match a {
        Args::Nil => {},
        Args::Cons(e, rest) => {
            lemma_subst_matches_binding(*e, v, lit, x, m);
            lemma_subst_args_matches_binding(*rest, v, lit, x, m);
        },
    }
}

/// The resolution half of the identity law: wrapping an expression as
/// `0+(E)` or `1*(E)` neither introduces nor removes an evaluation failure
/// — the wrapped and the bare expression resolve alike under any bindings.
/// That adding zero and multiplying by one keep the value is the half that
/// belongs to the host arithmetic.
pub proof fn lemma_identity_wrappers_resolve_alike(e: Expr<Seq<u8>>, m: Map<Seq<u8>, u64>)
    ensures
        spec_check(
            Expr::Bin(BinOp::Add, Box::new(Expr::Num("0".spec_bytes())), Box::new(e)),
            m,
        ) == spec_check(e, m),
        spec_check(
            Expr::Bin(BinOp::Mul, Box::new(Expr::Num("1".spec_bytes())), Box::new(e)),
            m,
        ) == spec_check(e, m),
{
    let zero = Expr::<Seq<u8>>::Num("0".spec_bytes());
    let one = Expr::<Seq<u8>>::Num("1".spec_bytes());
    assert(spec_check(zero, m) is None);
    assert(spec_check(one, m) is None);
    assert(spec_check(Expr::Bin(BinOp::Add, Box::new(zero), Box::new(e)), m) == spec_check(e, m));
    assert(spec_check(Expr::Bin(BinOp::Mul, Box::new(one), Box::new(e)), m) == spec_check(e, m));
}

/// The specification view of an evaluation outcome.
pub open spec fn eval_result_view(r: Result<u64, Error<Vec<u8>>>) -> Result<u64, Error<Seq<u8>>> {
    match r {
        Ok(v) => Ok(v),
        Err(er) => Err(er@),
    }
}

/// What `eval_point` guarantees of an outcome `r`: the outcome — error or
/// returned bit pattern — is a function of the expression, of the first
/// `len` name/value pairs, and of the arithmetic's model alone.
pub open spec fn eval_point_post<F: FloatOps>(
    ops: F,
    expr: Seq<u8>,
    names: Seq<Vec<u8>>,
    values: Seq<u64>,
    len: int,
    r: Result<u64, Error<Seq<u8>>>,
) -> bool {
    match spec_parse(expr) {
        None => r == Err::<u64, Error<Seq<u8>>>(spec_parse_err(expr)),
        Some(e) => match spec_check(e, zip_bindings(names, values, len)) {
            Some(er) => r == Err::<u64, Error<Seq<u8>>>(er),
            None => r == Ok::<u64, Error<Seq<u8>>>(
                spec_value(ops, e, zip_bindings(names, values, len)),
            ),
        },
    }
}

/// Determinism: two outcomes of evaluation with one arithmetic on identical
/// inputs are equal outright — the same error, or bit-identical values.
pub proof fn lemma_eval_point_deterministic<F: FloatOps>(
    ops: F,
    expr: Seq<u8>,
    names: Seq<Vec<u8>>,
    values: Seq<u64>,
    len: int,
    r1: Result<u64, Error<Seq<u8>>>,
    r2: Result<u64, Error<Seq<u8>>>,
)
    requires
        eval_point_post(ops, expr, names, values, len, r1),
        eval_point_post(ops, expr, names, values, len, r2),
    ensures
        r1 == r2,
{
}

/// Two binding lists that zip to the same map give the same outcome.
pub proof fn lemma_eval_point_respects_bindings<F: FloatOps>(
    ops: F,
    expr: Seq<u8>,
    names1: Seq<Vec<u8>>,
    values1: Seq<u64>,
    len1: int,
    names2: Seq<Vec<u8>>,
    values2: Seq<u64>,
    len2: int,
    r1: Result<u64, Error<Seq<u8>>>,
    r2: Result<u64, Error<Seq<u8>>>,
)
    requires
        zip_bindings(names1, values1, len1) == zip_bindings(names2, values2, len2),
        eval_point_post(ops, expr, names1, values1, len1, r1),
        eval_point_post(ops, expr, names2, values2, len2, r2),
    ensures
        r1 == r2,
{
}

/// Only the first `len` pairs matter: two calls whose name and value arrays
/// agree on the indices below `len` — and may differ arbitrarily at and
/// beyond it — have equal outcomes.
pub proof fn lemma_pairs_beyond_len_never_read<F: FloatOps>(
    ops: F,
    expr: Seq<u8>,
    names1: Seq<Vec<u8>>,
    values1: Seq<u64>,
    names2: Seq<Vec<u8>>,
    values2: Seq<u64>,
    len: int,
    r1: Result<u64, Error<Seq<u8>>>,
    r2: Result<u64, Error<Seq<u8>>>,
)
    requires
        forall|i: int| #![trigger names1[i]] 0 <= i < len ==> names1[i]@ == names2[i]@,
        forall|i: int| #![trigger values1[i]] 0 <= i < len ==> values1[i] == values2[i],
        eval_point_post(ops, expr, names1, values1, len, r1),
        eval_point_post(ops, expr, names2, values2, len, r2),
    ensures
        r1 == r2,
{
    lemma_zip_bindings_agree(names1, values1, names2, values2, len);
}

/// Zipping reads only the pairs below `len`.
proof fn lemma_zip_bindings_agree(
    names1: Seq<Vec<u8>>,
    values1: Seq<u64>,
    names2: Seq<Vec<u8>>,
    values2: Seq<u64>,
    len: int,
)
    requires
        forall|i: int| #![trigger names1[i]] 0 <= i < len ==> names1[i]@ == names2[i]@,
        forall|i: int| #![trigger values1[i]] 0 <= i < len ==> values1[i] == values2[i],
    ensures
        zip_bindings(names1, values1, len) == zip_bindings(names2, values2, len),
    decreases len,
{
    if len > 0 {
        lemma_zip_bindings_agree(names1, values1, names2, values2, len - 1);
    }
}

/// Binding a name twice is binding it once with the later value: a call
/// that binds `v` to `a` and then `v` to `b` has the same outcome as one
/// that binds `v` to `b` alone.
pub proof fn lemma_later_binding_replaces_earlier<F: FloatOps>(
    ops: F,
    expr: Seq<u8>,
    v: Vec<u8>,
    w: Vec<u8>,
    a: u64,
    b: u64,
    r1: Result<u64, Error<Seq<u8>>>,
    r2: Result<u64, Error<Seq<u8>>>,
)
    requires
        v@ == w@,
        eval_point_post(ops, expr, seq![v, w], seq![a, b], 2, r1),
        eval_point_post(ops, expr, seq![w], seq![b], 1, r2),
    ensures
        r1 == r2,
{
    let n2 = seq![v, w];
    let l2 = seq![a, b];
    let n1 = seq![w];
    let l1 = seq![b];
    assert(zip_bindings(n2, l2, 0) == Map::<Seq<u8>, u64>::empty());
    assert(zip_bindings(n2, l2, 1) == zip_bindings(n2, l2, 0).insert(n2[0]@, l2[0]));
    assert(zip_bindings(n2, l2, 2) == zip_bindings(n2, l2, 1).insert(n2[1]@, l2[1]));
    assert(zip_bindings(n1, l1, 1) == zip_bindings(n1, l1, 0).insert(n1[0]@, l1[0]));
    assert(zip_bindings(n1, l1, 0) == Map::<Seq<u8>, u64>::empty());
    assert(zip_bindings(n2, l2, 2) =~= zip_bindings(n1, l1, 1));
}

/// Parses `expr`, binds the first `len` names to the first `len` values
/// (IEEE-754 binary64 bit patterns), and evaluates, taking the arithmetic
/// from `ops`.  `len` is authoritative for how many pairs are consumed.
///
/// Fails exactly on the inputs on which `spec_parse` and `spec_check`
/// report a failure, with that error; succeeds with exactly `spec_value`
/// of the parsed tree under the zipped bindings.
pub fn eval_point<F: FloatOps>(
    ops: &F,
    expr: &[u8],
    names: &Vec<Vec<u8>>,
    values: &Vec<u64>,
    len: usize,
) -> (r: Result<u64, Error<Vec<u8>>>)
    requires
        len <= names@.len(),
        len <= values@.len(),
    ensures
        match spec_parse(expr@) {
            None => r matches Err(er) && er@ == spec_parse_err(expr@),
            Some(e) => match spec_check(e, zip_bindings(names@, values@, len as int)) {
                Some(er) => r matches Err(re) && re@ == er,
                None => r matches Ok(v) && v == spec_value(
                    *ops,
                    e,
                    zip_bindings(names@, values@, len as int),
                ),
            },
        },
        eval_point_post(*ops, expr@, names@, values@, len as int, eval_result_view(r)),
{
    match parse(expr) {
        Err(er) => Err(er),
        Ok(e) => {
            let mut ctx = Context::new();
            let mut i: usize = 0;
            while i < len
                invariant
                    i <= len,
                    len <= names@.len(),
                    len <= values@.len(),
                    ctx@ == zip_bindings(names@, values@, i as int),
                decreases len - i,
            {
                let nm = slice_to_vec(names[i].as_slice());
                ctx.var(nm, values[i]);
                i += 1;
            }
            eval(ops, &e, &ctx)
        },
    }
}

} // verus!

//! The expression tree and the error type.
//!
//! The tree is generic in the type that carries literal text and names:
//! executable code uses `Vec<u8>`, specifications use `Seq<u8>`.  The view
//! functions relate the two forms.

use vstd::prelude::*;

verus! {

/// Unary operators: `+x` and `-x`.
#[derive(Clone, Copy, Debug, PartialEq, Eq, Structural)]
pub enum UnOp {
    Plus,
    Neg,
}

/// Binary operators, in concrete syntax `+ - * / % ^`.
#[derive(Clone, Copy, Debug, PartialEq, Eq, Structural)]
pub enum BinOp {
    Add,
    Sub,
    Mul,
    Div,
    Rem,
    Pow,
}

/// A parsed expression.  `T` is `Vec<u8>` in executable trees and `Seq<u8>`
/// in their specification views; literal text is kept exactly as written.
#[derive(Debug, PartialEq, Eq)]
pub enum Expr<T> {
    /// A numeric literal, as its source text.
    Num(T),
    /// A variable reference.
    Var(T),
    /// A unary operation.
    Unary(UnOp, Box<Expr<T>>),
    /// A binary operation.
    Bin(BinOp, Box<Expr<T>>, Box<Expr<T>>),
    /// A call of a named function on an ordered argument list.
    Call(T, Args<T>),
}

/// An ordered list of call arguments.
#[derive(Debug, PartialEq, Eq)]
pub enum Args<T> {
    Nil,
    Cons(Box<Expr<T>>, Box<Args<T>>),
}

/// The specification view of an executable expression tree.
pub open spec fn expr_view(e: Expr<Vec<u8>>) -> Expr<Seq<u8>>
    decreases e,
{
    match e {
        Expr::Num(t) => Expr::Num(t@),
        Expr::Var(t) => Expr::Var(t@),
        Expr::Unary(op, a) => Expr::Unary(op, Box::new(expr_view(*a))),
        Expr::Bin(op, a, b) => Expr::Bin(op, Box::new(expr_view(*a)), Box::new(expr_view(*b))),
        Expr::Call(t, args) => Expr::Call(t@, args_view(args)),
    }
}

/// The specification view of an executable argument list.
pub open spec fn args_view(a: Args<Vec<u8>>) -> Args<Seq<u8>>
    decreases a,
{
    match a {
        Args::Nil => Args::Nil,
        Args::Cons(e, rest) => Args::Cons(Box::new(expr_view(*e)), Box::new(args_view(*rest))),
    }
}

impl View for Expr<Vec<u8>> {
    type V = Expr<Seq<u8>>;

    open spec fn view(&self) -> Expr<Seq<u8>> {
        expr_view(*self)
    }
}

impl View for Args<Vec<u8>> {
    type V = Args<Seq<u8>>;

    open spec fn view(&self) -> Args<Seq<u8>> {
        args_view(*self)
    }
}

/// The number of arguments in a list.
pub open spec fn spec_args_len(a: Args<Seq<u8>>) -> nat
    decreases a,
{
    match a {
        Args::Nil => 0,
        Args::Cons(_, rest) => 1 + spec_args_len(*rest),
    }
}

/// Why a call failed.  Numeric conditions (division by zero, domain errors,
/// overflow) are never errors: they propagate as IEEE-754 infinities or NaN.
#[derive(Debug, PartialEq, Eq)]
pub enum Error<T> {
    /// The expression is not well formed; `pos` is the byte index of the
    /// offending character when a character is at fault, and the position of
    /// the first unusable token, or the input's length, otherwise.
    Parse { pos: usize },
    /// A variable or function name resolves neither to a caller binding nor
    /// to a built-in.
    UnknownName { name: T },
    /// A built-in function was called with the wrong number of arguments.
    Arity { name: T, expected: u32 },
}

impl View for Error<Vec<u8>> {
    type V = Error<Seq<u8>>;

    open spec fn view(&self) -> Error<Seq<u8>> {
        match self {
            Error::Parse { pos } => Error::Parse { pos: *pos },
            Error::UnknownName { name } => Error::UnknownName { name: name@ },
            Error::Arity { name, expected } => Error::Arity { name: name@, expected: *expected },
        }
    }
}

} // verus!

//! The parser.
//!
//! Recursive descent over the token sequence, with conventional precedence,
//! highest to lowest: parenthesized subexpressions and function calls; `^`
//! (right-associative, binding tighter than a unary sign, so `-x^2` is
//! `-(x^2)`, while an exponent may itself be signed, as in `2^-3`);
//! unary `+` and `-`; `*`, `/`, `%` (left-associative); `+`, `-`
//! (left-associative).
//!
//! The grammar is stated by the `p_*` specification functions; the
//! executable parser returns exactly what they describe.

use vstd::prelude::*;
use vstd::slice::slice_to_vec;
use crate::ast::{Args, BinOp, Error, Expr, UnOp, args_view};
use crate::token::{Token, spec_tokens_from, tokenize, toks_view};

verus! {

/// A token sequence, each token with its starting byte index.
pub type Toks = Seq<(Token<Seq<u8>>, usize)>;

/// Sums: `term (('+'|'-') term)*`, left-associative.
pub open spec fn p_sum(t: Toks, i: int) -> Option<(Expr<Seq<u8>>, int)>
    decreases t.len() - i, 4int,
{
    if i < 0 || i > t.len() {
        None
    } else {
        match p_term(t, i) {
            None => None,
            Some((e, j)) => if i < j <= t.len() {
                p_sum_rest(t, j, e)
            } else {
                None
            },
        }
    }
}

/// The remaining `('+'|'-') term` steps of a sum, folded onto `acc`.
pub open spec fn p_sum_rest(t: Toks, i: int, acc: Expr<Seq<u8>>) -> Option<(Expr<Seq<u8>>, int)>
    decreases t.len() - i, 0int,
{
    if 0 <= i < t.len() && (t[i].0 == Token::<Seq<u8>>::Plus || t[i].0 == Token::<Seq<u8>>::Minus) {
        let op = if t[i].0 == Token::<Seq<u8>>::Plus {
            BinOp::Add
        } else {
            BinOp::Sub
        };
        match p_term(t, i + 1) {
            None => None,
            Some((e, j)) => if i < j <= t.len() {
                p_sum_rest(t, j, Expr::Bin(op, Box::new(acc), Box::new(e)))
            } else {
                None
            },
        }
    } else {
        Some((acc, i))
    }
}

/// Terms: `unary (('*'|'/'|'%') unary)*`, left-associative.
pub open spec fn p_term(t: Toks, i: int) -> Option<(Expr<Seq<u8>>, int)>
    decreases t.len() - i, 3int,
{
    if i < 0 || i > t.len() {
        None
    } else {
        match p_unary(t, i) {
            None => None,
            Some((e, j)) => if i < j <= t.len() {
                p_term_rest(t, j, e)
            } else {
                None
            },
        }
    }
}

/// The remaining `('*'|'/'|'%') unary` steps of a term, folded onto `acc`.
pub open spec fn p_term_rest(t: Toks, i: int, acc: Expr<Seq<u8>>) -> Option<(Expr<Seq<u8>>, int)>
    decreases t.len() - i, 0int,
{
    if 0 <= i < t.len() && (t[i].0 == Token::<Seq<u8>>::Star || t[i].0 == Token::<Seq<u8>>::Slash
        || t[i].0 == Token::<Seq<u8>>::Percent) {
        let op = if t[i].0 == Token::<Seq<u8>>::Star {
            BinOp::Mul
        } else if t[i].0 == Token::<Seq<u8>>::Slash {
            BinOp::Div
        } else {
            BinOp::Rem
        };
        match p_unary(t, i + 1) {
            None => None,
            Some((e, j)) => if i < j <= t.len() {
                p_term_rest(t, j, Expr::Bin(op, Box::new(acc), Box::new(e)))
            } else {
                None
            },
        }
    } else {
        Some((acc, i))
    }
}

/// A signed factor: `('+'|'-') unary | power`.
pub open spec fn p_unary(t: Toks, i: int) -> Option<(Expr<Seq<u8>>, int)>
    decreases t.len() - i, 2int,
{
    if i < 0 || i > t.len() {
        None
    } else if i < t.len() && t[i].0 == Token::<Seq<u8>>::Plus {
        match p_unary(t, i + 1) {
            None => None,
            Some((e, j)) => Some((Expr::Unary(UnOp::Plus, Box::new(e)), j)),
        }
    } else if i < t.len() && t[i].0 == Token::<Seq<u8>>::Minus {
        match p_unary(t, i + 1) {
            None => None,
            Some((e, j)) => Some((Expr::Unary(UnOp::Neg, Box::new(e)), j)),
        }
    } else {
        p_power(t, i)
    }
}

/// Exponentiation: `atom ('^' unary)?`, right-associative.
pub open spec fn p_power(t: Toks, i: int) -> Option<(Expr<Seq<u8>>, int)>
    decreases t.len() - i, 1int,
{
    if i < 0 || i > t.len() {
        None
    } else {
        match p_atom(t, i) {
            None => None,
            Some((b, j)) => if i < j && j < t.len() && t[j].0 == Token::<Seq<u8>>::Caret {
                match p_unary(t, j + 1) {
                    None => None,
                    Some((e, k)) => Some((Expr::Bin(BinOp::Pow, Box::new(b), Box::new(e)), k)),
                }
            } else {
                Some((b, j))
            },
        }
    }
}

/// Atoms: a literal, a variable, a call `name(args...)`, or `( sum )`.
pub open spec fn p_atom(t: Toks, i: int) -> Option<(Expr<Seq<u8>>, int)>
    decreases t.len() - i, 0int,
{
    if i < 0 || i >= t.len() {
        None
    } else {
        match t[i].0 {
            Token::Num(txt) => Some((Expr::Num(txt), i + 1)),
            Token::Ident(name) => if i + 1 < t.len() && t[i + 1].0 == Token::<Seq<u8>>::LParen {
                if i + 2 < t.len() && t[i + 2].0 == Token::<Seq<u8>>::RParen {
                    Some((Expr::Call(name, Args::Nil), i + 3))
                } else {
                    match p_args(t, i + 2) {
                        None => None,
                        Some((args, j)) => if i < j && j < t.len() && t[j].0 == Token::<
                            Seq<u8>,
                        >::RParen {
                            Some((Expr::Call(name, args), j + 1))
                        } else {
                            None
                        },
                    }
                }
            } else {
                Some((Expr::Var(name), i + 1))
            },
            Token::LParen => match p_sum(t, i + 1) {
                None => None,
                Some((e, j)) => if 0 <= j < t.len() && t[j].0 == Token::<Seq<u8>>::RParen {
                    Some((e, j + 1))
                } else {
                    None
                },
            },
            _ => None,
        }
    }
}

/// Argument lists: `sum (',' sum)*`.
pub open spec fn p_args(t: Toks, i: int) -> Option<(Args<Seq<u8>>, int)>
    decreases t.len() - i, 5int,
{
    if i < 0 || i > t.len() {
        None
    } else {
        match p_sum(t, i) {
            None => None,
            Some((e, j)) => if i < j && j < t.len() && t[j].0 == Token::<Seq<u8>>::Comma {
                match p_args(t, j + 1) {
                    None => None,
                    Some((rest, k)) => Some((Args::Cons(Box::new(e), Box::new(rest)), k)),
                }
            } else {
                Some((Args::Cons(Box::new(e), Box::new(Args::Nil)), j))
            },
        }
    }
}

fn parse_sum(t: &Vec<(Token<Vec<u8>>, usize)>, i: usize) -> (r: Option<(Expr<Vec<u8>>, usize)>)
    requires
        i <= t@.len(),
    ensures
        match r {
            Some((e, j)) => i < j <= t@.len() && p_sum(toks_view(t@), i as int) == Some(
                (e@, j as int),
            ),
            None => p_sum(toks_view(t@), i as int) is None,
        },
    decreases t@.len() - i, 4int,
{
    match parse_term(t, i) {
        None => None,
        Some((e, j)) => parse_sum_rest(t, j, e),
    }
}

fn parse_sum_rest(t: &Vec<(Token<Vec<u8>>, usize)>, i: usize, acc: Expr<Vec<u8>>) -> (r: Option<
    (Expr<Vec<u8>>, usize),
>)
    requires
        i <= t@.len(),
    ensures
        match r {
            Some((e, j)) => i <= j <= t@.len() && p_sum_rest(toks_view(t@), i as int, acc@) == Some(
                (e@, j as int),
            ),
            None => p_sum_rest(toks_view(t@), i as int, acc@) is None,
        },
    decreases t@.len() - i, 0int,
{
    if i < t.len() {
        match &t[i].0 {
            Token::Plus => {
                match parse_term(t, i + 1) {
                    None => None,
                    Some((e, j)) => parse_sum_rest(
                        t,
                        j,
                        Expr::Bin(BinOp::Add, Box::new(acc), Box::new(e)),
                    ),
                }
            },
            Token::Minus => {
                match parse_term(t, i + 1) {
                    None => None,
                    Some((e, j)) => parse_sum_rest(
                        t,
                        j,
                        Expr::Bin(BinOp::Sub, Box::new(acc), Box::new(e)),
                    ),
                }
            },
            _ => Some((acc, i)),
        }
    } else {
        Some((acc, i))
    }
}

fn parse_term(t: &Vec<(Token<Vec<u8>>, usize)>, i: usize) -> (r: Option<(Expr<Vec<u8>>, usize)>)
    requires
        i <= t@.len(),
    ensures
        match r {
            Some((e, j)) => i < j <= t@.len() && p_term(toks_view(t@), i as int) == Some(
                (e@, j as int),
            ),
            None => p_term(toks_view(t@), i as int) is None,
        },
    decreases t@.len() - i, 3int,
{
    match parse_unary(t, i) {
        None => None,
        Some((e, j)) => parse_term_rest(t, j, e),
    }
}

fn parse_term_rest(t: &Vec<(Token<Vec<u8>>, usize)>, i: usize, acc: Expr<Vec<u8>>) -> (r: Option<
    (Expr<Vec<u8>>, usize),
>)
    requires
        i <= t@.len(),
    ensures
        match r {
            Some((e, j)) => i <= j <= t@.len() && p_term_rest(toks_view(t@), i as int, acc@)
                == Some((e@, j as int)),
            None => p_term_rest(toks_view(t@), i as int, acc@) is None,
        },
    decreases t@.len() - i, 0int,
{
    if i < t.len() {
        match &t[i].0 {
            Token::Star => {
                match parse_unary(t, i + 1) {
                    None => None,
                    Some((e, j)) => parse_term_rest(
                        t,
                        j,
                        Expr::Bin(BinOp::Mul, Box::new(acc), Box::new(e)),
                    ),
                }
            },
            Token::Slash => {
                match parse_unary(t, i + 1) {
                    None => None,
                    Some((e, j)) => parse_term_rest(
                        t,
                        j,
                        Expr::Bin(BinOp::Div, Box::new(acc), Box::new(e)),
                    ),
                }
            },
            Token::Percent => {
                match parse_unary(t, i + 1) {
                    None => None,
                    Some((e, j)) => parse_term_rest(
                        t,
                        j,
                        Expr::Bin(BinOp::Rem, Box::new(acc), Box::new(e)),
                    ),
                }
            },
            _ => Some((acc, i)),
        }
    } else {
        Some((acc, i))
    }
}

fn parse_unary(t: &Vec<(Token<Vec<u8>>, usize)>, i: usize) -> (r: Option<(Expr<Vec<u8>>, usize)>)
    requires
        i <= t@.len(),
    ensures
        match r {
            Some((e, j)) => i < j <= t@.len() && p_unary(toks_view(t@), i as int) == Some(
                (e@, j as int),
            ),
            None => p_unary(toks_view(t@), i as int) is None,
        },
    decreases t@.len() - i, 2int,
{
    if i < t.len() {
        match &t[i].0 {
            Token::Plus => {
                match parse_unary(t, i + 1) {
                    None => None,
                    Some((e, j)) => Some((Expr::Unary(UnOp::Plus, Box::new(e)), j)),
                }
            },
            Token::Minus => {
                match parse_unary(t, i + 1) {
                    None => None,
                    Some((e, j)) => Some((Expr::Unary(UnOp::Neg, Box::new(e)), j)),
                }
            },
            _ => parse_power(t, i),
        }
    } else {
        parse_power(t, i)
    }
}

fn parse_power(t: &Vec<(Token<Vec<u8>>, usize)>, i: usize) -> (r: Option<(Expr<Vec<u8>>, usize)>)
    requires
        i <= t@.len(),
    ensures
        match r {
            Some((e, j)) => i < j <= t@.len() && p_power(toks_view(t@), i as int) == Some(
                (e@, j as int),
            ),
            None => p_power(toks_view(t@), i as int) is None,
        },
    decreases t@.len() - i, 1int,
{
    match parse_atom(t, i) {
        None => None,
        Some((b, j)) => {
            if j < t.len() {
                match &t[j].0 {
                    Token::Caret => {
                        match parse_unary(t, j + 1) {
                            None => None,
                            Some((e, k)) => Some(
                                (Expr::Bin(BinOp::Pow, Box::new(b), Box::new(e)), k),
                            ),
                        }
                    },
                    _ => Some((b, j)),
                }
            } else {
                Some((b, j))
            }
        },
    }
}

fn parse_atom(t: &Vec<(Token<Vec<u8>>, usize)>, i: usize) -> (r: Option<(Expr<Vec<u8>>, usize)>)
    requires
        i <= t@.len(),
    ensures
        match r {
            Some((e, j)) => i < j <= t@.len() && p_atom(toks_view(t@), i as int) == Some(
                (e@, j as int),
            ),
            None => p_atom(toks_view(t@), i as int) is None,
        },
    decreases t@.len() - i, 0int,
{
    if i >= t.len() {
        return None;
    }
    match &t[i].0 {
        Token::Num(txt) => {
            let v = slice_to_vec(txt.as_slice());
            let ghost vv = v@;
            let ex = Expr::Num(v);
            proof {
                assert(toks_view(t@)[i as int].0 == Token::<Seq<u8>>::Num(vv));
                assert(ex@ == Expr::<Seq<u8>>::Num(vv));
            }
            Some((ex, i + 1))
        },
        Token::Ident(name) => {
            let nm = slice_to_vec(name.as_slice());
            let ghost nv = nm@;
            proof {
                assert(toks_view(t@)[i as int].0 == Token::<Seq<u8>>::Ident(nv));
            }
            let called = i + 1 < t.len() && matches!(&t[i + 1].0, Token::LParen);
            if called {
                if i + 2 < t.len() && matches!(&t[i + 2].0, Token::RParen) {
                    let ex = Expr::Call(nm, Args::Nil);
                    proof {
                        assert(args_view(Args::<Vec<u8>>::Nil) == Args::<Seq<u8>>::Nil);
                        assert(ex@ == Expr::<Seq<u8>>::Call(nv, Args::Nil));
                    }
                    Some((ex, i + 3))
                } else {
                    match parse_args(t, i + 2) {
                        None => None,
                        Some((args, j)) => {
                            if j < t.len() && matches!(&t[j].0, Token::RParen) {
                                let ghost av = args_view(args);
                                let ex = Expr::Call(nm, args);
                                proof {
                                    assert(ex@ == Expr::<Seq<u8>>::Call(nv, av));
                                }
                                Some((ex, j + 1))
                            } else {
                                None
                            }
                        },
                    }
                }
            } else {
                let ex = Expr::Var(nm);
                proof {
                    assert(ex@ == Expr::<Seq<u8>>::Var(nv));
                }
                Some((ex, i + 1))
            }
        },
        Token::LParen => {
            match parse_sum(t, i + 1) {
                None => None,
                Some((e, j)) => {
                    if j < t.len() && matches!(&t[j].0, Token::RParen) {
                        Some((e, j + 1))
                    } else {
                        None
                    }
                },
            }
        },
        _ => None,
    }
}

fn parse_args(t: &Vec<(Token<Vec<u8>>, usize)>, i: usize) -> (r: Option<(Args<Vec<u8>>, usize)>)
    requires
        i <= t@.len(),
    ensures
        match r {
            Some((a, j)) => i < j <= t@.len() && p_args(toks_view(t@), i as int) == Some(
                (args_view(a), j as int),
            ),
            None => p_args(toks_view(t@), i as int) is None,
        },
    decreases t@.len() - i, 5int,
{
    match parse_sum(t, i) {
        None => None,
        Some((e, j)) => {
            if j < t.len() && matches!(&t[j].0, Token::Comma) {
                match parse_args(t, j + 1) {
                    None => None,
                    Some((rest, k)) => {
                        let ghost ev = e@;
                        let ghost rv = args_view(rest);
                        let a = Args::Cons(Box::new(e), Box::new(rest));
                        proof {
                            assert(args_view(a) == Args::Cons(Box::new(ev), Box::new(rv)));
                        }
                        Some((a, k))
                    },
                }
            } else {
                let ghost ev = e@;
                let a = Args::Cons(Box::new(e), Box::new(Args::Nil));
                proof {
                    assert(args_view(a) == Args::Cons(Box::new(ev), Box::new(Args::Nil)));
                }
                Some((a, j))
            }
        },
    }
}

/// The tree of a byte string that is a complete expression, `None` otherwise.
pub open spec fn spec_parse(s: Seq<u8>) -> Option<Expr<Seq<u8>>> {
    match spec_tokens_from(s, 0) {
        Err(_) => None,
        Ok(ts) => match p_sum(ts, 0) {
            None => None,
            Some((e, j)) => if j == ts.len() {
                Some(e)
            } else {
                None
            },
        },
    }
}

/// The error reported when `spec_parse(s)` is `None`: the index of the first
/// byte that starts no token, the position of the first token that cannot
/// continue the expression, or the input's length when the expression ends
/// too early.
pub open spec fn spec_parse_err(s: Seq<u8>) -> Error<Seq<u8>> {
    match spec_tokens_from(s, 0) {
        Err(p) => Error::Parse { pos: p },
        Ok(ts) => match p_sum(ts, 0) {
            None => Error::Parse { pos: s.len() as usize },
            Some((e, j)) => if 0 <= j < ts.len() {
                Error::Parse { pos: ts[j].1 }
            } else {
                Error::Parse { pos: s.len() as usize }
            },
        },
    }
}

/// The specification view of a parse outcome.
pub open spec fn parse_result_view(r: Result<Expr<Vec<u8>>, Error<Vec<u8>>>) -> Result<
    Expr<Seq<u8>>,
    Error<Seq<u8>>,
> {
    match r {
        Ok(e) => Ok(e@),
        Err(er) => Err(er@),
    }
}

/// What `parse` guarantees of an outcome `r` on input `s`: the outcome is a
/// function of the input bytes alone.
pub open spec fn parse_post(s: Seq<u8>, r: Result<Expr<Seq<u8>>, Error<Seq<u8>>>) -> bool {
    match spec_parse(s) {
        Some(e) => r == Ok::<Expr<Seq<u8>>, Error<Seq<u8>>>(e),
        None => r == Err::<Expr<Seq<u8>>, Error<Seq<u8>>>(spec_parse_err(s)),
    }
}

/// Determinism of parsing: any two outcomes on the same input are equal,
/// tree and error alike.
pub proof fn lemma_parse_deterministic(
    s: Seq<u8>,
    r1: Result<Expr<Seq<u8>>, Error<Seq<u8>>>,
    r2: Result<Expr<Seq<u8>>, Error<Seq<u8>>>,
)
    requires
        parse_post(s, r1),
        parse_post(s, r2),
    ensures
        r1 == r2,
{
}

/// Parses a byte string into an expression tree.
///
/// Returns the tree that the grammar (`spec_parse`) assigns to the input,
/// and exactly the error `spec_parse_err` describes when the input is not a
/// complete expression.
pub fn parse(input: &[u8]) -> (r: Result<Expr<Vec<u8>>, Error<Vec<u8>>>)
    ensures
        match spec_parse(input@) {
            Some(e) => r matches Ok(pe) && pe@ == e,
            None => r matches Err(er) && er@ == spec_parse_err(input@),
        },
        parse_post(input@, parse_result_view(r)),
{
    match tokenize(input) {
        Err(p) => Err(Error::Parse { pos: p }),
        Ok(toks) => {
            match parse_sum(&toks, 0) {
                None => Err(Error::Parse { pos: input.len() }),
                Some((e, j)) => {
                    if j == toks.len() {
                        Ok(e)
                    } else {
                        Err(Error::Parse { pos: toks[j].1 })
                    }
                },
            }
        },
    }
}

} // verus!

//! Tokens and the tokenizer.
//!
//! The input is a byte string.  Whitespace separates tokens and is otherwise
//! insignificant.  Numeric literals are decimal with an optional fraction and
//! an optional exponent (`1`, `1.5`, `2e-3`, `.5`); identifiers start with an
//! ASCII letter and continue with letters, digits or underscores; the
//! remaining tokens are single characters.  Every token is paired with the
//! byte index at which it starts.

use vstd::prelude::*;
use vstd::slice::slice_to_vec;

verus! {

/// A token.  `T` carries the text of numbers and identifiers: `Vec<u8>` in
/// executable code, `Seq<u8>` in specifications.
#[derive(Debug, PartialEq, Eq)]
pub enum Token<T> {
    Num(T),
    Ident(T),
    Plus,
    Minus,
    Star,
    Slash,
    Percent,
    Caret,
    LParen,
    RParen,
    Comma,
}

impl View for Token<Vec<u8>> {
    type V = Token<Seq<u8>>;

    open spec fn view(&self) -> Token<Seq<u8>> {
        match self {
            Token::Num(t) => Token::Num(t@),
            Token::Ident(t) => Token::Ident(t@),
            Token::Plus => Token::Plus,
            Token::Minus => Token::Minus,
            Token::Star => Token::Star,
            Token::Slash => Token::Slash,
            Token::Percent => Token::Percent,
            Token::Caret => Token::Caret,
            Token::LParen => Token::LParen,
            Token::RParen => Token::RParen,
            Token::Comma => Token::Comma,
        }
    }
}

/// The specification view of an executable token sequence.
pub open spec fn toks_view(ts: Seq<(Token<Vec<u8>>, usize)>) -> Seq<(Token<Seq<u8>>, usize)> {
    ts.map(|k: int, p: (Token<Vec<u8>>, usize)| (p.0@, p.1))
}

/// ASCII space, tab, line feed or carriage return.
pub open spec fn is_ws(b: u8) -> bool {
    b == 32 || b == 9 || b == 10 || b == 13
}

/// ASCII `0` to `9`.
pub open spec fn is_digit(b: u8) -> bool {
    48 <= b && b <= 57
}

/// ASCII `A` to `Z` or `a` to `z`.
pub open spec fn is_letter(b: u8) -> bool {
    (65 <= b && b <= 90) || (97 <= b && b <= 122)
}

/// A byte that may continue an identifier.
pub open spec fn is_ident_char(b: u8) -> bool {
    is_letter(b) || is_digit(b) || b == 95
}

/// The token formed by a single operator or punctuation character, if any.
pub open spec fn single_token(b: u8) -> Option<Token<Seq<u8>>> {
    if b == 43 {
        Some(Token::Plus)
    } else if b == 45 {
        Some(Token::Minus)
    } else if b == 42 {
        Some(Token::Star)
    } else if b == 47 {
        Some(Token::Slash)
    } else if b == 37 {
        Some(Token::Percent)
    } else if b == 94 {
        Some(Token::Caret)
    } else if b == 40 {
        Some(Token::LParen)
    } else if b == 41 {
        Some(Token::RParen)
    } else if b == 44 {
        Some(Token::Comma)
    } else {
        None
    }
}

/// The first index at or after `i` that does not hold a digit.
pub open spec fn scan_digits(s: Seq<u8>, i: int) -> int
    decreases s.len() - i,
{
    if i < 0 || i >= s.len() {
        i
    } else if is_digit(s[i]) {
        scan_digits(s, i + 1)
    } else {
        i
    }
}

/// The first index at or after `i` that does not hold an identifier character.
pub open spec fn scan_ident(s: Seq<u8>, i: int) -> int
    decreases s.len() - i,
{
    if i < 0 || i >= s.len() {
        i
    } else if is_ident_char(s[i]) {
        scan_ident(s, i + 1)
    } else {
        i
    }
}

/// Extends a numeric literal ending at `m` over an exponent part, if one
/// follows: `e` or `E`, an optional sign, and at least one digit.  Without
/// the digit the `e` is not part of the number.
pub open spec fn exp_end(s: Seq<u8>, m: int) -> int {
    if 0 <= m < s.len() && (s[m] == 101 || s[m] == 69) {
        if m + 1 < s.len() && is_digit(s[m + 1]) {
            scan_digits(s, m + 1)
        } else if m + 1 < s.len() && (s[m + 1] == 43 || s[m + 1] == 45) && m + 2 < s.len()
            && is_digit(s[m + 2]) {
            scan_digits(s, m + 2)
        } else {
            m
        }
    } else {
        m
    }
}

/// The end of the numeric literal starting at `i`.  Meaningful when a digit
/// stands at `i`, or a dot with a digit right after it; a dot not followed by
/// a digit ends the literal.
pub open spec fn num_end(s: Seq<u8>, i: int) -> int {
    let m = if 0 <= i < s.len() && s[i] == 46 {
        scan_digits(s, i + 1)
    } else {
        let d = scan_digits(s, i);
        if d < s.len() && s[d] == 46 && d + 1 < s.len() && is_digit(s[d + 1]) {
            scan_digits(s, d + 1)
        } else {
            d
        }
    };
    exp_end(s, m)
}

/// Prepends a token to the outcome of tokenizing the rest.
pub open spec fn cons_tok(
    t: (Token<Seq<u8>>, usize),
    rest: Result<Seq<(Token<Seq<u8>>, usize)>, usize>,
) -> Result<Seq<(Token<Seq<u8>>, usize)>, usize> {
    match rest {
        Ok(v) => Ok(seq![t] + v),
        Err(p) => Err(p),
    }
}

/// The token sequence of `s` from index `i` on, or the index of the first
/// byte that starts no token.
pub open spec fn spec_tokens_from(s: Seq<u8>, i: int) -> Result<
    Seq<(Token<Seq<u8>>, usize)>,
    usize,
>
    decreases s.len() - i,
{
    if i < 0 || i >= s.len() {
        Ok(Seq::empty())
    } else {
        let b = s[i];
        if is_ws(b) {
            spec_tokens_from(s, i + 1)
        } else if single_token(b) is Some {
            cons_tok((single_token(b)->Some_0, i as usize), spec_tokens_from(s, i + 1))
        } else if is_digit(b) || (b == 46 && i + 1 < s.len() && is_digit(s[i + 1])) {
            let j = num_end(s, i);
            if i < j <= s.len() {
                cons_tok((Token::Num(s.subrange(i, j)), i as usize), spec_tokens_from(s, j))
            } else {
                Err(i as usize)
            }
        } else if is_letter(b) {
            let j = scan_ident(s, i);
            if i < j <= s.len() {
                cons_tok((Token::Ident(s.subrange(i, j)), i as usize), spec_tokens_from(s, j))
            } else {
                Err(i as usize)
            }
        } else {
            Err(i as usize)
        }
    }
}

fn scan_digits_exec(s: &[u8], i: usize) -> (j: usize)
    requires
        i <= s@.len(),
    ensures
        i <= j <= s@.len(),
        j as int == scan_digits(s@, i as int),
    decreases s@.len() - i,
{
    let mut j = i;
    while j < s.len() && 48 <= s[j] && s[j] <= 57
        invariant
            i <= j <= s@.len(),
            scan_digits(s@, i as int) == scan_digits(s@, j as int),
        decreases s@.len() - j,
    {
        j += 1;
    }
    j
}

fn scan_ident_exec(s: &[u8], i: usize) -> (j: usize)
    requires
        i <= s@.len(),
    ensures
        i <= j <= s@.len(),
        j as int == scan_ident(s@, i as int),
    decreases s@.len() - i,
{
    let mut j = i;
    while j < s.len() && ((65 <= s[j] && s[j] <= 90) || (97 <= s[j] && s[j] <= 122) || (48 <= s[j]
        && s[j] <= 57) || s[j] == 95)
        invariant
            i <= j <= s@.len(),
            scan_ident(s@, i as int) == scan_ident(s@, j as int),
        decreases s@.len() - j,
    {
        j += 1;
    }
    j
}

fn num_end_exec(s: &[u8], i: usize) -> (j: usize)
    requires
        i < s@.len(),
        is_digit(s@[i as int]) || (s@[i as int] == 46 && i + 1 < s@.len() && is_digit(
            s@[i as int + 1],
        )),
    ensures
        i < j <= s@.len(),
        j as int == num_end(s@, i as int),
{
    let m: usize;
    if s[i] == 46 {
        m = scan_digits_exec(s, i + 1);
    } else {
        let d = scan_digits_exec(s, i + 1);
        assert(d as int == scan_digits(s@, i as int));
        if d < s.len() && s[d] == 46 && d + 1 < s.len() && 48 <= s[d + 1] && s[d + 1] <= 57 {
            m = scan_digits_exec(s, d + 2);
            assert(m as int == scan_digits(s@, d as int + 1));
        } else {
            m = d;
        }
    }
    if m < s.len() && (s[m] == 101 || s[m] == 69) {
        if m + 1 < s.len() && 48 <= s[m + 1] && s[m + 1] <= 57 {
            let j = scan_digits_exec(s, m + 2);
            assert(j as int == scan_digits(s@, m as int + 1));
            j
        } else if m + 1 < s.len() && (s[m + 1] == 43 || s[m + 1] == 45) {
            if m + 2 < s.len() && 48 <= s[m + 2] && s[m + 2] <= 57 {
                let j = scan_digits_exec(s, m + 2);
                j
            } else {
                m
            }
        } else {
            m
        }
    } else {
        m
    }
}

fn single_tok(b: u8) -> (r: Option<Token<Vec<u8>>>)
    ensures
        match r {
            Some(t) => single_token(b) == Some(t@),
            None => single_token(b) is None,
        },
{
    if b == 43 {
        Some(Token::Plus)
    } else if b == 45 {
        Some(Token::Minus)
    } else if b == 42 {
        Some(Token::Star)
    } else if b == 47 {
        Some(Token::Slash)
    } else if b == 37 {
        Some(Token::Percent)
    } else if b == 94 {
        Some(Token::Caret)
    } else if b == 40 {
        Some(Token::LParen)
    } else if b == 41 {
        Some(Token::RParen)
    } else if b == 44 {
        Some(Token::Comma)
    } else {
        None
    }
}

/// Combines the tokens already read with the outcome on the rest.
pub open spec fn cons_all(
    pre: Seq<(Token<Seq<u8>>, usize)>,
    rest: Result<Seq<(Token<Seq<u8>>, usize)>, usize>,
) -> Result<Seq<(Token<Seq<u8>>, usize)>, usize> {
    match rest {
        Ok(v) => Ok(pre + v),
        Err(p) => Err(p),
    }
}

/// Splits a byte string into tokens, each with its starting byte index, or
/// returns the index of the first byte that starts no token.
pub fn tokenize(s: &[u8]) -> (r: Result<Vec<(Token<Vec<u8>>, usize)>, usize>)
    ensures
        match r {
            Ok(v) => spec_tokens_from(s@, 0) == Ok::<_, usize>(toks_view(v@)),
            Err(p) => spec_tokens_from(s@, 0) == Err::<Seq<(Token<Seq<u8>>, usize)>, _>(p),
        },
{
    let mut toks: Vec<(Token<Vec<u8>>, usize)> = Vec::new();
    let mut i: usize = 0;
    while i < s.len()
        invariant
            i <= s@.len(),
            spec_tokens_from(s@, 0) == cons_all(toks_view(toks@), spec_tokens_from(s@, i as int)),
        decreases s@.len() - i,
    {
        let ghost pre = toks_view(toks@);
        let ghost rest0 = spec_tokens_from(s@, i as int);
        let b = s[i];
        if b == 32 || b == 9 || b == 10 || b == 13 {
            i += 1;
        } else if let Some(t) = single_tok(b) {
            let ghost tv = (t@, i);
            toks.push((t, i));
            proof {
                assert(toks_view(toks@) =~= pre + seq![tv]);
                if spec_tokens_from(s@, i as int + 1) is Ok {
                    assert((pre + seq![tv]) + spec_tokens_from(s@, i as int + 1)->Ok_0 =~= pre + (
                    seq![tv] + spec_tokens_from(s@, i as int + 1)->Ok_0));
                }
            }
            i += 1;
        } else if (48 <= b && b <= 57) || (b == 46 && i + 1 < s.len() && 48 <= s[i + 1] && s[i + 1]
            <= 57) {
            let j = num_end_exec(s, i);
            let text = slice_to_vec(&s[i..j]);
            let ghost tv = (Token::<Seq<u8>>::Num(s@.subrange(i as int, j as int)), i);
            assert(text@ =~= s@.subrange(i as int, j as int));
            toks.push((Token::Num(text), i));
            proof {
                assert(toks_view(toks@) =~= pre + seq![tv]);
                if spec_tokens_from(s@, j as int) is Ok {
                    assert((pre + seq![tv]) + spec_tokens_from(s@, j as int)->Ok_0 =~= pre + (
                    seq![tv] + spec_tokens_from(s@, j as int)->Ok_0));
                }
            }
            i = j;
        } else if (65 <= b && b <= 90) || (97 <= b && b <= 122) {
            let j = scan_ident_exec(s, i + 1);
            assert(j as int == scan_ident(s@, i as int));
            let text = slice_to_vec(&s[i..j]);
            let ghost tv = (Token::<Seq<u8>>::Ident(s@.subrange(i as int, j as int)), i);
            assert(text@ =~= s@.subrange(i as int, j as int));
            toks.push((Token::Ident(text), i));
            proof {
                assert(toks_view(toks@) =~= pre + seq![tv]);
                if spec_tokens_from(s@, j as int) is Ok {
                    assert((pre + seq![tv]) + spec_tokens_from(s@, j as int)->Ok_0 =~= pre + (
                    seq![tv] + spec_tokens_from(s@, j as int)->Ok_0));
                }
            }
            i = j;
        } else {
            assert(spec_tokens_from(s@, i as int) == Err::<Seq<(Token<Seq<u8>>, usize)>, _>(
                i as usize,
            ));
            return Err(i);
        }
    }
    proof {
        assert(toks_view(toks@) + Seq::<(Token<Seq<u8>>, usize)>::empty() =~= toks_view(toks@));
    }
    Ok(toks)
}

} // verus!

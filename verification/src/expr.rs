//! The boolean expression language of `#if` / `#elseif` conditions.
//!
//! Grammar over the tokens `0 1 ! && || ( )`: values are folded strictly left
//! to right; `&&` and `||` share one precedence level (parentheses are the
//! only grouping), and `!` binds tightest, with repeated `!` toggling.

use vstd::prelude::*;

use crate::chars::is_space;
use crate::chars::spec_is_space;

verus! {

/// One token of a condition string.
#[derive(Clone, Copy)]
pub enum Token {
    LeftParen,
    RightParen,
    And,
    Or,
    Not,
    Zero,
    One,
}

/// Why a condition string was rejected.
#[derive(Clone, Copy, Debug, PartialEq, Eq)]
pub enum ExprError {
    /// A character that is no token: tokenization failed.
    BadSymbol,
    /// The token sequence does not follow the grammar.
    BadToken,
}

/// The pending fold operation while evaluating left to right: the first value
/// is assigned, later ones are combined with the operator seen before them.
#[derive(Clone, Copy)]
pub enum Op {
    Start,
    And,
    Or,
}

/// Combine the running result with the next value.
pub open spec fn spec_apply(op: Op, acc: bool, v: bool) -> bool {
    match op {
        Op::Start => v,
        Op::And => acc && v,
        Op::Or => acc || v,
    }
}

/// Prepend a token to a tokenization result.
pub open spec fn spec_cons(t: Token, rest: Option<Seq<Token>>) -> Option<Seq<Token>> {
    match rest {
        Some(ts) => Some(seq![t] + ts),
        None => None,
    }
}

/// The tokens of a condition string: whitespace is skipped, `||` and `&&` are
/// read before the single characters `( ) ! 0 1`, and any other character
/// fails the whole tokenization.
pub open spec fn spec_tokens(s: Seq<char>) -> Option<Seq<Token>>
    decreases s.len(),
{
    if s.len() == 0 {
        Some(Seq::empty())
    } else if spec_is_space(s[0]) {
        spec_tokens(s.skip(1))
    } else if s.len() >= 2 && s[0] == '|' && s[1] == '|' {
        spec_cons(Token::Or, spec_tokens(s.skip(2)))
    } else if s.len() >= 2 && s[0] == '&' && s[1] == '&' {
        spec_cons(Token::And, spec_tokens(s.skip(2)))
    } else if s[0] == '(' {
        spec_cons(Token::LeftParen, spec_tokens(s.skip(1)))
    } else if s[0] == ')' {
        spec_cons(Token::RightParen, spec_tokens(s.skip(1)))
    } else if s[0] == '!' {
        spec_cons(Token::Not, spec_tokens(s.skip(1)))
    } else if s[0] == '0' {
        spec_cons(Token::Zero, spec_tokens(s.skip(1)))
    } else if s[0] == '1' {
        spec_cons(Token::One, spec_tokens(s.skip(1)))
    } else {
        None
    }
}

/// Evaluation state "a value is expected next", at token position `i`.
/// `acc` and `op` carry the left-to-right fold, `neg` the parity of the `!`
/// prefix read so far; `paren` says whether this level must end on `)`.
/// Returns the level's value and the position just past what it consumed.
pub open spec fn spec_value(
    ts: Seq<Token>,
    i: int,
    paren: bool,
    acc: bool,
    op: Op,
    neg: bool,
) -> Option<(bool, int)>
    decreases ts.len() - i, 0int,
{
    if i < 0 || i >= ts.len() {
        None
    } else {
        match ts[i] {
            Token::Not => spec_value(ts, i + 1, paren, acc, op, !neg),
            Token::One => spec_after(ts, i + 1, paren, spec_apply(op, acc, !neg)),
            Token::Zero => spec_after(ts, i + 1, paren, spec_apply(op, acc, neg)),
            Token::LeftParen => match spec_value(ts, i + 1, true, false, Op::Start, false) {
                None => None,
                Some(sub) => {
                    // For termination the continuation index is bounded by the
                    // clamp; `eval_inner` shows that it is `sub.1` itself.
                    let jl = if sub.1 < i + 2 {
                        i + 2
                    } else {
                        sub.1
                    };
                    let j = if jl > ts.len() {
                        ts.len() as int
                    } else {
                        jl
                    };
                    spec_after(ts, j, paren, spec_apply(op, acc, neg ^ sub.0))
                },
            },
            _ => None,
        }
    }
}

/// Evaluation state "an operator, a closing `)` or the end is expected".
pub open spec fn spec_after(ts: Seq<Token>, i: int, paren: bool, acc: bool) -> Option<(bool, int)>
    decreases ts.len() - i, 1int,
{
    if i < 0 {
        None
    } else if i >= ts.len() {
        if paren {
            None
        } else {
            Some((acc, i))
        }
    } else {
        match ts[i] {
            Token::And => spec_value(ts, i + 1, paren, acc, Op::And, false),
            Token::Or => spec_value(ts, i + 1, paren, acc, Op::Or, false),
            Token::RightParen => if paren {
                Some((acc, i + 1))
            } else {
                None
            },
            _ => None,
        }
    }
}

/// The value of a whole token sequence, if it follows the grammar.
pub open spec fn spec_eval_tokens(ts: Seq<Token>) -> Option<bool> {
    match spec_value(ts, 0, false, false, Op::Start, false) {
        Some(p) => Some(p.0),
        None => None,
    }
}

/// The result of `eval` on any condition string: tokenize, then evaluate.
pub open spec fn spec_eval(s: Seq<char>) -> Result<bool, ExprError> {
    match spec_tokens(s) {
        None => Err(ExprError::BadSymbol),
        Some(ts) => match spec_eval_tokens(ts) {
            None => Err(ExprError::BadToken),
            Some(v) => Ok(v),
        },
    }
}

/// Double negation cancels: two leading `!` leave the evaluation of what
/// follows unchanged, in any evaluation state.
pub proof fn lemma_double_not(ts: Seq<Token>, i: int, paren: bool, acc: bool, op: Op, neg: bool)
    requires
        0 <= i,
        i + 2 <= ts.len(),
        ts[i] is Not,
        ts[i + 1] is Not,
    ensures
        spec_value(ts, i, paren, acc, op, neg) == spec_value(ts, i + 2, paren, acc, op, neg),
{
    assert(spec_value(ts, i, paren, acc, op, neg) == spec_value(ts, i + 1, paren, acc, op, !neg));
}

/// Turn a condition string into tokens.
pub fn tokenize(s: &str) -> (r: Result<Vec<Token>, ExprError>)
    ensures
        match r {
            Ok(v) => spec_tokens(s@) == Some(v@),
            Err(e) => spec_tokens(s@) is None && e == ExprError::BadSymbol,
        },
{
    let n = s.unicode_len();
    let mut toks: Vec<Token> = Vec::new();
    proof {
        assert(s@.skip(0) =~= s@);
        assert(toks@ + Seq::<Token>::empty() =~= toks@);
    }
    let mut i: usize = 0;
    while i < n
        invariant
            i <= n,
            n == s@.len(),
            match spec_tokens(s@.skip(i as int)) {
                Some(t) => spec_tokens(s@) == Some(toks@ + t),
                None => spec_tokens(s@) is None,
            },
        decreases n - i,
    {
        proof {
            assert(s@.skip(i as int)[0] == s@[i as int]);
            assert(s@.skip(i as int).skip(1) =~= s@.skip(i + 1));
        }
        let c = s.get_char(i);
        if is_space(c) {
            i = i + 1;
        } else if c == '|' || c == '&' {
            let two = i + 1 < n && s.get_char(i + 1) == c;
            if two {
                let t = if c == '|' {
                    Token::Or
                } else {
                    Token::And
                };
                proof {
                    assert(s@.skip(i as int)[1] == s@[i + 1]);
                    assert(s@.skip(i as int).skip(2) =~= s@.skip(i + 2));
                }
                let ghost old_toks = toks@;
                toks.push(t);
                proof {
                    if let Some(t2) = spec_tokens(s@.skip(i + 2)) {
                        assert(old_toks + (seq![t] + t2) =~= toks@ + t2);
                    }
                }
                i = i + 2;
            } else {
                return Err(ExprError::BadSymbol);
            }
        } else if c == '(' || c == ')' || c == '!' || c == '0' || c == '1' {
            let t = if c == '(' {
                Token::LeftParen
            } else if c == ')' {
                Token::RightParen
            } else if c == '!' {
                Token::Not
            } else if c == '0' {
                Token::Zero
            } else {
                Token::One
            };
            let ghost old_toks = toks@;
            toks.push(t);
            proof {
                if let Some(t2) = spec_tokens(s@.skip(i + 1)) {
                    assert(old_toks + (seq![t] + t2) =~= toks@ + t2);
                }
            }
            i = i + 1;
        } else {
            return Err(ExprError::BadSymbol);
        }
    }
    proof {
        assert(s@.skip(n as int) =~= Seq::<char>::empty());
        assert(toks@ + Seq::<Token>::empty() =~= toks@);
    }
    Ok(toks)
}

/// Evaluate tokens from position `*i` in the state "a value is expected",
/// with a fresh fold; `paren` says whether this level must consume a `)`.
pub fn eval_inner(ts: &Vec<Token>, i: &mut usize, paren: bool) -> (r: Result<bool, ExprError>)
    requires
        *old(i) <= ts@.len(),
    ensures
        *final(i) <= ts@.len(),
        match r {
            Ok(v) => spec_value(ts@, *old(i) as int, paren, false, Op::Start, false) == Some(
                (v, *final(i) as int),
            ) && *final(i) > *old(i),
            Err(e) => spec_value(ts@, *old(i) as int, paren, false, Op::Start, false) is None && e
                == ExprError::BadToken,
        },
    decreases ts@.len() - *old(i),
{
    let ghost i0 = *old(i) as int;
    let mut acc = false;
    let mut op = Op::Start;
    let mut neg = false;
    let mut expecting_value = true;
    loop
        invariant
            i0 == *old(i) as int,
            *i <= ts@.len(),
            i0 <= *i as int,
            expecting_value ==> spec_value(ts@, i0, paren, false, Op::Start, false) == spec_value(
                ts@,
                *i as int,
                paren,
                acc,
                op,
                neg,
            ),
            !expecting_value ==> spec_value(ts@, i0, paren, false, Op::Start, false) == spec_after(
                ts@,
                *i as int,
                paren,
                acc,
            ) && *i as int > i0,
        decreases ts@.len() - *i,
    {
        if expecting_value {
            if *i >= ts.len() {
                return Err(ExprError::BadToken);
            }
            match ts[*i] {
                Token::Not => {
                    neg = !neg;
                    *i = *i + 1;
                },
                Token::One => {
                    acc = apply_op(op, acc, !neg);
                    neg = false;
                    expecting_value = false;
                    *i = *i + 1;
                },
                Token::Zero => {
                    acc = apply_op(op, acc, neg);
                    neg = false;
                    expecting_value = false;
                    *i = *i + 1;
                },
                Token::LeftParen => {
                    let ghost ip = *i as int;
                    *i = *i + 1;
                    let sub = eval_inner(ts, i, true);
                    match sub {
                        Err(e) => {
                            return Err(e);
                        },
                        Ok(v) => {
                            proof {
                                assert(spec_value(ts@, ip, paren, acc, op, neg) == spec_after(
                                    ts@,
                                    *i as int,
                                    paren,
                                    spec_apply(op, acc, neg ^ v),
                                ));
                            }
                            acc = apply_op(op, acc, neg ^ v);
                            neg = false;
                            expecting_value = false;
                        },
                    }
                },
                _ => {
                    return Err(ExprError::BadToken);
                },
            }
        } else {
            if *i >= ts.len() {
                if paren {
                    return Err(ExprError::BadToken);
                } else {
                    return Ok(acc);
                }
            }
            match ts[*i] {
                Token::And => {
                    op = Op::And;
                    neg = false;
                    expecting_value = true;
                    *i = *i + 1;
                },
                Token::Or => {
                    op = Op::Or;
                    neg = false;
                    expecting_value = true;
                    *i = *i + 1;
                },
                Token::RightParen => {
                    if paren {
                        *i = *i + 1;
                        return Ok(acc);
                    } else {
                        return Err(ExprError::BadToken);
                    }
                },
                _ => {
                    return Err(ExprError::BadToken);
                },
            }
        }
    }
}

/// Executable form of `spec_apply`.
fn apply_op(op: Op, acc: bool, v: bool) -> (r: bool)
    ensures
        r == spec_apply(op, acc, v),
{
    match op {
        Op::Start => v,
        Op::And => acc && v,
        Op::Or => acc || v,
    }
}

/// Evaluate a condition string to its truth value, or reject it.
pub fn eval(expr: &str) -> (r: Result<bool, ExprError>)
    ensures
        r == spec_eval(expr@),
{
    let toks = match tokenize(expr) {
        Ok(t) => t,
        Err(e) => {
            return Err(e);
        },
    };
    let mut i: usize = 0;
    match eval_inner(&toks, &mut i, false) {
        Ok(v) => Ok(v),
        Err(e) => Err(e),
    }
}

} // verus!

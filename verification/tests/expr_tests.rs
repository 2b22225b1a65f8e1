use preproc::{eval, tokenize, ExprError, Token};

use Token::{And, LeftParen, Not, One, Or, RightParen, Zero};

#[test]
fn tokenize_tests() {
    assert!(matches!(
        tokenize("    0 1 && ||  ( ) ! ").as_deref(),
        Ok(&[Zero, One, And, Or, LeftParen, RightParen, Not])
    ));
    assert!(matches!(
        tokenize("!)   1&&   0||   (").as_deref(),
        Ok(&[Not, RightParen, One, And, Zero, Or, LeftParen])
    ));
    assert!(matches!(tokenize("0    && 1 + 1    "), Err(_)));
    assert!(matches!(tokenize("0    && x     || 1"), Err(_)));
}

#[test]
fn eval_tests() {
    let eval = |s| eval(s).map_err(|_| ());
    assert_eq!(eval("0"), Ok(false));
    assert_eq!(eval("1"), Ok(true));
    assert_eq!(eval("1 || 0"), Ok(true));
    assert_eq!(eval("1 && 0"), Ok(false));
    assert_eq!(eval("!0 || 0"), Ok(true));
    assert_eq!(eval("(1 && 1)"), Ok(true));
    assert_eq!(eval("1 || 0 && 1"), eval("(1 || 0) && 1"));
    assert_eq!(eval("!(0 || (1 && 1)) && (!1 || !1 || (0 && 1))"), Ok(false));
    assert_eq!(eval("(1 || 0) && !0 || (1 && (1 && (0))) && 1 || !1"), Ok(true));
}

#[test]
fn left_to_right_fold() {
    assert_eq!(eval("1 || 0 && 1"), Ok(true));
    assert_eq!(eval("(1 || 0) && 1"), Ok(true));
    assert_eq!(eval("1 || (0 && 1)"), Ok(true));
    assert_eq!(eval("0 && 0 || 1"), Ok(true));
}

#[test]
fn double_negation_cancels() {
    assert_eq!(eval("!!1"), Ok(true));
    assert_eq!(eval("!!0"), Ok(false));
    assert_eq!(eval("!!!1"), Ok(false));
}

#[test]
fn malformed_expressions_fail() {
    assert_eq!(eval("1 + 1"), Err(ExprError::BadSymbol));
    assert_eq!(eval("0 && x"), Err(ExprError::BadSymbol));
    assert_eq!(eval("1 1"), Err(ExprError::BadToken));
    assert_eq!(eval("(1"), Err(ExprError::BadToken));
    assert_eq!(eval(")"), Err(ExprError::BadToken));
    assert_eq!(eval(""), Err(ExprError::BadToken));
    assert_eq!(eval("1 &&"), Err(ExprError::BadToken));
}

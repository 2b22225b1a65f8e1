use preproc::{process_str, Context, Error};

#[test]
fn preprocess() {
    let mut ctx = Context::new();
    ctx.define("_TRUE", "1");
    ctx.define("_FALSE", "0");
    ctx.define("_OR", "||");
    ctx.define("_AND", "&&");

    let val = process_str("#if _TRUE _OR _FALSE\nyes\n#else\nno\n#endif", &mut ctx);
    assert!(matches!(val.as_deref(), Ok("yes\n")));
    let val = process_str("#if 0\nstuff\n#endif", &mut ctx);
    assert!(matches!(val.as_deref(), Ok("")));
    let val = process_str(
        "#if 1\n#if 0\n#if 1\nApple\n#endif\n#elseif 0\nBanana\n#else\nOrange\n#endif\n#endif",
        &mut ctx,
    );
    assert!(matches!(val.as_deref(), Ok("Orange\n")));
    let val = process_str(
        "#if _FALSE _AND _TRUE\nGoodbye\n#elseif _TRUE\nHello\n#else \nThe\n#endif\nWorld!",
        &mut ctx,
    );
    assert!(matches!(val.as_deref(), Ok("Hello\nWorld!")));
    let val = process_str("#version 140", &mut ctx);
    assert!(matches!(val.as_deref(), Ok("#version 140")));

    let val = process_str("#if 1\nstuff\n#endif\n#endif", &mut ctx);
    assert!(matches!(val.as_deref(), Err(Error::UnexpectedDirective(_))));
    let val = process_str("#if 1\nabc\n#else\ndef\n#elseif 1\nghi\n#endif", &mut ctx);
    assert!(matches!(val.as_deref(), Err(Error::UnexpectedDirective(_))));
}

#[test]
fn one_branch_per_chain() {
    let mut ctx = Context::new();
    let val = process_str("#if 1\na\n#elseif 1\nb\n#else\nc\n#endif", &mut ctx);
    assert!(matches!(val.as_deref(), Ok("a\n")));
    let val = process_str("#if 0\na\n#elseif 1\nb\n#elseif 1\nc\n#else\nd\n#endif", &mut ctx);
    assert!(matches!(val.as_deref(), Ok("b\n")));
    let val = process_str("#if 0\na\n#elseif 0\nb\n#else\nc\n#endif", &mut ctx);
    assert!(matches!(val.as_deref(), Ok("c\n")));
}

#[test]
fn dead_conditions_not_evaluated() {
    let mut ctx = Context::new();
    // The nested condition is malformed, but its region is dead, so the
    // condition is never evaluated and nothing fails.
    let val = process_str("#if 0\n#if $$$ bad\nx\n#endif\n#endif", &mut ctx);
    assert!(matches!(val.as_deref(), Ok("")));
    // The same condition in an active region does fail.
    let val = process_str("#if $$$ bad\nx\n#endif", &mut ctx);
    assert!(matches!(val.as_deref(), Err(Error::BadExpr(_))));
}

#[test]
fn unterminated_if_fails() {
    let mut ctx = Context::new();
    let val = process_str("#if 1\nstuff\n", &mut ctx);
    assert!(matches!(val.as_deref(), Err(Error::UnclosedIf(_))));
}

#[test]
fn comments_stripped_from_output() {
    let mut ctx = Context::new();
    ctx.define("DEF1", "Hello");
    let val = process_str("abc // note\nDEF1 x\n", &mut ctx);
    assert!(matches!(val.as_deref(), Ok("abc \nHello x\n")));
    // A commented-out directive is no directive.
    let val = process_str("x\n// #endif\ny\n", &mut ctx);
    assert!(matches!(val.as_deref(), Ok("x\n\ny\n")));
}

#[test]
fn crlf_terminators_kept() {
    let mut ctx = Context::new();
    let val = process_str("#if 1\r\nkeep\r\n#endif\r\n", &mut ctx);
    assert!(matches!(val.as_deref(), Ok("keep\r\n")));
}

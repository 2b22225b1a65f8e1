use preproc::{process_str, Context, Error, MapIncludes};

#[test]
fn include_works() {
    let mut includes = MapIncludes::new();
    includes.add("foo", "line2");
    let mut ctx = Context::new_with(includes);

    let val = process_str("line1\n#include foo\nline3", &mut ctx);
    assert!(matches!(val.as_deref(), Ok("line1\nline2\nline3")));
}

#[test]
fn include_splices_processed_output() {
    let mut includes = MapIncludes::new();
    includes.add("cond", "#if 0\nhidden\n#else\nshown\n#endif\ntail");
    let mut ctx = Context::new_with(includes);
    ctx.define("M", "value");

    let val = process_str("head\n#include cond\nM\n", &mut ctx);
    assert!(matches!(val.as_deref(), Ok("head\nshown\ntail\nvalue\n")));
}

#[test]
fn include_failure_surfaces_resolver_error() {
    let mut ctx = Context::new();
    let val = process_str("#include anything\n", &mut ctx);
    assert!(matches!(val, Err(Error::Include(_))));
}

#[test]
fn inactive_include_is_skipped() {
    // The resolver would fail on every path, but the directive sits in a
    // dead region and is never resolved.
    let mut ctx = Context::new();
    let val = process_str("#if 0\n#include missing\n#endif\n", &mut ctx);
    assert!(matches!(val.as_deref(), Ok("")));
}

#[test]
fn included_blocks_must_balance() {
    let mut includes = MapIncludes::new();
    includes.add("open", "#if 1\nx\n");
    let mut ctx = Context::new_with(includes);
    let val = process_str("#include open\n", &mut ctx);
    assert!(matches!(val, Err(Error::UnclosedIf(_))));
}

use preproc::substitute;

fn table(defs: &[(&str, &str)]) -> Vec<(String, String)> {
    defs.iter().map(|(d, v)| (d.to_string(), v.to_string())).collect()
}

#[test]
fn basic_substitution() {
    let macros = table(&[("DEF1", "Hello"), ("DEF2", "World")]);

    assert_eq!(substitute(&macros, "DEF1 DEF2!"), "Hello World!");
    assert_eq!(substitute(&macros, "Hello DEF2s!"), "Hello DEF2s!");
    assert_eq!(substitute(&macros, "0DEF1"), "0DEF1");
}

#[test]
fn whole_token_only() {
    let macros = table(&[("A", "x")]);
    assert_eq!(substitute(&macros, "A"), "x");
    assert_eq!(substitute(&macros, "A A"), "x x");
    assert_eq!(substitute(&macros, "AB"), "AB");
    assert_eq!(substitute(&macros, "A_B"), "A_B");
    assert_eq!(substitute(&macros, "(A)"), "(x)");
    assert_eq!(substitute(&macros, ""), "");
}

#[test]
fn latest_definition_wins() {
    let macros = table(&[("A", "first"), ("A", "second")]);
    assert_eq!(substitute(&macros, "A"), "second");
}

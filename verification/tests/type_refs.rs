use kei::check::check_module;
use kei::diagnostic::Position;
use kei::syntax::parse_module;

#[test]
fn undefined_parameter_type_is_reported() {
    let parsed = parse_module("func f(x: Foo) -> Int {\n  return 1\n}\n");
    assert!(parsed.errors.is_empty());
    let ds = check_module("t.kei", &parsed.module);
    let undefined: Vec<_> = ds.iter().filter(|d| d.code == "KEI-E1002").collect();
    assert_eq!(undefined.len(), 1);
    assert_eq!(undefined[0].span.start, Position { line: 1, col: 11 });
}

#[test]
fn list_without_element_type_is_an_arity_error() {
    let parsed = parse_module("func f(xs: List) -> Int {\n  return 1\n}\n");
    assert!(parsed.errors.is_empty());
    let ds = check_module("t.kei", &parsed.module);
    assert!(ds.iter().any(|d| d.code == "KEI-E2006" && d.span.start == Position { line: 1, col: 12 }));
}

use kei::fmt::{format_module, format_source};
use kei::syntax::parse_module;

#[test]
fn format_normalizes_spacing() {
    let out = format_source("func f(x:Int)->Int{return x+1}\n").expect("parses");
    assert_eq!(out, "func f(x: Int) -> Int {\n  return x + 1\n}\n");
}

#[test]
fn format_empty_module_is_empty() {
    assert_eq!(format_source("").expect("parses"), "");
}

#[test]
fn format_keeps_comments_in_place() {
    let src = "// head\nfunc f() {\n  return\n} // tail\n";
    let out = format_source(src).expect("parses");
    assert_eq!(out, src);
}

#[test]
fn format_rejects_broken_source() {
    let errs = format_source("func f( {\n").expect_err("syntax error");
    assert!(!errs.is_empty());
}

#[test]
fn format_groups_externs_and_separates_chunks() {
    let src = "module a.b\nimport infra.db as Db\nextern Db.get(id: Int) -> Int uses Db.Read\nextern query Db.size() -> Int\nrecord P {\n  x: Int\n}\n";
    let out = format_source(src).expect("parses");
    assert_eq!(
        out,
        "module a.b\n\nimport infra.db as Db\n\nextern Db.get(id: Int) -> Int uses Db.Read\nextern query Db.size() -> Int\n\nrecord P {\n  x: Int\n}\n"
    );
}

#[test]
fn format_lays_out_match_over_lines() {
    let src = "func f(o: Option<Int>) -> Int {\n  return match o { Some(v) => v, None => 0 }\n}\n";
    let out = format_source(src).expect("parses");
    assert_eq!(out, "func f(o: Option<Int>) -> Int {\n  return match o {\n    Some(v) => v\n    None => 0\n  }\n}\n");
}

#[test]
fn format_is_idempotent_on_a_sample() {
    let src = "module m\n\n// c\nenum E {\n  A\n  B(Int)\n  C { x: Int, y: String }\n}\n\nfunc g(a: Int, b: Int) -> Bool\n  requires a > 0 implies b > 0\n  ensures result == (a == b)\n{\n  if a == b {\n    return true\n  } else {\n    return false\n  }\n}\n";
    let once = format_source(src).expect("parses");
    let twice = format_source(&once).expect("formatted text parses");
    assert_eq!(once, twice);
}

#[test]
fn format_module_drops_comments() {
    let parsed = parse_module("// note\ntype Id = String tagged \"Id\"\n");
    assert!(parsed.errors.is_empty());
    assert_eq!(format_module(&parsed.module), "type Id = String tagged \"Id\"\n");
}

#[test]
fn format_keeps_parentheses_that_carry_structure() {
    let out = format_source("func f(a: Int, b: Int, c: Int) -> Int {\n  return (a + b) * c - (a - b)\n}\n").expect("parses");
    assert!(out.contains("return (a + b) * c - (a - b)"), "{out}");
}

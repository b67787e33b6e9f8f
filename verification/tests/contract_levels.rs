use kei::ast::{Expr, Item, Module};
use kei::contracts::{classify_contract, collect_contracts, verification_of, ContractTruth};
use kei::notation::{contract_expr_text, contract_string_literal};
use kei::report::{ContractKind, Verification};
use kei::syntax::parse_module;

fn parse_requires(src: &str) -> Module {
    let parsed = parse_module(&format!(
        "module t\n\nfunc f(x: Int) -> Int\n  requires {src}\n{{\n  return x\n}}\n"
    ));
    assert!(parsed.errors.is_empty(), "test contract must parse: {:?}", parsed.errors);
    parsed.module
}

fn requires_of(m: &Module) -> &Expr {
    let Item::Func(f) = &m.items[0] else {
        panic!("expected a function item");
    };
    &f.requires[0]
}

#[test]
fn classify_contract_three_way() {
    let cases = [
        ("true", ContractTruth::AlwaysTrue),
        ("2 > 1", ContractTruth::AlwaysTrue),
        ("false", ContractTruth::AlwaysFalse),
        ("1 > 2", ContractTruth::AlwaysFalse),
        ("\"a\" == \"b\"", ContractTruth::AlwaysFalse),
        ("\"a\" == \"a\"", ContractTruth::AlwaysTrue),
        ("\"a\" != \"b\"", ContractTruth::AlwaysTrue),
        ("x > 0", ContractTruth::Unknown),
    ];
    for (src, expected) in cases {
        let m = parse_requires(src);
        assert_eq!(classify_contract(requires_of(&m)), expected, "{src}");
    }
}

#[test]
fn verification_levels_unchanged() {
    let m = parse_requires("true");
    assert_eq!(verification_of(requires_of(&m)), Verification::Static);
    let m = parse_requires("false");
    assert_eq!(verification_of(requires_of(&m)), Verification::Runtime);
    let m = parse_requires("x > 0");
    assert_eq!(verification_of(requires_of(&m)), Verification::Runtime);
}

#[test]
fn overflowing_arithmetic_does_not_fold() {
    let m = parse_requires("9223372036854775807 + 1 > 0");
    assert_eq!(classify_contract(requires_of(&m)), ContractTruth::Unknown);
    let m = parse_requires("7 % 3 == 1");
    assert_eq!(classify_contract(requires_of(&m)), ContractTruth::AlwaysTrue);
    let m = parse_requires("-7 / 2 == -3");
    assert_eq!(classify_contract(requires_of(&m)), ContractTruth::AlwaysTrue);
    let m = parse_requires("1 / 0 == 0");
    assert_eq!(classify_contract(requires_of(&m)), ContractTruth::Unknown);
    let m = parse_requires("false implies false");
    assert_eq!(classify_contract(requires_of(&m)), ContractTruth::AlwaysTrue);
}

#[test]
fn contract_text_keeps_needed_parentheses_only() {
    let m = parse_requires("(a == b) == c");
    assert_eq!(contract_expr_text(requires_of(&m)), "a == b == c");
    let m = parse_requires("a == (b == c)");
    assert_eq!(contract_expr_text(requires_of(&m)), "a == (b == c)");
    let m = parse_requires("(a implies b) implies c");
    assert_eq!(contract_expr_text(requires_of(&m)), "(a implies b) implies c");
    let m = parse_requires("a - (b - c)");
    assert_eq!(contract_expr_text(requires_of(&m)), "a - (b - c)");
    let m = parse_requires("-(x + 1) * f(y, [1, 2]).z");
    assert_eq!(contract_expr_text(requires_of(&m)), "-(x + 1) * f(y, [1, 2]).z");
}

#[test]
fn string_literals_are_escaped() {
    assert_eq!(contract_string_literal("a\"b\\c\nd"), "\"a\\\"b\\\\c\\nd\"");
}

#[test]
fn collected_contracts_follow_source_order() {
    let parsed = parse_module(
        "module t\n\nfunc f(x: Int) -> Int\n  requires x > 0\n  ensures result > 1\n  requires true\n{\n  return x + 1\n}\n",
    );
    assert!(parsed.errors.is_empty(), "{:?}", parsed.errors);
    let cs = collect_contracts("t.kei", &parsed.module);
    assert_eq!(cs.len(), 3);
    assert_eq!(cs[0].kind, ContractKind::Requires);
    assert_eq!(cs[0].expr, "x > 0");
    assert_eq!(cs[0].verification, Verification::Runtime);
    assert_eq!(cs[1].kind, ContractKind::Requires);
    assert_eq!(cs[1].verification, Verification::Static);
    assert_eq!(cs[2].kind, ContractKind::Ensures);
    assert_eq!(cs[2].expr, "result > 1");
    assert_eq!(cs[2].span.file, "t.kei");
    assert_eq!(cs[0].func, "f");
}

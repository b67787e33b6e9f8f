use kei::check::{check_module_with, CheckOptions};
use kei::diagnostic::{Diagnostic, Severity};
use kei::syntax::parse_module;

fn check(src: &str) -> Vec<Diagnostic> {
    let parsed = parse_module(src);
    assert!(parsed.errors.is_empty(), "fixture must parse: {:?}", parsed.errors);
    let opts = CheckOptions { suggest_contracts: true, ..Default::default() };
    check_module_with("repair.kei", &parsed.module, opts)
}

fn apply_ensures(src: &str, expr: &str) -> String {
    let mut out: Vec<String> = Vec::new();
    let mut inserted = false;
    for line in src.lines() {
        if !inserted && line.trim() == "{" {
            out.push(format!("  ensures {expr}"));
            inserted = true;
        }
        out.push(line.to_string());
    }
    out.join("\n") + "\n"
}

#[test]
fn apply_suggested_contract_reduces_diagnostics() {
    let before_src = "module t\n\nfunc decrementAvailable(available: Int) -> Int\n  requires available > 0\n{\n  return available - 1\n}\n";
    let before = check(before_src);
    assert_eq!(before.len(), 1, "expected exactly one ContractMissing: {before:?}");
    let d = &before[0];
    assert_eq!(d.code, "KEI-E4008");
    let sc = d.suggested_contract.as_ref().expect("ContractMissing carries a suggested_contract");
    assert_eq!(sc.kind, "ContractMissing");
    assert_eq!(sc.clause, "ensures");
    assert!(!d.fixes.is_empty(), "fixes must remain (backward compatible)");
    let after_src = apply_ensures(before_src, &sc.expr);
    let after = check(&after_src);
    assert!(after.len() < before.len(), "applying the proposal must reduce diagnostics: before={}, after={}", before.len(), after.len());
    assert!(after.iter().all(|d| d.severity != Severity::Error), "applied contract must not introduce errors: {after:?}");
    assert!(!after.iter().any(|d| d.code == "KEI-E4008"), "ContractMissing must be gone after applying the suggestion");
}

#[test]
fn suggested_bool_postcondition_is_parenthesized_and_applies_clean() {
    let before_src = "module t\n\nfunc positive(x: Int) -> Bool\n{\n  return x > 0\n}\n";
    let before = check(before_src);
    let d = &before[0];
    let sc = d.suggested_contract.as_ref().expect("suggested_contract");
    assert_eq!(sc.expr, "result == (x > 0)", "binary body must be parenthesized");
    let after_src = apply_ensures(before_src, &sc.expr);
    let after = check(&after_src);
    assert!(after.iter().all(|d| d.severity != Severity::Error), "applied parenthesized contract must be check-clean: {after:?}");
    assert!(!after.iter().any(|d| d.code == "KEI-E4008"), "ContractMissing must be gone after applying");
}

#[test]
fn default_mode_emits_no_suggestions() {
    let src = "module t\n\nfunc f(x: Int) -> Int\n{\n  return x\n}\n";
    let parsed = parse_module(src);
    let default = check_module_with("repair.kei", &parsed.module, CheckOptions::default());
    assert!(default.is_empty(), "default mode must not suggest: {default:?}");
}

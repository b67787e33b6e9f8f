use kei::ast::Module;
use kei::eval::Value;
use kei::pbt::run_module;
use kei::seeds::check_seeds;
use kei::syntax::parse_module;

const SEED_INVALID: &str = "KEI-E4007";
const SEED_GRAMMAR: &str = "KEI-E4006";
const SEED_COUNTEREXAMPLE: &str = "KEI-E4005";

fn module(src: &str) -> Module {
    let parsed = parse_module(src);
    assert!(parsed.errors.is_empty(), "test source must parse: {:?}", parsed.errors);
    parsed.module
}

#[test]
fn correct_function_passes() {
    let m = module("module t\n\nfunc decrementAvailable(available: Int) -> Int\n  requires available > 0\n  ensures result == old(available) - 1\n{\n  return available - 1\n}\n");
    let out = run_module(&m);
    assert_eq!(out.len(), 1);
    assert!(out[0].passed, "correct impl must pass: {:?}", out[0].counterexample);
    assert!(out[0].cases_checked > 0);
}

#[test]
fn broken_function_reports_minimized_counterexample() {
    let m = module("module t\n\nfunc decrementAvailable(available: Int) -> Int\n  requires available > 0\n  ensures result == old(available) - 1\n{\n  return available - 2\n}\n");
    let out = run_module(&m);
    assert_eq!(out.len(), 1);
    assert!(!out[0].passed);
    let ce = out[0].counterexample.as_ref().expect("counterexample");
    assert_eq!(ce.inputs, vec![("available".to_string(), Value::Int(1))]);
}

#[test]
fn effectful_function_is_skipped() {
    let m = module("module t\n\nfunc f(x: Int) -> Int\n  uses Clock\n  ensures result == x\n{\n  return x\n}\n");
    assert!(run_module(&m).is_empty());
}

fn decrement_module() -> Module {
    module("module t\n\nfunc decrementAvailable(available: Int) -> Int\n  requires available > 0\n  ensures result == old(available) - 1\n{\n  return available - 1\n}\n")
}

#[test]
fn valid_seed_passes() {
    let m = decrement_module();
    let src = "seeds for decrementAvailable {\n  input { available: 1 }\n  input { available: 42 }\n}\n";
    let diags = check_seeds("t.seeds", src, &m);
    assert!(diags.is_empty(), "valid seeds should be clean: {diags:?}");
}

#[test]
fn requires_violating_seed_is_rejected() {
    let m = decrement_module();
    let src = "seeds for decrementAvailable {\n  input { available: 0 }\n}\n";
    let diags = check_seeds("t.seeds", src, &m);
    assert_eq!(diags.len(), 1);
    assert_eq!(diags[0].code, SEED_INVALID);
    assert!(diags[0].message.contains("requires"));
}

#[test]
fn expected_value_in_seed_is_a_grammar_error() {
    let m = decrement_module();
    let src = "seeds for decrementAvailable {\n  expected { result: 0 }\n}\n";
    let diags = check_seeds("t.seeds", src, &m);
    assert!(!diags.is_empty());
    assert_eq!(diags[0].code, SEED_GRAMMAR);
    assert!(diags[0].message.contains("inputs only"));
}

#[test]
fn seed_violating_ensures_is_a_counterexample() {
    let m = module("module t\n\nfunc decrementAvailable(available: Int) -> Int\n  requires available > 0\n  ensures result == old(available) - 1\n{\n  return available - 2\n}\n");
    let src = "seeds for decrementAvailable {\n  input { available: 7 }\n}\n";
    let diags = check_seeds("t.seeds", src, &m);
    assert!(diags.iter().any(|d| d.code == SEED_COUNTEREXAMPLE), "a requires-satisfying seed that breaks ensures must be a counterexample: {diags:?}");
}

#[test]
fn valid_seed_against_correct_impl_has_no_counterexample() {
    let m = decrement_module();
    let src = "seeds for decrementAvailable {\n  input { available: 7 }\n}\n";
    let diags = check_seeds("t.seeds", src, &m);
    assert!(diags.is_empty(), "correct impl + valid seed = clean: {diags:?}");
}

#[test]
fn seed_for_unknown_function_is_rejected() {
    let m = decrement_module();
    let src = "seeds for nope {\n  input { available: 1 }\n}\n";
    let diags = check_seeds("t.seeds", src, &m);
    assert!(diags.iter().any(|d| d.code == SEED_INVALID && d.message.contains("unknown function")));
}

#[test]
fn counterexample_text_and_seed_positions() {
    let m = module("module t\n\nfunc twice(x: Int, s: String) -> Int\n  ensures result == x + x\n{\n  return x\n}\n");
    let out = run_module(&m);
    assert_eq!(out.len(), 1);
    let ce = out[0].counterexample.as_ref().expect("counterexample");
    assert_eq!(ce.inputs_text(), "x = -1, s = \"\"");
    assert!(!ce.precondition);
    assert_eq!(ce.clause, "result == x + x");
    let diags = check_seeds("t.seeds", "seeds for twice {\n  input { x: 3, s: \"q\" }\n  input { x: true, s: \"q\" }\n}\n", &m);
    assert_eq!(diags.len(), 2, "{diags:?}");
    assert_eq!(diags[0].code, SEED_COUNTEREXAMPLE);
    assert_eq!(diags[0].span.start.line, 2);
    assert_eq!(diags[0].span.start.col, 3);
    assert_eq!(diags[1].code, SEED_INVALID);
    assert_eq!(diags[1].span.start.line, 3);
}

#[test]
fn callee_requires_violation_is_a_precondition_counterexample() {
    let m = module("module t\n\nfunc half(x: Int) -> Int\n  requires x > 0\n{\n  return x / 2\n}\n\nfunc quarter(x: Int) -> Int\n  ensures result <= x\n{\n  return half(half(x))\n}\n");
    let out = run_module(&m);
    let q = out.iter().find(|o| o.func == "quarter").expect("quarter tested");
    let ce = q.counterexample.as_ref().expect("counterexample");
    assert!(ce.precondition);
    assert_eq!(ce.clause, "x > 0");
}

use kei::ast::Module;
use kei::pbt::run_module;
use kei::syntax::parse_module;
use kei::check::{check_module_report_with, CheckOptions};
use kei::report::Verification;

fn module(src: &str) -> Module {
    let parsed = parse_module(src);
    assert!(parsed.errors.is_empty(), "test source must parse: {:?}", parsed.errors);
    parsed.module
}

#[test]
fn list_argument_function_lifts_to_generative_when_clean() {
    let src = "module t\nfunc nonNeg(x: Int) -> Bool { return x >= 0 }\nfunc plus(acc: Int, x: Int) -> Int { return acc + x }\nfunc total(xs: List<Int>) -> Int\n  requires xs.all(nonNeg)\n  ensures result >= 0\n{\n  return xs.fold(0, plus)\n}\n";
    let m = module(src);
    let outcomes = run_module(&m);
    let total = outcomes.iter().find(|o| o.func == "total").expect("total must be evaluated");
    assert!(total.passed, "non-negative fold of non-negative xs should be clean: {:?}", total.counterexample);
    assert!(total.cases_checked > 0, "must check at least one case");
}

#[test]
fn list_argument_function_finds_counterexample_when_contract_too_weak() {
    let src = "module t\nfunc plus(acc: Int, x: Int) -> Int { return acc + x }\nfunc total(xs: List<Int>) -> Int\n  ensures result >= 0\n{\n  return xs.fold(0, plus)\n}\n";
    let m = module(src);
    let outcomes = run_module(&m);
    let total = outcomes.iter().find(|o| o.func == "total").expect("total must be evaluated");
    assert!(!total.passed, "missing requires should be caught by generative");
    let ce = total.counterexample.as_ref().expect("must produce counterexample");
    assert!(!ce.precondition, "must be an ensures counterexample, not a precondition violation");
}

#[test]
fn record_argument_function_evaluates_field_access() {
    let src = "module t\nrecord P { qty: Int }\nfunc nonNegQty(p: P) -> Bool { return p.qty >= 0 }\nfunc double(p: P) -> Int\n  requires nonNegQty(p)\n  ensures result >= 0\n{\n  return p.qty + p.qty\n}\n";
    let m = module(src);
    let outcomes = run_module(&m);
    let double = outcomes.iter().find(|o| o.func == "double").expect("double must be evaluated");
    assert!(double.passed, "double of non-negative qty must satisfy ensures: {:?}", double.counterexample);
}

#[test]
fn list_of_record_argument_lifts_to_generative() {
    let src = "module t\nrecord P { v: Int }\nfunc nn(p: P) -> Bool { return p.v >= 0 }\nfunc add(acc: Int, p: P) -> Int { return acc + p.v }\nfunc total(ps: List<P>) -> Int\n  requires ps.all(nn)\n  ensures result >= 0\n{\n  return ps.fold(0, add)\n}\n";
    let m = module(src);
    let outcomes = run_module(&m);
    let total = outcomes.iter().find(|o| o.func == "total").expect("total must be evaluated");
    assert!(total.passed, "non-negative fold over List<Product>-like should be clean: {:?}", total.counterexample);
}

#[test]
fn map_filter_length_ensures_lift_to_generative() {
    let src = "module t\nrecord P { keep: Bool }\nfunc k(p: P) -> Bool { return p.keep }\nfunc to_q(p: P) -> Int { return 1 }\nfunc plan(ps: List<P>) -> List<Int>\n  ensures result.length <= ps.length\n{\n  return ps.filter(k).map(to_q)\n}\n";
    let m = module(src);
    let outcomes = run_module(&m);
    let plan = outcomes.iter().find(|o| o.func == "plan").expect("plan must be evaluated");
    assert!(plan.passed, "filter then map preserves length bound: {:?}", plan.counterexample);
}

#[test]
fn generative_report_raises_clean_ensures() {
    let src = "module t\n\nfunc inc(x: Int) -> Int\n  requires x < 50\n  ensures result > x\n{\n  return x + 1\n}\n";
    let m = module(src);
    let opts = CheckOptions { generative: true, ..Default::default() };
    let report = check_module_report_with("t.kei", &m, opts);
    assert!(report.diagnostics.is_empty(), "{:?}", report.diagnostics);
    assert_eq!(report.contracts.len(), 2);
    assert_eq!(report.contracts[0].verification, Verification::Runtime);
    assert_eq!(report.contracts[1].verification, Verification::Generative);
}

#[test]
fn generative_report_flags_counterexample() {
    let src = "module t\n\nfunc inc(x: Int) -> Int\n  ensures result > x\n{\n  return x\n}\n";
    let m = module(src);
    let opts = CheckOptions { generative: true, ..Default::default() };
    let report = check_module_report_with("t.kei", &m, opts);
    assert_eq!(report.diagnostics.len(), 1, "{:?}", report.diagnostics);
    assert_eq!(report.diagnostics[0].code, "KEI-E4005");
    assert_eq!(report.diagnostics[0].message, "ensures 'result > x' of 'inc' is violated by a generated input (x = 0)");
}

use kei::check::check_module_report;
use kei::emit::{emit_module, EmitOutput};
use kei::syntax::parse_module;

fn emit(src: &str) -> EmitOutput {
    emit_module("test.kei", src).unwrap_or_else(|d| panic!("expected clean emit, got diagnostics: {d:?}"))
}

#[test]
fn record_emits_type_and_factory() {
    let out = emit("record Point {\n  x: Int\n  y: Int\n}\n\nfunc origin() -> Point {\n  return Point { x: 0, y: 0 }\n}\n");
    assert!(out.ts.contains("export type Point = {"));
    assert!(out.ts.contains("readonly x: number;"));
    assert!(out
        .ts
        .contains("export function Point(fields: Point): Point {"));
    assert!(out.ts.contains("return Point({ x: 0, y: 0 });"));
}

#[test]
fn enum_emits_tagged_union_and_constructors() {
    let out = emit("type OrderId = String tagged \"OrderId\"\n\nenum OrderStatus {\n  Draft\n  Submitted(OrderId)\n  Rejected { reason: String, retryable: Bool }\n}\n");
    assert!(out.ts.contains("| { readonly kind: \"Draft\" }"));
    assert!(out
        .ts
        .contains("| { readonly kind: \"Submitted\"; readonly values: readonly [OrderId] }"));
    assert!(out.ts.contains(
        "| { readonly kind: \"Rejected\"; readonly fields: { readonly reason: string; readonly retryable: boolean } };"
    ));
    assert!(out
        .ts
        .contains("Draft: { kind: \"Draft\" } as OrderStatus,"));
    assert!(out.ts.contains(
        "Submitted: (v0: OrderId): OrderStatus => ({ kind: \"Submitted\", values: [v0] }),"
    ));
    assert!(out
        .ts
        .contains("export type OrderId = string & { readonly __keiTag: \"OrderId\" };"));
    assert!(out
        .ts
        .contains("export function OrderId(value: string): OrderId {"));
}

#[test]
fn requires_emits_structured_violation() {
    let out = emit("func half(n: Int) -> Int\n  requires n > 0\n{\n  return n / 2\n}\n");
    assert!(out.ts.contains("if (!(n > 0)) {"));
    assert!(out.ts.contains("throw new KeiContractViolation({"));
    assert!(out.ts.contains("clause: \"requires\","));
    assert!(out.ts.contains("condition: \"n > 0\","));
    assert!(out.ts.contains("file: \"test.kei\","));
    assert!(out.ts.contains("line: 2,"));
    assert!(out.ts.contains("return Math.trunc(n / 2);"));
    assert!(out
        .ts
        .contains("import { KeiContractViolation } from \"@kei/runtime\";"));
}

#[test]
fn ensures_wraps_body_and_captures_old() {
    let out = emit("func increment(count: Int, step: Int) -> Int\n  requires step > 0\n  ensures result == old(count) + step\n{\n  return count + step\n}\n");
    assert!(out.ts.contains("const kei$old$0 = count;"));
    assert!(out.ts.contains("const kei$result = ((): number => {"));
    assert!(out.ts.contains("if (!(kei$result === kei$old$0 + step)) {"));
    assert!(out.ts.contains("clause: \"ensures\","));
    assert!(out
        .ts
        .contains("condition: \"result == old(count) + step\","));
    assert!(out.ts.contains("return kei$result;"));
}

fn extract_conditions(ts: &str) -> Vec<String> {
    ts.lines()
        .filter_map(|line| {
            let rest = line.trim_start().strip_prefix("condition: ")?;
            let json = rest.strip_suffix(',').unwrap_or(rest);
            Some(serde_json::from_str::<String>(json).expect("condition is a JSON string literal"))
        })
        .collect()
}

#[test]
fn contract_expr_text_is_single_source_for_report_and_runtime() {
    let src = "module a.b\n\nenum Status {\n  Open\n  Closed\n}\n\nfunc classify(s: Status) -> Int {\n  return match s { Status.Open => 1, Status.Closed => 0 }\n}\n\nfunc f(a: Int, b: Int, c: Int) -> Int\n  requires a + b * c > 0\n  requires (a + b) * c > 0\n  requires a - (b - c) == 0\n  requires a > 0 implies b > 0 implies c > 0\n  requires (a > 0 implies b > 0) implies c > 0\n  requires !(a == b)\n  requires -a < b\n  ensures result == old(a) + old(b)\n{\n  return a + b + c\n}\n";

    let parsed = parse_module(src);
    assert!(parsed.errors.is_empty(), "test source must parse cleanly");
    let report = check_module_report("test.kei", &parsed.module);
    let report_exprs: Vec<String> = report.contracts.iter().map(|c| c.expr.clone()).collect();
    assert!(!report_exprs.is_empty(), "expected contracts in report");

    let runtime_conditions = extract_conditions(&emit(src).ts);

    assert_eq!(
        report_exprs, runtime_conditions,
        "CheckReport.contracts[].expr と KeiContractViolation.condition はバイト一致が要件(#32)"
    );
}

#[test]
fn right_nested_equality_keeps_parentheses() {
    let out = emit("func f(a: String, b: String, c: Bool) -> Bool {\n  return c == (a == b)\n}\n");
    assert!(
        out.ts.contains("return c === (a === b);"),
        "right-nested equality must keep parens: {}",
        out.ts
    );
    let out2 = emit("func g(a: Bool, b: Int, c: Int) -> Bool {\n  return a == (b < c)\n}\n");
    assert!(
        out2.ts.contains("return a === b < c;"),
        "relational rhs of equality needs no parens (binds tighter): {}",
        out2.ts
    );
}

#[test]
fn else_fail_unwraps_via_shared_discriminant() {
    let out = emit("module a.b\n\nimport infra.database as Database\n\nenum E {\n  NotFound(String)\n}\n\nfunc f(key: String) -> Result<Int, E> {\n  let v = Database.fetch(key) else fail E.NotFound(key)\n  return Ok(v)\n}\n");
    assert!(out.ts.contains("const v$ = Database.fetch(key);"));
    assert!(out.ts.contains("if (!v$.ok) {"));
    assert!(out.ts.contains("return Err(E.NotFound(key));"));
    assert!(out.ts.contains("const v = v$.value;"));
    assert!(out
        .ts
        .contains("import * as Database from \"../infra/database\";"));
    assert_eq!(out.ts_path, "a/b.ts");
}

#[test]
fn implies_emits_disjunction() {
    let out = emit("func f(a: Bool, b: Bool) -> Bool\n  requires a implies b\n{\n  return b\n}\n");
    assert!(out.ts.contains("if (!(!(a) || b)) {"));
}

#[test]
fn or_and_remainder_emit_with_kei_int_semantics() {
    let out = emit("func validLot(amount: Int, minLot: Int, caseSize: Int) -> Bool\n  requires caseSize > 0\n  ensures result == (amount == 0 || amount >= minLot)\n{\n  return amount == 0 || amount % caseSize == 0\n}\n");
    assert!(out
        .ts
        .contains("return amount === 0 || amount % caseSize === 0;"));
    assert!(out
        .ts
        .contains("condition: \"result == (amount == 0 || amount >= minLot)\","));
}

#[test]
fn remainder_emits_plain_percent() {
    let out = emit("module a.b\n\nimport infra.random as Random\n\nextern Random.next() -> Int uses Random\n\nfunc bounded() -> Int\n  uses Random\n{\n  return Random.next() % (Random.next() + 1)\n}\n");
    let needle = "return Random.next() % (Random.next() + 1);";
    assert!(out.ts.contains(needle), "unexpected TS:\n{}", out.ts);
}

#[test]
fn check_errors_reject_emit() {
    let err = emit_module("bad.kei", "func f() -> Int {\n  return missing\n}\n")
        .expect_err("undefined name must reject emit");
    assert!(err.iter().any(|d| d.code == "KEI-E1001"));
}

#[test]
fn list_combinators_emit_to_array_methods() {
    let out = emit("func isPos(x: Int) -> Bool {\n  return x > 0\n}\n\nfunc add(acc: Int, x: Int) -> Int {\n  return acc + x\n}\n\nfunc g(xs: List<Int>) -> Int {\n  return xs.fold(0, add)\n}\n\nfunc first(xs: List<Int>) -> Option<Int> {\n  return xs.get(0)\n}\n\nfunc anyPos(xs: List<Int>) -> Bool {\n  return xs.any(isPos)\n}\n\nfunc empty(xs: List<Int>) -> Bool {\n  return xs.isEmpty()\n}\n");
    assert!(
        out.ts.contains("xs.reduce(add, 0)"),
        "fold → reduce(f, init): {}",
        out.ts
    );
    assert!(
        out.ts.contains("keiListGet(xs, 0)"),
        "get → keiListGet: {}",
        out.ts
    );
    assert!(out.ts.contains("xs.some(isPos)"), "any → some: {}", out.ts);
    assert!(
        out.ts.contains("xs.length === 0"),
        "isEmpty() → .length === 0: {}",
        out.ts
    );
}

#[test]
fn record_field_named_is_empty_is_not_rewritten() {
    let out = emit("record Bag {\n  isEmpty: Bool\n  size: Int\n}\n\nfunc flag(b: Bag) -> Bool {\n  return b.isEmpty\n}\n\nfunc vacant(xs: List<Int>) -> Bool {\n  return xs.isEmpty()\n}\n");
    assert!(
        out.ts.contains("return b.isEmpty;"),
        "record field stays a field access: {}",
        out.ts
    );
    assert!(
        !out.ts.contains("b.length === 0"),
        "record field must not be rewritten: {}",
        out.ts
    );
    assert!(
        out.ts.contains("(xs.length === 0)"),
        "List isEmpty() still rewrites: {}",
        out.ts
    );
}

#[test]
fn extern_namespace_calls_are_not_rewritten_as_list_helpers() {
    let out = emit("import infra.database as Database\n\nextern Database.get(id: Int) -> Int uses Database.Read\n\nfunc lookup(id: Int) -> Int\n  uses Database.Read\n{\n  return Database.get(id)\n}\n\nfunc firstOf(xs: List<Int>) -> Option<Int> {\n  return xs.get(0)\n}\n");
    assert!(
        out.ts.contains("return Database.get(id);"),
        "extern call must stay a plain call: {}",
        out.ts
    );
    assert!(
        !out.ts.contains("keiListGet(Database"),
        "extern call must not become keiListGet: {}",
        out.ts
    );
    assert!(
        out.ts.contains("keiListGet(xs, 0)"),
        "list get must still rewrite: {}",
        out.ts
    );
}

#[test]
fn chained_extern_call_is_not_rewritten() {
    let out = emit("import infra.database as Database\n\nextern Database.reader() -> Int uses Database.Read\nextern Database.get(id: Int) -> Int uses Database.Read\n\nfunc lookup(id: Int) -> Int\n  uses Database.Read\n{\n  return Database.get(id)\n}\n");
    assert!(
        out.ts.contains("return Database.get(id);"),
        "chained/extern call must stay a plain call: {}",
        out.ts
    );
    assert!(
        !out.ts.contains("keiListGet"),
        "no List helper for an external call: {}",
        out.ts
    );
}

#[test]
fn chained_list_op_on_extern_result_keys_by_method_token() {
    let out = emit("import infra.db as Database\n\nextern Database.get(id: Int) -> List<Int> uses Database.Read\n\nfunc f(id: Int) -> Option<Int>\n  uses Database.Read\n{\n  return Database.get(id).get(0)\n}\n");
    assert!(
        out.ts.contains("return keiListGet(Database.get(id), 0);"),
        "inner extern get must stay a plain call; only the outer List get rewrites: {}",
        out.ts
    );
    assert!(
        !out.ts.contains("keiListGet(Database,"),
        "the inner extern call must not be rewritten as a List helper: {}",
        out.ts
    );
}

const CHARS: &str = "ABCDEFGHIJKLMNOPQRSTUVWXYZabcdefghijklmnopqrstuvwxyz0123456789+/";

fn vlq_decode(s: &str) -> Vec<Vec<i64>> {
    let mut segments = Vec::new();
    let mut cur = Vec::new();
    let mut value: i64 = 0;
    let mut shift = 0;
    for c in s.chars() {
        let digit = CHARS.find(c).expect("valid base64 char") as i64;
        value |= (digit & 0x1f) << shift;
        if digit & 0x20 != 0 {
            shift += 5;
        } else {
            let negative = value & 1 == 1;
            let mut v = value >> 1;
            if negative {
                v = -v;
            }
            cur.push(v);
            value = 0;
            shift = 0;
        }
    }
    if !cur.is_empty() {
        segments.push(cur);
    }
    segments
}

fn decode_mappings(mappings: &str) -> Vec<(u32, u32, u32, u32)> {
    let mut out = Vec::new();
    let mut src_line: i64 = 0;
    let mut src_col: i64 = 0;
    for (gen_line, group) in mappings.split(';').enumerate() {
        let mut gen_col: i64 = 0;
        for seg in group.split(',').filter(|s| !s.is_empty()) {
            let fields = &vlq_decode(seg)[0];
            assert!(fields.len() >= 4, "segment must carry a source position");
            gen_col += fields[0];
            src_line += fields[2];
            src_col += fields[3];
            out.push((
                gen_line as u32,
                gen_col as u32,
                src_line as u32,
                src_col as u32,
            ));
        }
    }
    out
}

#[test]
fn source_map_resolves_contract_violation_to_kei_line() {
    let src = "module contracts.demo\n\nfunc half(n: Int) -> Int\n  requires n > 0\n{\n  return n / 2\n}\n";
    let out = emit_module("contracts/demo.kei", src).expect("clean emit");

    let map: serde_json::Value = serde_json::from_str(&out.map).expect("valid JSON map");
    assert_eq!(map["version"], 3);
    assert_eq!(map["sources"][0], "contracts/demo.kei");
    assert_eq!(map["sourcesContent"][0], src);

    let decoded = decode_mappings(map["mappings"].as_str().expect("mappings string"));

    let throw_line = out
        .ts
        .lines()
        .position(|l| l.contains("throw new KeiContractViolation"))
        .expect("generated TS throws on contract violation") as u32;
    let mapping = decoded
        .iter()
        .filter(|(gl, ..)| *gl == throw_line)
        .min_by_key(|(_, gc, ..)| *gc)
        .unwrap_or_else(|| panic!("no mapping for generated line {throw_line}"));
    assert_eq!(
        mapping.2 + 1,
        4,
        "throw must resolve to the requires clause line"
    );

    let return_line = out
        .ts
        .lines()
        .position(|l| l.contains("return Math.trunc(n / 2);"))
        .expect("generated TS contains the return") as u32;
    let mapping = decoded
        .iter()
        .filter(|(gl, ..)| *gl == return_line)
        .min_by_key(|(_, gc, ..)| *gc)
        .unwrap_or_else(|| panic!("no mapping for generated line {return_line}"));
    assert_eq!(mapping.2 + 1, 6);
}

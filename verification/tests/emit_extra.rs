use kei::emit::{emit_module, EmitOutput};
use kei::sourcemap::{build_map, Mapping};

fn emit_as(file: &str, src: &str) -> EmitOutput {
    emit_module(file, src).unwrap_or_else(|d| panic!("expected clean emit, got {d:?}"))
}

#[test]
fn undeclared_module_takes_the_file_stem() {
    let out = emit_as("dir/calc.kei", "func one() -> Int {\n  return 1\n}\n");
    assert_eq!(out.ts_path, "calc.ts");
    assert!(out.ts.starts_with("// Generated by kei_emit from dir/calc.kei.\n// Do not edit; regenerate with `kei build`.\n"));
    assert!(out.ts.ends_with("//# sourceMappingURL=calc.ts.map\n"));
}

#[test]
fn other_extension_falls_back_to_module_ts() {
    let out = emit_as("notes.txt", "func one() -> Int {\n  return 1\n}\n");
    assert_eq!(out.ts_path, "module.ts");
}

#[test]
fn condition_text_is_json_escaped() {
    let out = emit_as("q.kei", "func f(s: String) -> Bool\n  requires s != \"a\\\"b\"\n{\n  return true\n}\n");
    assert!(out.ts.contains("condition: \"s != \\\"a\\\\\\\"b\\\"\","), "{}", out.ts);
}

#[test]
fn source_map_document_is_exact() {
    let ms = [Mapping { gen_line: 0, gen_col: 0, src_line: 0, src_col: 0 }];
    let map = build_map("a.ts", "a.kei", "x\n", &ms);
    assert_eq!(
        map,
        "{\n  \"file\": \"a.ts\",\n  \"mappings\": \"AAAA\",\n  \"names\": [],\n  \"sources\": [\n    \"a.kei\"\n  ],\n  \"sourcesContent\": [\n    \"x\\n\"\n  ],\n  \"version\": 3\n}\n"
    );
}

#[test]
fn every_mapping_points_inside_the_generated_text() {
    let out = emit_as("m.kei", "func f(n: Int) -> Int\n  requires n > 0\n  ensures result > n\n{\n  return n + 1\n}\n");
    let map: serde_json::Value = serde_json::from_str(&out.map).expect("JSON");
    let mappings = map["mappings"].as_str().expect("mappings").to_string();
    let lines = out.ts.lines().count();
    assert!(mappings.split(';').count() <= lines);
}

#[test]
fn match_becomes_a_called_arrow_function() {
    let out = emit_as(
        "m.kei",
        "enum S {\n  A\n  B(Int)\n}\n\nfunc f(s: S) -> Int {\n  return match s { S.A => 0, S.B(n) => n }\n}\n",
    );
    assert!(out.ts.contains("return (() => {"), "{}", out.ts);
    assert!(out.ts.contains("const kei$m0 = s;"), "{}", out.ts);
    assert!(out.ts.contains("if (kei$m0.kind === \"B\") {"), "{}", out.ts);
    assert!(out.ts.contains("const n = kei$m0.values[0];"), "{}", out.ts);
    assert!(out.ts.contains("throw new Error(\"non-exhaustive match\");"), "{}", out.ts);
}

#[test]
fn list_literal_emits_an_array() {
    let out = emit_as("m.kei", "func f() -> List<Int> {\n  return [1, 2, 3]\n}\n");
    assert!(out.ts.contains("return [1, 2, 3];"), "{}", out.ts);
}

#[test]
fn runtime_import_lists_used_names_in_byte_order() {
    let src = "func pick(n: Int) -> Result<Option<Int>, String>\n  requires n > 0\n{\n  if n > 10 {\n    return Err(\"big\")\n  }\n  return Ok(Some(n))\n}\n";
    let parsed = kei::syntax::parse_module(src);
    assert!(parsed.errors.is_empty());
    let out = kei::emit::emit_with_list_ops("pick.kei", src, &parsed.module, &Vec::new());
    assert!(out.ts.contains(
        "\nimport { Err, KeiContractViolation, Ok, Option, Result, Some } from \"@kei/runtime\";\n"
    ));
}

#[test]
fn runtime_import_is_absent_when_nothing_is_used() {
    let src = "func one() -> Int {\n  return 1\n}\n";
    let parsed = kei::syntax::parse_module(src);
    let out = kei::emit::emit_with_list_ops("one.kei", src, &parsed.module, &Vec::new());
    assert!(!out.ts.contains("@kei/runtime"));
}

use kei::mcp::{missing_arg, run_check, run_examples, run_fmt, run_spec, spec_file, unknown_tool, Bundle};

const INTRO: &str = "`kei_spec` の `topic` にセクション番号・見出しキーワード・エラーコードを渡すと\n該当箇所を返す。topic を空にするとこの索引を返す。\n\n";

fn bundle() -> Bundle {
    let s = |a: &str, b: &str| (a.to_string(), b.to_string());
    Bundle {
        spec: vec![
            s("diagnostic-schema.md", "SCHEMA"),
            s("errors/KEI-E1001.md", "E1001 doc"),
            s("kei-spec-v0.1.md", "# Title\n## 1. Intro\nhello\n### Sub\nmore\n## 2. Types\nints\n"),
            s("kei-spec-v0.3-collections.md", "COLL"),
        ],
        examples: vec![s("basic/hello.kei", "func main() {}\n"), s("shop/cart.kei", "record Cart {\n  total: Int\n}\n\n")],
    }
}

fn index() -> String {
    format!(
        "# Kei spec index\n\n{INTRO}## セクション (kei-spec-v0.1.md)\n\n- 1. Intro\n- 2. Types\n\n## 追加仕様ドラフト (spec/)\n\n- kei-spec-v0.3-collections.md (topic: \"collections\")\n\n## Diagnostic スキーマ\n\n- diagnostic-schema (topic: \"diagnostic\")\n\n## エラーコード (spec/errors/)\n\n- KEI-E1001\n"
    )
}

#[test]
fn argument_errors_name_the_argument() {
    let m = missing_arg("source");
    assert!(m.is_error);
    assert_eq!(m.text, "Missing required argument 'source'.");
    let u = unknown_tool("kei_run");
    assert!(u.is_error);
    assert_eq!(u.text, "Unknown tool 'kei_run'.");
}

#[test]
fn spec_file_finds_by_path() {
    let b = bundle();
    assert_eq!(spec_file(&b, "errors/KEI-E1001.md").as_deref(), Some("E1001 doc"));
    assert!(spec_file(&b, "errors/KEI-E9999.md").is_none());
}

#[test]
fn blank_topic_returns_the_index() {
    let out = run_spec(&bundle(), "  ");
    assert!(!out.is_error);
    assert_eq!(out.text, index());
}

#[test]
fn error_code_topic_is_case_insensitive() {
    let out = run_spec(&bundle(), "kei-e1001");
    assert!(!out.is_error);
    assert_eq!(out.text, "E1001 doc");
    let miss = run_spec(&bundle(), "KEI-E9999");
    assert!(miss.is_error);
    assert_eq!(miss.text, format!("Unknown error code 'KEI-E9999'.\n\n{}", index()));
}

#[test]
fn section_by_number_title_or_marked_number() {
    let b = bundle();
    assert_eq!(run_spec(&b, "2").text, "## 2. Types\nints");
    assert_eq!(run_spec(&b, "intro").text, "## 1. Intro\nhello\n### Sub\nmore");
    assert_eq!(run_spec(&b, "§1.").text, "## 1. Intro\nhello\n### Sub\nmore");
}

#[test]
fn schema_and_extra_documents() {
    let b = bundle();
    assert_eq!(run_spec(&b, "Diagnostics").text, "SCHEMA");
    assert_eq!(run_spec(&b, "collections").text, "COLL");
    let none = run_spec(&b, "zz");
    assert!(none.is_error);
    assert_eq!(none.text, format!("No spec section matched 'zz'.\n\n{}", index()));
}

#[test]
fn examples_search_and_list() {
    let b = bundle();
    let hit = run_examples(&b, "CART");
    assert!(!hit.is_error);
    assert_eq!(hit.text, "### examples/shop/cart.kei\n\n```kei\nrecord Cart {\n  total: Int\n}\n```");
    let list = run_examples(&b, "");
    assert_eq!(
        list.text,
        "# Kei examples\n\n`kei_examples` の `query` にキーワードを渡すと該当する例を返す\n(パス・本文を部分一致で検索)。query を空にするとこの一覧を返す。\n\n- examples/basic/hello.kei\n- examples/shop/cart.kei\n"
    );
    let miss = run_examples(&b, "nothing");
    assert!(miss.is_error);
    assert!(miss.text.starts_with("No example matched 'nothing'.\n\n# Kei examples"));
}

#[test]
fn check_tool_returns_diagnostics_json() {
    let clean = run_check("func f() -> Int {\n  return 1\n}\n");
    assert!(!clean.is_error);
    assert_eq!(clean.text, "[]");
    let dirty = run_check("func f() -> Int {\n  return missing\n}\n");
    assert!(!dirty.is_error);
    let v: serde_json::Value = serde_json::from_str(&dirty.text).expect("JSON");
    let first = &v[0];
    assert_eq!(first["severity"], "error");
    assert_eq!(first["code"], "KEI-E1001");
    assert_eq!(first["span"]["file"], "source.kei");
    assert_eq!(first["span"]["start"]["line"], 2);
    assert!(first["fixes"].as_array().map(|a| !a.is_empty()).unwrap_or(false));
    assert!(first.get("suggested_contract").is_none());
    assert!(dirty.text.starts_with("[\n  {\n    \"severity\": \"error\",\n    \"code\": \"KEI-E1001\",\n"), "{}", dirty.text);
}

#[test]
fn fmt_tool_formats_or_reports() {
    let ok = run_fmt("func f()->Int{return 1}\n");
    assert!(!ok.is_error);
    assert_eq!(ok.text, "func f() -> Int {\n  return 1\n}\n");
    let bad = run_fmt("func f( {\n");
    assert!(bad.is_error);
    let v: serde_json::Value = serde_json::from_str(&bad.text).expect("JSON");
    assert!(v.as_array().map(|a| !a.is_empty()).unwrap_or(false));
}

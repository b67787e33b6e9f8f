use kei::diag_json::diagnostics_json;
use kei::diagnostic::{Diagnostic, Fix, Position, Severity, Span, SuggestedContract, TextEdit};
use kei::sourcemap::{build_map, encode_mappings, Mapping};
use serde::ser::{SerializeStruct, Serializer};
use serde::Serialize;

// serde's view of the wire types, field for field in declaration order:
// what `#[derive(Serialize)]` on the shapes of the checker's diagnostics
// writes, so that the library's hand-built JSON can be compared byte for byte.
struct W<'a, T>(&'a T);

impl Serialize for W<'_, Severity> {
    fn serialize<S: Serializer>(&self, s: S) -> Result<S::Ok, S::Error> {
        let (i, n) = match self.0 {
            Severity::Error => (0, "error"),
            Severity::Warning => (1, "warning"),
            Severity::Info => (2, "info"),
        };
        s.serialize_unit_variant("Severity", i, n)
    }
}

impl Serialize for W<'_, Position> {
    fn serialize<S: Serializer>(&self, s: S) -> Result<S::Ok, S::Error> {
        let mut st = s.serialize_struct("Position", 2)?;
        st.serialize_field("line", &self.0.line)?;
        st.serialize_field("col", &self.0.col)?;
        st.end()
    }
}

impl Serialize for W<'_, Span> {
    fn serialize<S: Serializer>(&self, s: S) -> Result<S::Ok, S::Error> {
        let mut st = s.serialize_struct("Span", 3)?;
        st.serialize_field("file", &self.0.file)?;
        st.serialize_field("start", &W(&self.0.start))?;
        st.serialize_field("end", &W(&self.0.end))?;
        st.end()
    }
}

impl Serialize for W<'_, TextEdit> {
    fn serialize<S: Serializer>(&self, s: S) -> Result<S::Ok, S::Error> {
        let mut st = s.serialize_struct("TextEdit", 2)?;
        st.serialize_field("span", &W(&self.0.span))?;
        st.serialize_field("new_text", &self.0.new_text)?;
        st.end()
    }
}

impl Serialize for W<'_, Fix> {
    fn serialize<S: Serializer>(&self, s: S) -> Result<S::Ok, S::Error> {
        let edits: Vec<W<TextEdit>> = self.0.edits.iter().map(W).collect();
        let mut st = s.serialize_struct("Fix", 2)?;
        st.serialize_field("title", &self.0.title)?;
        st.serialize_field("edits", &edits)?;
        st.end()
    }
}

impl Serialize for W<'_, SuggestedContract> {
    fn serialize<S: Serializer>(&self, s: S) -> Result<S::Ok, S::Error> {
        let mut st = s.serialize_struct("SuggestedContract", 4)?;
        st.serialize_field("kind", &self.0.kind)?;
        st.serialize_field("function", &self.0.function)?;
        st.serialize_field("clause", &self.0.clause)?;
        st.serialize_field("expr", &self.0.expr)?;
        st.end()
    }
}

impl Serialize for W<'_, Diagnostic> {
    fn serialize<S: Serializer>(&self, s: S) -> Result<S::Ok, S::Error> {
        let d = self.0;
        let fixes: Vec<W<Fix>> = d.fixes.iter().map(W).collect();
        let n = if d.suggested_contract.is_some() { 6 } else { 5 };
        let mut st = s.serialize_struct("Diagnostic", n)?;
        st.serialize_field("severity", &W(&d.severity))?;
        st.serialize_field("code", &d.code)?;
        st.serialize_field("message", &d.message)?;
        st.serialize_field("span", &W(&d.span))?;
        st.serialize_field("fixes", &fixes)?;
        if let Some(sc) = &d.suggested_contract {
            st.serialize_field("suggested_contract", &W(sc))?;
        }
        st.end()
    }
}

fn span(file: &str, l1: u32, c1: u32, l2: u32, c2: u32) -> Span {
    Span { file: file.to_string(), start: Position { line: l1, col: c1 }, end: Position { line: l2, col: c2 } }
}

fn sample() -> Vec<Diagnostic> {
    vec![
        Diagnostic {
            severity: Severity::Error,
            code: "KEI-E1001".to_string(),
            message: "undefined name 'amount' \"quoted\"\ttab \u{1}ctl é".to_string(),
            span: span("src/a.kei", 3, 5, 3, 11),
            fixes: vec![Fix {
                title: "Rename to 'amt'".to_string(),
                edits: vec![TextEdit { span: span("src/a.kei", 3, 5, 3, 11), new_text: "amt\\n".to_string() }],
            }],
            suggested_contract: None,
        },
        Diagnostic {
            severity: Severity::Warning,
            code: "KEI-E4008".to_string(),
            message: "missing contract".to_string(),
            span: span("src/b.kei", 1, 6, 1, 14),
            fixes: vec![Fix { title: "Add an ensures clause".to_string(), edits: vec![] }],
            suggested_contract: Some(SuggestedContract {
                kind: "ContractMissing".to_string(),
                function: "positive".to_string(),
                clause: "ensures".to_string(),
                expr: "result == (x > 0)".to_string(),
            }),
        },
        Diagnostic {
            severity: Severity::Info,
            code: "KEI-I0001".to_string(),
            message: String::new(),
            span: span("", 1, 1, 1, 1),
            fixes: vec![],
            suggested_contract: None,
        },
    ]
}

#[test]
fn diagnostics_json_matches_serde_pretty_bytes() {
    let ds = sample();
    let wire: Vec<W<Diagnostic>> = ds.iter().map(W).collect();
    let expected = serde_json::to_string_pretty(&wire).unwrap();
    assert_eq!(diagnostics_json(&ds), expected);
}

#[test]
fn diagnostics_json_of_none_matches_serde() {
    let ds: Vec<Diagnostic> = Vec::new();
    let wire: Vec<W<Diagnostic>> = ds.iter().map(W).collect();
    assert_eq!(diagnostics_json(&ds), serde_json::to_string_pretty(&wire).unwrap());
}

#[test]
fn source_map_matches_serde_pretty_bytes() {
    let ms = vec![
        Mapping { gen_line: 0, gen_col: 0, src_line: 0, src_col: 0 },
        Mapping { gen_line: 0, gen_col: 9, src_line: 2, src_col: 4 },
        Mapping { gen_line: 3, gen_col: 2, src_line: 1, src_col: 0 },
    ];
    let source = "module m\n\nfunc f() -> String {\n  return \"a\\\"b\"\n}\n";
    let mut map = serde_json::Map::new();
    map.insert("version".to_string(), serde_json::Value::from(3));
    map.insert("file".to_string(), serde_json::Value::from("m.ts"));
    map.insert("sources".to_string(), serde_json::Value::Array(vec![serde_json::Value::from("src/m.kei")]));
    map.insert("sourcesContent".to_string(), serde_json::Value::Array(vec![serde_json::Value::from(source)]));
    map.insert("names".to_string(), serde_json::Value::Array(vec![]));
    map.insert("mappings".to_string(), serde_json::Value::from(encode_mappings(&ms)));
    let mut expected = serde_json::to_string_pretty(&serde_json::Value::Object(map)).unwrap();
    expected.push('\n');
    assert_eq!(build_map("m.ts", "src/m.kei", source, &ms), expected);
}

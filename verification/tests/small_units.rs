use kei::diagnostic::{Diagnostic, Fix, Position, Severity, Span, TextEdit};
use kei::effects::{covers, is_known};
use kei::sourcemap::{encode_mappings, vlq_encode, Mapping};

fn sample_span() -> Span {
    Span {
        file: "transfer.kei".to_string(),
        start: Position { line: 12, col: 3 },
        end: Position { line: 12, col: 28 },
    }
}

#[test]
fn new_rejects_empty_fixes() {
    let result = Diagnostic::new(
        Severity::Error,
        "KEI-E3042".to_string(),
        "some message".to_string(),
        sample_span(),
        vec![],
    );
    assert!(result.is_none());
}

#[test]
fn new_accepts_one_fix_and_keeps_fields() {
    let d = Diagnostic::new(
        Severity::Warning,
        "KEI-E3042".to_string(),
        "m".to_string(),
        sample_span(),
        vec![Fix {
            title: "t".to_string(),
            edits: vec![TextEdit { span: sample_span(), new_text: "x".to_string() }],
        }],
    )
    .expect("one fix");
    assert_eq!(d.severity, Severity::Warning);
    assert_eq!(d.fixes.len(), 1);
    assert!(d.suggested_contract.is_none());
}

#[test]
fn hierarchy_containment() {
    assert!(covers("IO", "Database.Write"));
    assert!(covers("IO", "Clock"));
    assert!(covers("Database", "Database.Write"));
    assert!(covers("Database.Write", "Database.Write"));
    assert!(!covers("Database.Write", "Database"));
    assert!(!covers("Database.Read", "Database.Write"));
    assert!(!covers("Database", "DatabaseX"));
    assert!(!covers("Clock", "IO"));
}

#[test]
fn known_effects_are_the_standard_hierarchy() {
    assert!(is_known("IO"));
    assert!(is_known("Audit.Log"));
    assert!(is_known("Network.Write"));
    assert!(!is_known("Audit.Log.Write"));
    assert!(!is_known("database"));
}

#[test]
fn covers_is_transitive_on_a_chain() {
    assert!(covers("Audit", "Audit.Log"));
    assert!(covers("Audit.Log", "Audit.Log.Entry"));
    assert!(covers("Audit", "Audit.Log.Entry"));
}

#[test]
fn vlq_basics() {
    let mut s = String::new();
    vlq_encode(0, &mut s);
    assert_eq!(s, "A");
    let mut s = String::new();
    vlq_encode(16, &mut s);
    assert_eq!(s, "gB");
    let mut s = String::new();
    vlq_encode(-1, &mut s);
    assert_eq!(s, "D");
}

#[test]
fn vlq_large_values_use_continuation_digits() {
    let mut s = String::new();
    vlq_encode(1000, &mut s);
    assert_eq!(s, "w+B");
    let mut s = String::new();
    vlq_encode(-1000, &mut s);
    assert_eq!(s, "x+B");
}

#[test]
fn encode_relative_segments() {
    let ms = [
        Mapping { gen_line: 0, gen_col: 0, src_line: 0, src_col: 0 },
        Mapping { gen_line: 2, gen_col: 4, src_line: 1, src_col: 2 },
    ];
    assert_eq!(encode_mappings(&ms), "AAAA;;IACE");
}

#[test]
fn segments_on_one_line_are_comma_separated() {
    let ms = [
        Mapping { gen_line: 0, gen_col: 2, src_line: 0, src_col: 0 },
        Mapping { gen_line: 0, gen_col: 5, src_line: 0, src_col: 3 },
    ];
    assert_eq!(encode_mappings(&ms), "EAAA,GAAG");
}

#[test]
fn empty_mappings_encode_to_empty_text() {
    assert_eq!(encode_mappings(&[]), "");
}

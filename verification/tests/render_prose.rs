use kei::diagnostic::{Diagnostic, Fix, Position, Severity, Span, TextEdit};
use kei::render::{contracts, diagnostics, format_diff, line_diff};
use kei::report::{ContractInfo, ContractKind, Verification};

fn diag() -> Diagnostic {
    Diagnostic::new(
        Severity::Error,
        "KEI-E3001".to_string(),
        "effect 'Database.Write' used but not declared in 'uses' clause".to_string(),
        Span {
            file: "transfer.kei".to_string(),
            start: Position { line: 10, col: 10 },
            end: Position { line: 10, col: 22 },
        },
        vec![Fix {
            title: "Add 'uses Database.Write' to 'save'".to_string(),
            edits: vec![TextEdit {
                span: Span {
                    file: "transfer.kei".to_string(),
                    start: Position { line: 10, col: 10 },
                    end: Position { line: 10, col: 10 },
                },
                new_text: String::new(),
            }],
        }],
    )
    .unwrap()
}

#[test]
fn renders_all_diagnostic_elements() {
    let source = "module m\n\nfunc save(id: Int) -> Bool {\n  return writeRow(id)\n}\n\
                  \n\n\n\n  return writeRow(id)\n";
    let out = diagnostics(source, &[diag()]);
    assert!(out.contains("error[KEI-E3001]: effect 'Database.Write'"));
    assert!(out.contains("--> transfer.kei:10:10"));
    assert!(out.contains("10 |"));
    assert!(out.contains("^^^^^^^^^^^^"));
    assert!(out.contains("= fix: Add 'uses Database.Write' to 'save'"));
    assert!(out.ends_with('\n'));
}

#[test]
fn empty_when_no_diagnostics() {
    assert_eq!(diagnostics("anything", &[]), "");
}

#[test]
fn caret_is_at_least_one() {
    let mut d = diag();
    d.span.end = d.span.start;
    let out = diagnostics("x\n".repeat(12).as_str(), &[d]);
    assert!(out.contains(" ^\n"));
}

#[test]
fn diff_marks_added_and_removed_lines() {
    let diff = line_diff("let x = (a)\n", "let x = a\n");
    assert!(diff.contains("-let x = (a)"));
    assert!(diff.contains("+let x = a"));
}

#[test]
fn exact_rendering_of_one_diagnostic() {
    let mut d = diag();
    d.span.start = Position { line: 2, col: 3 };
    d.span.end = Position { line: 2, col: 6 };
    let out = diagnostics("a\n  abc\n", &[d]);
    assert_eq!(
        out,
        "error[KEI-E3001]: effect 'Database.Write' used but not declared in 'uses' clause\n \
         --> transfer.kei:2:3\n  |\n2 |   abc\n  |   ^^^\n  = fix: Add 'uses Database.Write' to 'save'\n\n"
    );
}

#[test]
fn diff_keeps_common_lines() {
    let diff = line_diff("a\nb\nc\n", "a\nx\nc\n");
    assert_eq!(diff, " a\n-b\n+x\n c\n");
    let report = format_diff("m.kei", "a\n", "a\n");
    assert_eq!(report, "m.kei: not formatted (run `kei fmt --write m.kei`)\n a\n");
}

#[test]
fn contract_summary_lists_levels() {
    let info = ContractInfo {
        func: "f".to_string(),
        kind: ContractKind::Ensures,
        expr: "result > 0".to_string(),
        verification: Verification::Generative,
        span: Span { file: "f.kei".to_string(), start: Position { line: 1, col: 1 }, end: Position { line: 1, col: 2 } },
    };
    assert_eq!(contracts(&[info]), "verification:\n  f ensures result > 0  [generative]\n");
    assert_eq!(contracts(&[]), "");
}

use kei::check::check_module;
use kei::diagnostic::{Position, Severity};
use kei::syntax::parse_module;

#[test]
fn local_record_clashing_with_an_import_is_reported() {
    let parsed = parse_module("import a.b { X }\nrecord X {}\n");
    assert!(parsed.errors.is_empty());
    let ds = check_module("t.kei", &parsed.module);
    let clashes: Vec<_> = ds.iter().filter(|d| d.code == "KEI-E1004").collect();
    assert_eq!(clashes.len(), 1);
    assert_eq!(clashes[0].severity, Severity::Error);
    assert_eq!(clashes[0].span.file, "t.kei");
    assert_eq!(clashes[0].span.start, Position { line: 2, col: 8 });
}

#[test]
fn repeated_item_name_is_reported_as_duplicate() {
    let parsed = parse_module("record X {}\nrecord X {}\n");
    assert!(parsed.errors.is_empty());
    let ds = check_module("t.kei", &parsed.module);
    let dups: Vec<_> = ds.iter().filter(|d| d.code == "KEI-E1003").collect();
    assert_eq!(dups.len(), 1);
    assert_eq!(dups[0].span.start, Position { line: 2, col: 8 });
}

#[test]
fn unknown_effect_in_uses_is_reported() {
    let parsed = parse_module("func f() -> Int\n  uses Teleport\n{\n  return 1\n}\n");
    assert!(parsed.errors.is_empty());
    let ds = check_module("t.kei", &parsed.module);
    let unknown: Vec<_> = ds.iter().filter(|d| d.code == "KEI-E3002").collect();
    assert_eq!(unknown.len(), 1);
    assert_eq!(unknown[0].span.start, Position { line: 2, col: 8 });
}

#[test]
fn repeated_extern_and_effectful_query_are_reported() {
    let src = "import infra.db as Db\n\nextern Db.get(id: Int) -> Int uses Database.Read\nextern Db.get(id: Int) -> Int\nextern query Db.count() -> Int uses Database.Read\n";
    let parsed = parse_module(src);
    assert!(parsed.errors.is_empty(), "{:?}", parsed.errors);
    let ds = check_module("t.kei", &parsed.module);
    assert!(ds.iter().any(|d| d.code == "KEI-E3003" && d.span.start.line == 4));
    assert!(ds.iter().any(|d| d.code == "KEI-E3005" && d.span.start.line == 5));
}

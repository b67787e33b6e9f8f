use kei::ast::Module;
use kei::paths::{derive_root, path_components, rel_path, strip_source_mapping_url};
use kei::syntax::parse_module;

fn module_with_decl(path: &[&str]) -> Module {
    let src = format!("module {}\n", path.join("."));
    let parsed = parse_module(&src);
    assert!(parsed.errors.is_empty());
    parsed.module
}

#[test]
fn derive_root_pops_segments_for_matching_layout() {
    let m = module_with_decl(&["a", "b", "c"]);
    let root = derive_root("project/a/b/c.kei", &m).expect("should derive");
    assert_eq!(root, "project");
}

#[test]
fn derive_root_rejects_when_file_stem_does_not_match_last_segment() {
    let m = module_with_decl(&["x", "y"]);
    assert!(derive_root("project/x/irregular.kei", &m).is_none());
}

#[test]
fn derive_root_rejects_when_directory_does_not_match_intermediate_segment() {
    let m = module_with_decl(&["a", "b", "c"]);
    assert!(derive_root("project/a/different/c.kei", &m).is_none());
}

#[test]
fn derive_root_returns_none_when_module_decl_missing() {
    let parsed = parse_module("");
    assert!(parsed.errors.is_empty());
    assert!(derive_root("anything.kei", &parsed.module).is_none());
}

#[test]
fn derive_root_keeps_absolute_roots_and_rejects_short_paths() {
    let m = module_with_decl(&["a", "b"]);
    assert_eq!(derive_root("/srv/proj/a/b.kei", &m).as_deref(), Some("/srv/proj"));
    assert_eq!(derive_root("a/b.kei", &m).as_deref(), Some(""));
    assert!(derive_root("b.kei", &m).is_none());
}

#[test]
fn rel_path_is_dir_relative_with_forward_slashes() {
    let rel = rel_path("a/b", "a/b/sub/m.kei");
    assert_eq!(rel, "sub/m.kei");
}

#[test]
fn rel_path_of_a_file_outside_the_dir_is_the_file() {
    assert_eq!(rel_path("x", "a/./b//m.kei"), "a/b/m.kei");
}

#[test]
fn components_drop_empty_and_dot_segments() {
    let cs: Vec<String> = path_components("/a//./b/").into_iter().map(|c| c.into_iter().collect()).collect();
    assert_eq!(cs, vec!["/", "a", "b"]);
}

#[test]
fn strip_removes_only_the_source_mapping_comment() {
    let ts = "export const x = 1;\n//# sourceMappingURL=m.ts.map\n";
    assert_eq!(strip_source_mapping_url(ts), "export const x = 1;\n");
}

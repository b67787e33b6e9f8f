use kei::project::{count_errors, has_errors, plan_build};

fn files(list: &[(&str, &str)]) -> Vec<(String, String)> {
    list.iter().map(|(a, b)| (a.to_string(), b.to_string())).collect()
}

#[test]
fn clean_project_plans_ts_and_maps() {
    let fs = files(&[
        ("a.kei", "module app.a\n\nfunc one() -> Int {\n  return 1\n}\n"),
        ("b.kei", "func two() -> Int {\n  return 2\n}\n"),
    ]);
    let out = plan_build(&fs, true).ok().expect("clean");
    let paths: Vec<&str> = out.iter().map(|o| o.path.as_str()).collect();
    assert_eq!(paths, vec!["app/a.ts", "app/a.ts.map", "b.ts", "b.ts.map"]);
    assert!(out[0].content.ends_with("//# sourceMappingURL=a.ts.map\n"));
}

#[test]
fn without_source_maps_the_comment_is_dropped() {
    let fs = files(&[("b.kei", "func two() -> Int {\n  return 2\n}\n")]);
    let out = plan_build(&fs, false).ok().expect("clean");
    assert_eq!(out.len(), 1);
    assert!(!out[0].content.contains("sourceMappingURL"));
}

#[test]
fn one_failing_file_means_nothing_to_write() {
    let fs = files(&[
        ("a.kei", "func one() -> Int {\n  return 1\n}\n"),
        ("bad.kei", "func f() -> Int {\n  return missing\n}\n"),
    ]);
    let fails = plan_build(&fs, true).err().expect("fails");
    assert_eq!(fails.len(), 1);
    assert!(has_errors(&fails[0].diagnostics));
    assert_eq!(count_errors(&fails[0].diagnostics), 1);
    assert!(fails[0].source.contains("missing"));
}

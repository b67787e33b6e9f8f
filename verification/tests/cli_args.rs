use kei::cli::{parse, Command, FmtMode, UsageError};

fn parse_args(args: &[&str]) -> Result<Command, UsageError> {
    parse(args.iter().map(|s| s.to_string()).collect())
}

#[test]
fn check_plain() {
    assert_eq!(
        parse_args(&["check", "a.kei"]),
        Ok(Command::Check { file: "a.kei".to_string(), json: false })
    );
}

#[test]
fn check_json_flag_either_order() {
    let expected = Ok(Command::Check { file: "a.kei".to_string(), json: true });
    assert_eq!(parse_args(&["check", "a.kei", "--json"]), expected);
    assert_eq!(parse_args(&["check", "--json", "a.kei"]), expected);
}

#[test]
fn fmt_modes() {
    assert_eq!(
        parse_args(&["fmt", "a.kei"]),
        Ok(Command::Fmt { file: "a.kei".to_string(), mode: FmtMode::Stdout })
    );
    assert_eq!(
        parse_args(&["fmt", "a.kei", "--check"]),
        Ok(Command::Fmt { file: "a.kei".to_string(), mode: FmtMode::Check })
    );
    assert_eq!(
        parse_args(&["fmt", "--write", "a.kei"]),
        Ok(Command::Fmt { file: "a.kei".to_string(), mode: FmtMode::Write })
    );
}

#[test]
fn build_and_test() {
    assert_eq!(
        parse_args(&["build", "src"]),
        Ok(Command::Build { dir: "src".to_string(), out_dir: None, source_map: true })
    );
    assert_eq!(
        parse_args(&["build", "src", "--out-dir", "out", "--no-source-map"]),
        Ok(Command::Build {
            dir: "src".to_string(),
            out_dir: Some("out".to_string()),
            source_map: false,
        })
    );
    assert_eq!(parse_args(&["test", "proj"]), Ok(Command::Test { dir: "proj".to_string() }));
    assert_eq!(parse_args(&["test"]), Ok(Command::Test { dir: ".".to_string() }));
}

#[test]
fn mcp_takes_no_args() {
    assert_eq!(parse_args(&["mcp"]), Ok(Command::Mcp));
    assert_eq!(parse_args(&["mcp", "--help"]), Ok(Command::Help));
    assert!(parse_args(&["mcp", "foo"]).is_err());
    assert!(parse_args(&["mcp", "--bogus"]).is_err());
}

#[test]
fn usage_errors() {
    assert!(parse_args(&[]).is_err());
    assert!(parse_args(&["check"]).is_err());
    assert!(parse_args(&["fmt"]).is_err());
    assert!(parse_args(&["check", "a.kei", "b.kei"]).is_err());
    assert!(parse_args(&["check", "--bogus", "a.kei"]).is_err());
    assert!(parse_args(&["fmt", "a.kei", "--check", "--write"]).is_err());
    assert!(parse_args(&["frobnicate", "a.kei"]).is_err());
    assert!(parse_args(&["build"]).is_err());
    assert!(parse_args(&["build", "a", "b"]).is_err());
    assert!(parse_args(&["build", "src", "--out-dir"]).is_err());
    assert!(parse_args(&["build", "src", "--bogus"]).is_err());
    assert!(parse_args(&["test", "a", "b"]).is_err());
}

#[test]
fn help_and_version() {
    assert_eq!(parse_args(&["--help"]), Ok(Command::Help));
    assert_eq!(parse_args(&["-h"]), Ok(Command::Help));
    assert_eq!(parse_args(&["help"]), Ok(Command::Help));
    assert_eq!(parse_args(&["--version"]), Ok(Command::Version));
    assert_eq!(parse_args(&["version"]), Ok(Command::Version));
}

#[test]
fn usage_error_messages_name_the_problem() {
    assert_eq!(parse_args(&["frobnicate"]), Err(UsageError("unknown subcommand 'frobnicate'".to_string())));
    assert_eq!(
        parse_args(&["check", "--bogus"]),
        Err(UsageError("unknown option '--bogus' for 'check'".to_string()))
    );
    assert_eq!(
        parse_args(&["fmt", "a.kei", "--check", "--write"]),
        Err(UsageError("fmt: --check and --write cannot be combined".to_string()))
    );
    assert_eq!(parse_args(&["fmt", "-", "--check", "--check"]), Ok(Command::Fmt { file: "-".to_string(), mode: FmtMode::Check }));
}

//! Argument interpretation for the `kei` command line: maps argv (without the
//! program name) to a [`Command`], or to a [`UsageError`] (exit code 2).
use vstd::prelude::*;
use crate::text::{cat2, cat3, owned, str_eq};

verus! {

broadcast use vstd::string::group_string_axioms;

/// An interpreted subcommand. Paths are kept as given.
#[derive(Debug, PartialEq, Eq)]
pub enum Command {
    /// `kei check <file> [--json]`
    Check { file: String, json: bool },
    /// `kei fmt <file> [--check | --write]`
    Fmt { file: String, mode: FmtMode },
    /// `kei build <dir> [--out-dir <dir>] [--no-source-map]`
    Build {
        dir: String,
        /// `None` means the default `<dir>/dist/`.
        out_dir: Option<String>,
        /// Whether source maps are written (`--no-source-map` turns them off).
        source_map: bool,
    },
    /// `kei test [<dir>]`; the current directory when omitted.
    Test { dir: String },
    /// `kei mcp` (no arguments).
    Mcp,
    /// `kei help` / `--help` / `-h`.
    Help,
    /// `kei version` / `--version` / `-V`.
    Version,
}

/// What `kei fmt` does; printing to stdout is the default.
#[derive(Debug, Clone, Copy, PartialEq, Eq, Structural)]
pub enum FmtMode {
    Stdout,
    Check,
    Write,
}

/// A failure to interpret the arguments (exit code 2).
#[derive(Debug, PartialEq, Eq)]
pub struct UsageError(pub String);

/// The meaning of a command line, over character sequences.
pub enum CommandView {
    Check(Seq<char>, bool),
    Fmt(Seq<char>, FmtMode),
    Build(Seq<char>, Option<Seq<char>>, bool),
    Test(Seq<char>),
    Mcp,
    Help,
    Version,
}

pub open spec fn command_view(c: Command) -> CommandView {
    match c {
        Command::Check { file, json } => CommandView::Check(file@, json),
        Command::Fmt { file, mode } => CommandView::Fmt(file@, mode),
        Command::Build { dir, out_dir, source_map } => CommandView::Build(dir@,
            match out_dir { Some(o) => Some(o@), None => None }, source_map),
        Command::Test { dir } => CommandView::Test(dir@),
        Command::Mcp => CommandView::Mcp,
        Command::Help => CommandView::Help,
        Command::Version => CommandView::Version,
    }
}

pub open spec fn result_view(r: Result<Command, UsageError>) -> Result<CommandView, Seq<char>> {
    match r {
        Ok(c) => Ok(command_view(c)),
        Err(e) => Err(e.0@),
    }
}

/// An argument starting with `-` is an option, except `-` alone (stdin).
pub open spec fn spec_is_option(a: Seq<char>) -> bool {
    a.len() > 0 && a[0] == '-' && a != "-"@
}

pub open spec fn is_help(a: Seq<char>) -> bool {
    a == "--help"@ || a == "-h"@
}

/// `kei check` over `args[i..]`, with what was read so far.
pub open spec fn check_spec(args: Seq<Seq<char>>, i: int, file: Option<Seq<char>>, json: bool) -> Result<CommandView, Seq<char>>
    decreases args.len() - i,
{
    if i >= args.len() {
        match file {
            Some(f) => Ok(CommandView::Check(f, json)),
            None => Err("check requires a <file> argument"@),
        }
    } else {
        let a = args[i];
        if a == "--json"@ {
            if json { Err("--json given more than once"@) } else { check_spec(args, i + 1, file, true) }
        } else if is_help(a) {
            Ok(CommandView::Help)
        } else if spec_is_option(a) {
            Err("unknown option '"@ + a + "' for 'check'"@)
        } else if file is Some {
            Err("check takes exactly one <file>"@)
        } else {
            check_spec(args, i + 1, Some(a), json)
        }
    }
}

/// `kei fmt` over `args[i..]`.
pub open spec fn fmt_spec(args: Seq<Seq<char>>, i: int, file: Option<Seq<char>>, mode: Option<FmtMode>) -> Result<CommandView, Seq<char>>
    decreases args.len() - i,
{
    if i >= args.len() {
        match file {
            Some(f) => Ok(CommandView::Fmt(f, match mode { Some(m) => m, None => FmtMode::Stdout })),
            None => Err("fmt requires a <file> argument"@),
        }
    } else {
        let a = args[i];
        if a == "--check"@ || a == "--write"@ {
            let m = if a == "--check"@ { FmtMode::Check } else { FmtMode::Write };
            if mode is Some && mode->0 != m {
                Err("fmt: --check and --write cannot be combined"@)
            } else {
                fmt_spec(args, i + 1, file, Some(m))
            }
        } else if is_help(a) {
            Ok(CommandView::Help)
        } else if spec_is_option(a) {
            Err("unknown option '"@ + a + "' for 'fmt'"@)
        } else if file is Some {
            Err("fmt takes exactly one <file>"@)
        } else {
            fmt_spec(args, i + 1, Some(a), mode)
        }
    }
}

/// `kei build` over `args[i..]`.
pub open spec fn build_spec(args: Seq<Seq<char>>, i: int, dir: Option<Seq<char>>, out_dir: Option<Seq<char>>, source_map: bool) -> Result<CommandView, Seq<char>>
    decreases args.len() - i,
{
    if i >= args.len() {
        match dir {
            Some(d) => Ok(CommandView::Build(d, out_dir, source_map)),
            None => Err("build requires a <dir> argument"@),
        }
    } else {
        let a = args[i];
        if a == "--out-dir"@ {
            if out_dir is Some {
                Err("--out-dir given more than once"@)
            } else if i + 1 >= args.len() {
                Err("--out-dir requires a <dir> value"@)
            } else {
                build_spec(args, i + 2, dir, Some(args[i + 1]), source_map)
            }
        } else if a == "--no-source-map"@ {
            build_spec(args, i + 1, dir, out_dir, false)
        } else if is_help(a) {
            Ok(CommandView::Help)
        } else if spec_is_option(a) {
            Err("unknown option '"@ + a + "' for 'build'"@)
        } else if dir is Some {
            Err("build takes exactly one <dir>"@)
        } else {
            build_spec(args, i + 1, Some(a), out_dir, source_map)
        }
    }
}

/// `kei test` over `args[i..]`.
pub open spec fn test_spec(args: Seq<Seq<char>>, i: int, dir: Option<Seq<char>>) -> Result<CommandView, Seq<char>>
    decreases args.len() - i,
{
    if i >= args.len() {
        Ok(CommandView::Test(match dir { Some(d) => d, None => "."@ }))
    } else {
        let a = args[i];
        if is_help(a) {
            Ok(CommandView::Help)
        } else if spec_is_option(a) {
            Err("unknown option '"@ + a + "' for 'test'"@)
        } else if dir is Some {
            Err("test takes at most one <dir>"@)
        } else {
            test_spec(args, i + 1, Some(a))
        }
    }
}

/// `kei mcp` over `args[1..]`.
pub open spec fn mcp_spec(args: Seq<Seq<char>>) -> Result<CommandView, Seq<char>> {
    if args.len() <= 1 {
        Ok(CommandView::Mcp)
    } else if is_help(args[1]) {
        Ok(CommandView::Help)
    } else {
        Err("mcp takes no arguments (got '"@ + args[1] + "')"@)
    }
}

/// The meaning of a whole command line.
pub open spec fn parse_spec(args: Seq<Seq<char>>) -> Result<CommandView, Seq<char>> {
    if args.len() == 0 {
        Err("no subcommand given"@)
    } else {
        let sub = args[0];
        if sub == "help"@ || sub == "--help"@ || sub == "-h"@ {
            Ok(CommandView::Help)
        } else if sub == "version"@ || sub == "--version"@ || sub == "-V"@ {
            Ok(CommandView::Version)
        } else if sub == "check"@ {
            check_spec(args, 1, None, false)
        } else if sub == "fmt"@ {
            fmt_spec(args, 1, None, None)
        } else if sub == "build"@ {
            build_spec(args, 1, None, None, true)
        } else if sub == "test"@ {
            test_spec(args, 1, None)
        } else if sub == "mcp"@ {
            mcp_spec(args)
        } else {
            Err("unknown subcommand '"@ + sub + "'"@)
        }
    }
}

pub open spec fn args_view(args: Seq<String>) -> Seq<Seq<char>> {
    args.map_values(|s: String| s@)
}

fn usage(msg: String) -> (e: UsageError)
    ensures
        e.0 == msg,
{
    UsageError(msg)
}

/// Whether `arg` is an option.
pub fn is_option(arg: &str) -> (r: bool)
    ensures
        r == spec_is_option(arg@),
{
    let cs = crate::text::chars_of(arg);
    cs.len() > 0 && cs[0] == '-' && !str_eq(arg, "-")
}

fn is_help_exec(arg: &str) -> (r: bool)
    ensures
        r == is_help(arg@),
{
    str_eq(arg, "--help") || str_eq(arg, "-h")
}

/// Interprets the arguments that follow the program name.
pub fn parse(args: Vec<String>) -> (r: Result<Command, UsageError>)
    ensures
        result_view(r) == parse_spec(args_view(args@)),
{
    let ghost av = args_view(args@);
    if args.len() == 0 {
        return Err(usage(owned("no subcommand given")));
    }
    let sub = args[0].as_str();
    assert(sub@ == av[0]);
    if str_eq(sub, "help") || str_eq(sub, "--help") || str_eq(sub, "-h") {
        Ok(Command::Help)
    } else if str_eq(sub, "version") || str_eq(sub, "--version") || str_eq(sub, "-V") {
        Ok(Command::Version)
    } else if str_eq(sub, "check") {
        parse_check(&args)
    } else if str_eq(sub, "fmt") {
        parse_fmt(&args)
    } else if str_eq(sub, "build") {
        parse_build(&args)
    } else if str_eq(sub, "test") {
        parse_test(&args)
    } else if str_eq(sub, "mcp") {
        parse_mcp(&args)
    } else {
        Err(usage(cat3("unknown subcommand '", sub, "'")))
    }
}

fn parse_check(args: &Vec<String>) -> (r: Result<Command, UsageError>)
    requires
        args@.len() >= 1,
    ensures
        result_view(r) == check_spec(args_view(args@), 1, None, false),
{
    let ghost av = args_view(args@);
    let mut file: Option<String> = None;
    let mut json = false;
    let mut i: usize = 1;
    while i < args.len()
        invariant
            1 <= i <= args@.len(),
            av == args_view(args@),
            check_spec(av, i as int, match file { Some(f) => Some(f@), None => None }, json)
                == check_spec(av, 1, None, false),
        decreases args@.len() - i,
    {
        let arg = args[i].as_str();
        assert(arg@ == av[i as int]);
        if str_eq(arg, "--json") {
            if json {
                return Err(usage(owned("--json given more than once")));
            }
            json = true;
        } else if is_help_exec(arg) {
            return Ok(Command::Help);
        } else if is_option(arg) {
            return Err(usage(cat3("unknown option '", arg, "' for 'check'")));
        } else {
            if file.is_some() {
                return Err(usage(owned("check takes exactly one <file>")));
            }
            file = Some(owned(arg));
        }
        i = i + 1;
    }
    match file {
        Some(f) => Ok(Command::Check { file: f, json }),
        None => Err(usage(owned("check requires a <file> argument"))),
    }
}

fn set_mode(slot: &mut Option<FmtMode>, mode: FmtMode) -> (r: Result<(), UsageError>)
    ensures
        (*old(slot) is Some && (*old(slot))->0 != mode) ==> (match r {
            Err(e) => e.0@ == "fmt: --check and --write cannot be combined"@,
            Ok(_) => false,
        }),
        !(*old(slot) is Some && (*old(slot))->0 != mode) ==> r is Ok && *final(slot) == Some(mode),
{
    match slot {
        Some(existing) => {
            if *existing != mode {
                return Err(usage(owned("fmt: --check and --write cannot be combined")));
            }
        },
        None => {},
    }
    *slot = Some(mode);
    Ok(())
}

fn parse_fmt(args: &Vec<String>) -> (r: Result<Command, UsageError>)
    requires
        args@.len() >= 1,
    ensures
        result_view(r) == fmt_spec(args_view(args@), 1, None, None),
{
    let ghost av = args_view(args@);
    let mut file: Option<String> = None;
    let mut mode: Option<FmtMode> = None;
    let mut i: usize = 1;
    while i < args.len()
        invariant
            1 <= i <= args@.len(),
            av == args_view(args@),
            fmt_spec(av, i as int, match file { Some(f) => Some(f@), None => None }, mode)
                == fmt_spec(av, 1, None, None),
        decreases args@.len() - i,
    {
        let arg = args[i].as_str();
        assert(arg@ == av[i as int]);
        if str_eq(arg, "--check") {
            match set_mode(&mut mode, FmtMode::Check) {
                Ok(()) => {},
                Err(e) => { return Err(e); },
            }
        } else if str_eq(arg, "--write") {
            proof { reveal_strlit("--check"); reveal_strlit("--write"); }
            match set_mode(&mut mode, FmtMode::Write) {
                Ok(()) => {},
                Err(e) => { return Err(e); },
            }
        } else if is_help_exec(arg) {
            return Ok(Command::Help);
        } else if is_option(arg) {
            return Err(usage(cat3("unknown option '", arg, "' for 'fmt'")));
        } else {
            if file.is_some() {
                return Err(usage(owned("fmt takes exactly one <file>")));
            }
            file = Some(owned(arg));
        }
        i = i + 1;
    }
    match file {
        Some(f) => Ok(Command::Fmt { file: f, mode: match mode { Some(m) => m, None => FmtMode::Stdout } }),
        None => Err(usage(owned("fmt requires a <file> argument"))),
    }
}

fn parse_build(args: &Vec<String>) -> (r: Result<Command, UsageError>)
    requires
        args@.len() >= 1,
    ensures
        result_view(r) == build_spec(args_view(args@), 1, None, None, true),
{
    let ghost av = args_view(args@);
    let mut dir: Option<String> = None;
    let mut out_dir: Option<String> = None;
    let mut source_map = true;
    let mut i: usize = 1;
    while i < args.len()
        invariant
            1 <= i <= args@.len(),
            av == args_view(args@),
            build_spec(av, i as int, match dir { Some(d) => Some(d@), None => None },
                match out_dir { Some(d) => Some(d@), None => None }, source_map)
                == build_spec(av, 1, None, None, true),
        decreases args@.len() - i,
    {
        let arg = args[i].as_str();
        assert(arg@ == av[i as int]);
        if str_eq(arg, "--out-dir") {
            if out_dir.is_some() {
                return Err(usage(owned("--out-dir given more than once")));
            }
            if i + 1 >= args.len() {
                return Err(usage(owned("--out-dir requires a <dir> value")));
            }
            assert(args[i + 1]@ == av[i + 1]);
            out_dir = Some(args[i + 1].clone());
            i = i + 2;
        } else {
            if str_eq(arg, "--no-source-map") {
                source_map = false;
            } else if is_help_exec(arg) {
                return Ok(Command::Help);
            } else if is_option(arg) {
                return Err(usage(cat3("unknown option '", arg, "' for 'build'")));
            } else {
                if dir.is_some() {
                    return Err(usage(owned("build takes exactly one <dir>")));
                }
                dir = Some(owned(arg));
            }
            i = i + 1;
        }
    }
    match dir {
        Some(d) => Ok(Command::Build { dir: d, out_dir, source_map }),
        None => Err(usage(owned("build requires a <dir> argument"))),
    }
}

fn parse_test(args: &Vec<String>) -> (r: Result<Command, UsageError>)
    requires
        args@.len() >= 1,
    ensures
        result_view(r) == test_spec(args_view(args@), 1, None),
{
    let ghost av = args_view(args@);
    let mut dir: Option<String> = None;
    let mut i: usize = 1;
    while i < args.len()
        invariant
            1 <= i <= args@.len(),
            av == args_view(args@),
            test_spec(av, i as int, match dir { Some(d) => Some(d@), None => None }) == test_spec(av, 1, None),
        decreases args@.len() - i,
    {
        let arg = args[i].as_str();
        assert(arg@ == av[i as int]);
        if is_help_exec(arg) {
            return Ok(Command::Help);
        } else if is_option(arg) {
            return Err(usage(cat3("unknown option '", arg, "' for 'test'")));
        } else {
            if dir.is_some() {
                return Err(usage(owned("test takes at most one <dir>")));
            }
            dir = Some(owned(arg));
        }
        i = i + 1;
    }
    Ok(Command::Test { dir: match dir { Some(d) => d, None => owned(".") } })
}

fn parse_mcp(args: &Vec<String>) -> (r: Result<Command, UsageError>)
    requires
        args@.len() >= 1,
    ensures
        result_view(r) == mcp_spec(args_view(args@)),
{
    if args.len() <= 1 {
        return Ok(Command::Mcp);
    }
    let arg = args[1].as_str();
    if is_help_exec(arg) {
        Ok(Command::Help)
    } else {
        Err(usage(cat3("mcp takes no arguments (got '", arg, "')")))
    }
}

} // verus!

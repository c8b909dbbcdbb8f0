//! The command line: which command the arguments ask for, with its options,
//! and the report of a test run.
use vstd::prelude::*;

use crate::diagnostics::{failure_of, Diagnostic, Phase, SourceSpan};
use crate::runtime::{mode_text, ExecutionMode, TestResult};
use crate::text::{concat, concat3, str_eq, usize_text};

verus! {

/// The options of a command on one source file.
pub struct FileCommandOptions {
    pub source_path: String,
    pub mode: Option<ExecutionMode>,
    pub emit_metadata_path: Option<String>,
}

/// What the command line asks for.
pub enum CliCommand {
    /// Print the usage text.
    Usage,
    /// Parse a file and print its syntax tree.
    Parse(FileCommandOptions),
    /// Check and lower a file.
    Check(FileCommandOptions),
    /// Run `main` of a file in the given mode.
    Run(FileCommandOptions, ExecutionMode),
    /// Run the tests of a file in the given mode.
    Test(FileCommandOptions, ExecutionMode),
    /// Generate Rust source for a file.
    Compile(FileCommandOptions),
    /// Start the interactive session in the given mode.
    Repl(ExecutionMode),
}

/// A command-line failure: one diagnostic of the command-line phase.
pub open spec fn cli_failure(ds: Seq<Diagnostic>) -> bool {
    ds.len() == 1 && failure_of(ds, Phase::Cli)
}

/// A command-line error with `message`, reported at `<cli>:1:1`.
fn cli_error(message: String) -> (r: Vec<Diagnostic>)
    ensures
        cli_failure(r@),
        r@[0].message == message,
        r@[0].span.path@ == "<cli>"@,
{
    let ds = crate::diagnostics::one(Diagnostic::new(SourceSpan::new("<cli>", 1, 1), Phase::Cli, message));
    proof {
        assert(crate::diagnostics::all_in_phase(ds@, Phase::Cli));
    }
    ds
}

/// The execution mode named `value`; any other name is an error that lists
/// the four modes.
fn parse_mode(value: &str) -> (r: Result<ExecutionMode, Vec<Diagnostic>>)
    ensures
        r matches Ok(m) ==> mode_text(m) == value@,
        r matches Err(ds) ==> cli_failure(ds@) && forall|m: ExecutionMode| mode_text(m) != value@,
        r matches Err(ds) ==> ds@[0].message@ == mode_error_message(value@),
{
    match ExecutionMode::parse_cli(value) {
        Some(m) => Ok(m),
        None => {
            let mut message = concat3("unknown execution mode `", value, "`");
            message.append("; expected one of: release, checked, debug, tooling");
            Err(cli_error(message))
        },
    }
}

/// Whether the text starts with `-`.
fn is_option(value: &str) -> (r: bool)
    ensures
        r == (value@.len() > 0 && value@[0] == '-'),
{
    value.unicode_len() > 0 && value.get_char(0) == '-'
}

/// The message for a mode name that names no mode.
pub open spec fn mode_error_message(value: Seq<char>) -> Seq<char> {
    "unknown execution mode `"@ + value + "`"@ + "; expected one of: release, checked, debug, tooling"@
}

/// The view of an optional text.
pub open spec fn opt_text(x: Option<String>) -> Option<Seq<char>> {
    match x {
        Some(s) => Some(s@),
        None => None,
    }
}

/// What reading the options from `args[i..]` gives, when the source path,
/// mode and metadata path read so far are `source`, `mode` and `meta`: the
/// three of them at the end, or the message of the first error.
pub open spec fn options_from(
    args: Seq<String>,
    i: int,
    command: Seq<char>,
    allow_mode: bool,
    source: Option<Seq<char>>,
    mode: Option<ExecutionMode>,
    meta: Option<Seq<char>>,
) -> Result<(Seq<char>, Option<ExecutionMode>, Option<Seq<char>>), Seq<char>>
    decreases args.len() - i,
{
    if i < 0 || i >= args.len() {
        match source {
            Some(p) => Ok((p, mode, meta)),
            None => Err("usage: vulgata "@ + command + " [options] <source-file>"@),
        }
    } else if args[i]@ == "--mode"@ {
        if !allow_mode {
            Err("`"@ + command + "` does not support `--mode`"@)
        } else if i + 1 >= args.len() {
            Err("missing value after `--mode`"@)
        } else if exists|m: ExecutionMode| mode_text(m) == args[i + 1]@ {
            let m = choose|m: ExecutionMode| mode_text(m) == args[i + 1]@;
            options_from(args, i + 2, command, allow_mode, source, Some(m), meta)
        } else {
            Err(mode_error_message(args[i + 1]@))
        }
    } else if args[i]@ == "--emit-metadata"@ {
        if i + 1 >= args.len() {
            Err("missing output path after `--emit-metadata`"@)
        } else {
            options_from(args, i + 2, command, allow_mode, source, mode, Some(args[i + 1]@))
        }
    } else if args[i]@.len() > 0 && args[i]@[0] == '-' {
        Err("unknown option `"@ + args[i]@ + "`"@)
    } else if source is Some {
        Err("unexpected extra positional argument `"@ + args[i]@ + "`"@)
    } else {
        options_from(args, i + 1, command, allow_mode, Some(args[i]@), mode, meta)
    }
}

/// The options as plain values.
pub open spec fn options_view(o: FileCommandOptions) -> (Seq<char>, Option<ExecutionMode>, Option<Seq<char>>) {
    (o.source_path@, o.mode, opt_text(o.emit_metadata_path))
}

/// Reads the options of `command` from `args[2..]`: `--mode <name>` where
/// the command takes a mode, `--emit-metadata <path>`, and exactly one
/// source file. A later `--mode` or `--emit-metadata` overrides an earlier
/// one.
pub fn parse_file_command_options(args: &Vec<String>, command: &str, allow_mode: bool) -> (r: Result<FileCommandOptions, Vec<Diagnostic>>)
    ensures
        r matches Err(ds) ==> cli_failure(ds@),
        r matches Ok(o) ==> (o.mode is Some ==> allow_mode),
        match options_from(args@, 2, command@, allow_mode, None, None, None) {
            Ok(v) => r matches Ok(o) && options_view(o) == v,
            Err(message) => r matches Err(ds) && ds@[0].message@ == message,
        },
{
    let mut source_path: Option<String> = None;
    let mut mode: Option<ExecutionMode> = None;
    let mut emit_metadata_path: Option<String> = None;
    let mut index: usize = 2;
    while index < args.len()
        invariant
            2 <= index,
            mode is Some ==> allow_mode,
            options_from(args@, 2, command@, allow_mode, None, None, None)
                == options_from(args@, index as int, command@, allow_mode, opt_text(source_path), mode, opt_text(emit_metadata_path)),
        decreases args@.len() - index,
    {
        let arg = args[index].as_str();
        if str_eq(arg, "--mode") {
            if !allow_mode {
                return Err(cli_error(concat3("`", command, "` does not support `--mode`")));
            }
            if index + 1 >= args.len() {
                return Err(cli_error(String::from_str("missing value after `--mode`")));
            }
            let parsed = parse_mode(args[index + 1].as_str());
            proof {
                if let Ok(m) = parsed {
                    let c = choose|x: ExecutionMode| mode_text(x) == args@[index + 1]@;
                    crate::runtime::mode_names_differ(m, c);
                }
            }
            mode = Some(parsed?);
            index = index + 2;
        } else if str_eq(arg, "--emit-metadata") {
            if index + 1 >= args.len() {
                return Err(cli_error(String::from_str("missing output path after `--emit-metadata`")));
            }
            emit_metadata_path = Some(args[index + 1].clone());
            index = index + 2;
        } else if is_option(arg) {
            return Err(cli_error(concat3("unknown option `", arg, "`")));
        } else {
            if source_path.is_some() {
                return Err(cli_error(concat3("unexpected extra positional argument `", arg, "`")));
            }
            source_path = Some(args[index].clone());
            index = index + 1;
        }
    }
    match source_path {
        Some(p) => Ok(FileCommandOptions { source_path: p, mode, emit_metadata_path }),
        None => Err(cli_error(concat3("usage: vulgata ", command, " [options] <source-file>"))),
    }
}

/// What the `repl` options from `index` on give, starting from `mode`:
/// `Some` of the mode named last when every option is `--mode` followed by
/// the name of a mode, `None` when one is not.
pub open spec fn repl_mode_from(args: Seq<String>, index: int, mode: Option<ExecutionMode>) -> Option<Option<ExecutionMode>>
    decreases args.len() - index,
{
    if index >= args.len() {
        Some(mode)
    } else if args[index]@ == "--mode"@ && index + 1 < args.len() && exists|m: ExecutionMode|
        mode_text(m) == args[index + 1]@ {
        repl_mode_from(args, index + 2, Some(choose|m: ExecutionMode| mode_text(m) == args[index + 1]@))
    } else {
        None
    }
}

/// Different modes have different names.
proof fn lemma_mode_text_injective(a: ExecutionMode, b: ExecutionMode)
    requires
        mode_text(a) == mode_text(b),
    ensures
        a == b,
{
    reveal_strlit("release");
    reveal_strlit("checked");
    reveal_strlit("debug");
    reveal_strlit("tooling");
    assert(mode_text(ExecutionMode::Release)[0] == 'r');
    assert(mode_text(ExecutionMode::Checked)[0] == 'c');
    assert(mode_text(ExecutionMode::Debug)[0] == 'd');
    assert(mode_text(ExecutionMode::Tooling)[0] == 't');
    assert(mode_text(a)[0] == mode_text(b)[0]);
}

/// Reads the options of `repl` from `args[2..]`: only `--mode <name>`,
/// any number of times, the last one counting.
pub fn parse_repl_mode(args: &Vec<String>) -> (r: Result<Option<ExecutionMode>, Vec<Diagnostic>>)
    ensures
        r matches Err(ds) ==> cli_failure(ds@),
        match repl_mode_from(args@, 2, None) {
            Some(m) => r == Ok::<Option<ExecutionMode>, Vec<Diagnostic>>(m),
            None => r is Err,
        },
{
    let mut mode: Option<ExecutionMode> = None;
    let mut index: usize = 2;
    while index < args.len()
        invariant
            2 <= index,
            repl_mode_from(args@, index as int, mode) == repl_mode_from(args@, 2, None),
        decreases args@.len() - index,
    {
        let arg = args[index].as_str();
        if str_eq(arg, "--mode") {
            if index + 1 >= args.len() {
                return Err(cli_error(String::from_str("missing value after `--mode`")));
            }
            match parse_mode(args[index + 1].as_str()) {
                Ok(m) => {
                    proof {
                        let v = args@[index + 1]@;
                        assert(mode_text(m) == v);
                        let c = choose|x: ExecutionMode| mode_text(x) == v;
                        lemma_mode_text_injective(c, m);
                    }
                    mode = Some(m);
                },
                Err(ds) => {
                    return Err(ds);
                },
            }
            index = index + 2;
        } else {
            return Err(cli_error(concat3("unknown repl argument `", arg, "`")));
        }
    }
    Ok(mode)
}

/// The mode given, or `default` without one.
fn mode_or(mode: Option<ExecutionMode>, default: ExecutionMode) -> (r: ExecutionMode)
    ensures
        mode matches Some(m) ==> r == m,
        mode is None ==> r == default,
{
    match mode {
        Some(m) => m,
        None => default,
    }
}

/// The subcommands, by name.
#[derive(PartialEq, Eq, Structural)]
pub enum Subcommand {
    Parse,
    Check,
    Run,
    Test,
    Compile,
    Repl,
    Help,
    Unknown,
}

/// Which subcommand the word `w` names; `help`, `--help` and `-h` all ask
/// for help.
pub open spec fn subcommand_named(w: Seq<char>) -> Subcommand {
    if w == "parse"@ {
        Subcommand::Parse
    } else if w == "check"@ {
        Subcommand::Check
    } else if w == "run"@ {
        Subcommand::Run
    } else if w == "test"@ {
        Subcommand::Test
    } else if w == "compile"@ {
        Subcommand::Compile
    } else if w == "repl"@ {
        Subcommand::Repl
    } else if w == "help"@ || w == "--help"@ || w == "-h"@ {
        Subcommand::Help
    } else {
        Subcommand::Unknown
    }
}

fn classify_subcommand(w: &str) -> (r: Subcommand)
    ensures
        r == subcommand_named(w@),
{
    if str_eq(w, "parse") {
        Subcommand::Parse
    } else if str_eq(w, "check") {
        Subcommand::Check
    } else if str_eq(w, "run") {
        Subcommand::Run
    } else if str_eq(w, "test") {
        Subcommand::Test
    } else if str_eq(w, "compile") {
        Subcommand::Compile
    } else if str_eq(w, "repl") {
        Subcommand::Repl
    } else if str_eq(w, "help") || str_eq(w, "--help") || str_eq(w, "-h") {
        Subcommand::Help
    } else {
        Subcommand::Unknown
    }
}

/// The subcommand of a command line with at least two words.
pub open spec fn subcommand_of(args: Seq<String>) -> Subcommand {
    subcommand_named(args[1]@)
}

/// Decides what the command line asks for. Without a subcommand, or with
/// `help`, it is the usage text. `run` defaults to `release` mode, `test` to
/// `checked` and `repl` to `tooling`. An unknown subcommand is an error.
pub fn plan_command(args: &Vec<String>) -> (r: Result<CliCommand, Vec<Diagnostic>>)
    ensures
        r matches Err(ds) ==> cli_failure(ds@),
        args@.len() < 2 ==> r matches Ok(CliCommand::Usage),
        args@.len() >= 2 && subcommand_of(args@) == Subcommand::Help ==> r matches Ok(CliCommand::Usage),
        args@.len() >= 2 && subcommand_of(args@) == Subcommand::Run ==> (r matches Ok(c) ==> (c matches CliCommand::Run(o, m)
            && (o.mode matches Some(x) ==> m == x) && (o.mode is None ==> m == ExecutionMode::Release))),
        args@.len() >= 2 && subcommand_of(args@) == Subcommand::Test ==> (r matches Ok(c) ==> (c matches CliCommand::Test(o, m)
            && (o.mode matches Some(x) ==> m == x) && (o.mode is None ==> m == ExecutionMode::Checked))),
        args@.len() >= 2 && subcommand_of(args@) == Subcommand::Parse ==> (r matches Ok(c) ==> (c matches CliCommand::Parse(o) && o.mode is None)),
        args@.len() >= 2 && subcommand_of(args@) == Subcommand::Check ==> (r matches Ok(c) ==> (c matches CliCommand::Check(o) && o.mode is None)),
        args@.len() >= 2 && subcommand_of(args@) == Subcommand::Compile ==> (r matches Ok(c) ==> (c matches CliCommand::Compile(o) && o.mode is None)),
        args@.len() == 2 && subcommand_of(args@) == Subcommand::Repl ==> r matches Ok(CliCommand::Repl(ExecutionMode::Tooling)),
        args@.len() >= 2 && subcommand_of(args@) == Subcommand::Unknown ==> (r matches Err(ds)
            && ds@[0].message@ == "unknown subcommand `"@ + args@[1]@ + "`"@),
{
    if args.len() < 2 {
        return Ok(CliCommand::Usage);
    }
    let word = args[1].as_str();
    match classify_subcommand(word) {
        Subcommand::Parse => Ok(CliCommand::Parse(parse_file_command_options(args, "parse", false)?)),
        Subcommand::Check => Ok(CliCommand::Check(parse_file_command_options(args, "check", false)?)),
        Subcommand::Run => {
            let options = parse_file_command_options(args, "run", true)?;
            let mode = mode_or(options.mode, ExecutionMode::Release);
            Ok(CliCommand::Run(options, mode))
        },
        Subcommand::Test => {
            let options = parse_file_command_options(args, "test", true)?;
            let mode = mode_or(options.mode, ExecutionMode::Checked);
            Ok(CliCommand::Test(options, mode))
        },
        Subcommand::Compile => Ok(CliCommand::Compile(parse_file_command_options(args, "compile", false)?)),
        Subcommand::Repl => {
            let mode = parse_repl_mode(args)?;
            Ok(CliCommand::Repl(mode_or(mode, ExecutionMode::Tooling)))
        },
        Subcommand::Help => Ok(CliCommand::Usage),
        Subcommand::Unknown => Err(cli_error(concat3("unknown subcommand `", word, "`"))),
    }
}

/// The usage text, line by line.
pub fn usage_lines() -> (r: Vec<String>)
    ensures
        r@.len() == 5,
{
    let mut lines: Vec<String> = Vec::new();
    lines.push(String::from_str("Usage: vulgata <parse|check|run|test|compile> [options] <source-file>"));
    lines.push(String::from_str("       vulgata repl [--mode <release|checked|debug|tooling>]"));
    lines.push(String::from_str("Options:"));
    lines.push(String::from_str("  --mode <release|checked|debug|tooling>  Select execution mode for run/test/repl"));
    lines.push(String::from_str("  --emit-metadata <path>                   Write semantic-layer metadata JSON"));
    lines
}

/// The number of failed tests.
pub open spec fn failed_count(results: Seq<TestResult>) -> nat
    decreases results.len(),
{
    if results.len() == 0 {
        0
    } else {
        failed_count(results.drop_last()) + if results.last().passed { 0nat } else { 1nat }
    }
}

/// The report of a test run: `PASS name` for each passing test; `FAIL name`
/// for each failing one, followed by one indented line per failed
/// expectation. The outcome is an error, of the runtime phase at the source
/// file, that counts the failed tests, when there is one.
pub fn test_report(results: &Vec<TestResult>, source_path: &str) -> (r: (Vec<String>, Result<(), Vec<Diagnostic>>))
    ensures
        r.1 is Ok <==> failed_count(results@) == 0,
        r.1 matches Err(ds) ==> ds@.len() == 1 && ds@[0].phase == Phase::Runtime
            && ds@[0].message@ == crate::text::nat_text(failed_count(results@)) + " test(s) failed"@,
        r.0@.len() >= results@.len(),
{
    let mut lines: Vec<String> = Vec::new();
    let mut failed: usize = 0;
    let mut i: usize = 0;
    while i < results.len()
        invariant
            i <= results@.len(),
            failed == failed_count(results@.subrange(0, i as int)),
            failed <= i,
            lines@.len() >= i,
        decreases results@.len() - i,
    {
        proof {
            assert(results@.subrange(0, i + 1).drop_last() =~= results@.subrange(0, i as int));
        }
        let result = &results[i];
        if result.passed {
            lines.push(concat("PASS ", result.name.as_str()));
        } else {
            failed = failed + 1;
            lines.push(concat("FAIL ", result.name.as_str()));
            let mut k: usize = 0;
            while k < result.failures.len()
                invariant
                    k <= result.failures@.len(),
                    lines@.len() >= i + 1,
                decreases result.failures@.len() - k,
            {
                let failure = &result.failures[k];
                let mut line = concat("  ", failure.span.render().as_str());
                line.append(" ");
                line.append(failure.message.as_str());
                lines.push(line);
                k = k + 1;
            }
        }
        i = i + 1;
    }
    proof {
        assert(results@.subrange(0, results@.len() as int) =~= results@);
    }
    if failed == 0 {
        (lines, Ok(()))
    } else {
        let message = concat(usize_text(failed).as_str(), " test(s) failed");
        let d = Diagnostic::new(SourceSpan::for_path(source_path, 1, 1), Phase::Runtime, message);
        (lines, Err(crate::diagnostics::one(d)))
    }
}

} // verus!

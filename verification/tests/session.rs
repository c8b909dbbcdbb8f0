use vulgata::cli::{parse_file_command_options, plan_command, test_report, usage_lines, CliCommand};
use vulgata::diagnostics::{Phase, SourceSpan};
use vulgata::emit_metadata_source;
use vulgata::metadata::JsonValue;
use vulgata::repl::{ReplCommand, ReplDriver, ReplSession};
use vulgata::runtime::{ExecutionMode, TestFailure, TestResult};

fn args(words: &[&str]) -> Vec<String> {
    words.iter().map(|w| w.to_string()).collect()
}

fn lines_of(command: ReplCommand) -> Vec<String> {
    match command {
        ReplCommand::Continue(lines) => lines,
        ReplCommand::Quit(lines) => lines,
    }
}

#[test]
fn new_session_is_empty_and_shows_so() {
    let mut session = ReplSession::new();
    assert_eq!(session.source(), "");
    assert_eq!(session.path(), "<repl>/session.vg");
    assert_eq!(lines_of(session.handle_command(":show").expect("show")), vec!["(empty session)".to_string()]);
}

#[test]
fn session_blocks_are_joined_by_an_empty_line() {
    let mut session = ReplSession::new();
    session.submit_block("action one() -> Int:\n  return 1\n\n").expect("first");
    session.submit_block("action two() -> Int:\n  return 2   ").expect("second");
    assert_eq!(session.source(), "action one() -> Int:\n  return 1\n\naction two() -> Int:\n  return 2");
}

#[test]
fn reset_empties_the_session() {
    let mut session = ReplSession::new();
    session.submit_block("action one() -> Int:\n  return 1").expect("submit");
    assert_eq!(lines_of(session.handle_command("  :reset ").expect("reset")), vec!["session reset".to_string()]);
    assert_eq!(session.source(), "");
}

#[test]
fn unknown_repl_command_is_a_cli_error() {
    let mut session = ReplSession::new();
    let diagnostics = session.handle_command(":frobnicate").expect_err("unknown");
    assert_eq!(diagnostics[0].phase, Phase::Cli);
    assert_eq!(diagnostics[0].message, "unknown repl command `:frobnicate`");
}

#[test]
fn help_and_quit_commands() {
    let mut session = ReplSession::new();
    let help = lines_of(session.handle_command(":help").expect("help"));
    assert!(help[0].starts_with("Commands: :help :show"));
    assert!(matches!(session.handle_command(":quit").expect("quit"), ReplCommand::Quit(lines) if lines.is_empty()));
}

#[test]
fn check_command_reports_the_lowered_module() {
    let mut session = ReplSession::new();
    session.submit_block("module demo\n\naction main() -> Int:\n  return 1").expect("submit");
    let lines = lines_of(session.handle_command(":check").expect("check"));
    assert_eq!(lines, vec!["check succeeded: module Some(\"demo\") lowered 1 declarations".to_string()]);
}

#[test]
fn driver_prompts_inside_a_block_and_submits_on_empty_line() {
    let mut driver = ReplDriver::new();
    let mut out = String::new();
    assert_eq!(driver.prompt(), "> ");
    assert!(driver.feed("action main() -> Int:\n", &mut out).expect("line"));
    assert_eq!(driver.prompt(), "| ");
    assert!(driver.feed("  return 3\n", &mut out).expect("line"));
    assert_eq!(out, "");
    assert!(driver.feed("\n", &mut out).expect("submit"));
    assert_eq!(out, "ok: block added\n");
    assert_eq!(driver.prompt(), "> ");
    assert!(!driver.feed(":quit\n", &mut out).expect("quit"));
}

#[test]
fn plan_without_arguments_prints_usage() {
    assert!(matches!(plan_command(&args(&["vulgata"])).expect("plan"), CliCommand::Usage));
    assert!(matches!(plan_command(&args(&["vulgata", "--help"])).expect("plan"), CliCommand::Usage));
    assert_eq!(usage_lines().len(), 5);
}

#[test]
fn plan_defaults_modes_per_command() {
    match plan_command(&args(&["vulgata", "run", "a.vg"])).expect("plan") {
        CliCommand::Run(options, mode) => {
            assert_eq!(options.source_path, "a.vg");
            assert_eq!(mode, ExecutionMode::Release);
        }
        _ => panic!("expected run"),
    }
    match plan_command(&args(&["vulgata", "test", "--mode", "debug", "a.vg"])).expect("plan") {
        CliCommand::Test(_, mode) => assert_eq!(mode, ExecutionMode::Debug),
        _ => panic!("expected test"),
    }
    match plan_command(&args(&["vulgata", "repl"])).expect("plan") {
        CliCommand::Repl(mode) => assert_eq!(mode, ExecutionMode::Tooling),
        _ => panic!("expected repl"),
    }
}

#[test]
fn plan_reports_command_line_errors() {
    let unknown = plan_command(&args(&["vulgata", "frobnicate"])).err().expect("unknown");
    assert_eq!(unknown[0].message, "unknown subcommand `frobnicate`");
    let no_mode = plan_command(&args(&["vulgata", "parse", "--mode", "checked", "a.vg"])).err().expect("mode");
    assert_eq!(no_mode[0].message, "`parse` does not support `--mode`");
    let missing = plan_command(&args(&["vulgata", "run", "--mode"])).err().expect("missing");
    assert_eq!(missing[0].message, "missing value after `--mode`");
    let bad_mode = plan_command(&args(&["vulgata", "run", "--mode", "fast", "a.vg"])).err().expect("bad");
    assert!(bad_mode[0].message.starts_with("unknown execution mode `fast`"));
    let extra = parse_file_command_options(&args(&["vulgata", "check", "a.vg", "b.vg"]), "check", false).err().expect("extra");
    assert_eq!(extra[0].message, "unexpected extra positional argument `b.vg`");
    let none = parse_file_command_options(&args(&["vulgata", "check"]), "check", false).err().expect("none");
    assert_eq!(none[0].message, "usage: vulgata check [options] <source-file>");
    assert_eq!(none[0].phase, Phase::Cli);
}

#[test]
fn test_report_counts_failures() {
    let results = vec![
        TestResult { name: "a".to_string(), passed: true, failures: Vec::new() },
        TestResult {
            name: "b".to_string(),
            passed: false,
            failures: vec![TestFailure { span: SourceSpan::new("m.vg", 3, 2), message: "boom".to_string() }],
        },
    ];
    let (lines, outcome) = test_report(&results, "m.vg");
    assert_eq!(lines, vec!["PASS a".to_string(), "FAIL b".to_string(), "  m.vg:3:2 boom".to_string()]);
    let diagnostics = outcome.expect_err("one failed");
    assert_eq!(diagnostics[0].message, "1 test(s) failed");
    assert_eq!(diagnostics[0].phase, Phase::Runtime);
}

fn entry<'a>(value: &'a JsonValue, key: &str) -> Option<&'a JsonValue> {
    match value {
        JsonValue::Object(entries) => entries.iter().find(|(k, _)| k == key).map(|(_, v)| v),
        _ => None,
    }
}

#[test]
fn metadata_lists_actions_and_documented_records() {
    let source = "module sample.layers\n\nrecord Customer:\n  email: Text\n    meaning: \"primary address\"\n\naction main(value: Int) -> Int:\n  intent:\n    goal: \"return the value\"\n  requires value > 0\n  step compute:\n    return value\n  ensures result > 0\n";
    let value = emit_metadata_source("test.vg", source).expect("metadata");
    assert_eq!(entry(&value, "module"), Some(&JsonValue::Text("sample.layers".to_string())));
    let actions = match entry(&value, "actions") {
        Some(JsonValue::Array(items)) => items,
        _ => panic!("actions"),
    };
    assert_eq!(actions.len(), 1);
    assert_eq!(entry(&actions[0], "name"), Some(&JsonValue::Text("main".to_string())));
    let contracts = entry(&actions[0], "contracts").expect("contracts");
    assert_eq!(entry(contracts, "requires"), Some(&JsonValue::Array(vec![JsonValue::Text("value > 0".to_string())])));
    assert!(entry(&actions[0], "steps").is_some());
    assert!(entry(&actions[0], "intent").is_some());
    assert!(entry(&value, "records").is_some());
}

#[test]
fn metadata_of_a_plain_action_has_only_its_name() {
    let value = emit_metadata_source("test.vg", "action main() -> Int:\n  return 1\n").expect("metadata");
    match entry(&value, "actions") {
        Some(JsonValue::Array(items)) => match &items[0] {
            JsonValue::Object(entries) => assert_eq!(entries.len(), 1),
            _ => panic!("object"),
        },
        _ => panic!("actions"),
    }
    assert!(entry(&value, "records").is_none());
}

#[test]
fn metadata_is_the_same_on_every_run() {
    let source = "action main(value: Int) -> Int:\n  requires value > 0\n  return value\n";
    let first = emit_metadata_source("test.vg", source).expect("first");
    let second = emit_metadata_source("test.vg", source).expect("second");
    assert_eq!(first, second);
}

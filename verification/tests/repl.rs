use vulgata::repl::{run_repl, ReplCommand, ReplSession};

#[test]
fn accepts_valid_block_and_shows_source() {
    let mut session = ReplSession::new();
    session
        .submit_block("action main() -> Int:\n  return 1")
        .expect("submit");
    match session.handle_command(":show").expect("show") {
        ReplCommand::Continue(lines) => {
            assert!(lines[0].contains("action main() -> Int:"));
        }
        ReplCommand::Quit(_) => panic!("unexpected quit"),
    }
}

#[test]
fn rejects_invalid_block_without_mutating_session() {
    let mut session = ReplSession::new();
    session
        .submit_block("action main() -> Int:\n  return 1")
        .expect("submit");
    let before = session.source().to_string();
    let err = session
        .submit_block("action broken( -> None:\n  return")
        .expect_err("submit should fail");
    assert!(!err.is_empty());
    assert_eq!(session.source(), before);
}

#[test]
fn runs_main_and_tests_from_session_source() {
    let mut session = ReplSession::new();
    session
        .submit_block(
            "action main() -> Int:\n  return 42\n\ntest smoke:\n  expect main() == 42",
        )
        .expect("submit");

    match session.handle_command(":run").expect("run") {
        ReplCommand::Continue(lines) => assert_eq!(lines, vec!["Int(42)"]),
        ReplCommand::Quit(_) => panic!("unexpected quit"),
    }

    match session.handle_command(":test").expect("test") {
        ReplCommand::Continue(lines) => assert_eq!(lines, vec!["PASS smoke"]),
        ReplCommand::Quit(_) => panic!("unexpected quit"),
    }
}

#[test]
fn rejects_extern_backed_execution_in_repl() {
    let mut session = ReplSession::new();
    session
        .submit_block("extern action add(a: Int, b: Int) -> Int\n")
        .expect("submit");
    let diagnostics = session.handle_command(":run").expect_err("run should fail");
    assert!(
        diagnostics[0]
            .message
            .contains("repl does not yet support extern-backed execution")
    );
}

#[test]
fn interactive_loop_collects_blocks_and_commands() {
    let input = "action main() -> Int:\n  return 7\n\n:run\n:quit\n";
    let mut output = String::new();
    run_repl(input, &mut output).expect("repl");
    let rendered = output;
    assert!(rendered.contains("vulgata repl"));
    assert!(rendered.contains("ok: block added"));
    assert!(rendered.contains("Int(7)"));
}

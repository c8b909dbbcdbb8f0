use vulgata::ast::{BindingPatternKind, Decl, ExprKind, PatternKind, StmtKind, Target};
use vulgata::lexer::Lexer;
use vulgata::parser::Parser;

fn parse(source: &str) -> vulgata::ast::AstModule {
    let tokens = Lexer::new("test.vg", source).tokenize().expect("tokenize");
    Parser::new("test.vg", tokens).parse_module().expect("parse")
}

#[test]
fn parses_valid_program_with_var_assign_test_and_expect() {
    let module = parse(
        r#"
module demo.core

record Customer:
  email: Text

action main(customer: Customer) -> Int:
  var current = customer
  current.email := "updated"
  return 1

test main_basic:
  expect main(Customer(email: "before")) == 1
"#,
    );

    assert_eq!(module.declarations.len(), 3);
    match &module.declarations[1] {
        Decl::Action(action) => match &action.body[0].kind {
            StmtKind::Var { pattern, .. } => match &pattern.kind {
                BindingPatternKind::Name(name) => assert_eq!(name, "current"),
                other => panic!("unexpected binding pattern: {other:?}"),
            },
            other => panic!("unexpected statement: {other:?}"),
        },
        other => panic!("unexpected declaration: {other:?}"),
    }
    match &module.declarations[1] {
        Decl::Action(action) => match &action.body[1].kind {
            StmtKind::Assign { target, .. } => match target {
                Target::Field { field, .. } => assert_eq!(field, "email"),
                other => panic!("unexpected target: {other:?}"),
            },
            other => panic!("unexpected statement: {other:?}"),
        },
        other => panic!("unexpected declaration: {other:?}"),
    }
    match &module.declarations[2] {
        Decl::Test(test_decl) => match &test_decl.body[0].kind {
            StmtKind::Expect(expr) => assert!(matches!(expr.kind, ExprKind::Binary { .. })),
            other => panic!("unexpected statement: {other:?}"),
        },
        other => panic!("unexpected declaration: {other:?}"),
    }
}

#[test]
fn reports_malformed_input() {
    let tokens = Lexer::new("bad.vg", "action main( -> None:\n  return\n")
        .tokenize()
        .expect("tokenize");
    let diagnostics = Parser::new("bad.vg", tokens)
        .parse_module()
        .expect_err("parse should fail");
    assert!(!diagnostics.is_empty());
    assert_eq!(diagnostics[0].phase, vulgata::diagnostics::Phase::Parse);
}

#[test]
fn rejects_legacy_set_syntax() {
    let tokens = Lexer::new(
        "bad.vg",
        "action main() -> Int:\n  var total = 1\n  set total = total + 1\n  return total\n",
    )
    .tokenize()
    .expect("tokenize");
    let diagnostics = Parser::new("bad.vg", tokens)
        .parse_module()
        .expect_err("parse should fail");
    assert_eq!(diagnostics[0].phase, vulgata::diagnostics::Phase::Parse);
    assert!(
        diagnostics[0]
            .message
            .contains("legacy `set target = value` syntax is not supported")
    );
}

#[test]
fn parses_semantic_layer_constructs_inside_actions() {
    let module = parse(
        r#"
record Customer:
  email: Text
    meaning: "primary address"

action main(value: Int) -> Int:
  intent:
    goal: "return the value"
    constraints:
      - "must stay positive"
    assumptions:
      - "caller provides valid input"
    properties:
      - "deterministic"
  explain:
    "first line"
    "second line"
  requires value > 0
  step compute:
    return value
  ensures result > 0
  example works:
    input:
      value = 1
    output:
      result = 1
"#,
    );

    match &module.declarations[0] {
        Decl::Record(record) => {
            assert_eq!(
                record.fields[0].meaning.as_deref(),
                Some("primary address")
            );
        }
        other => panic!("unexpected declaration: {other:?}"),
    }

    match &module.declarations[1] {
        Decl::Action(action) => {
            assert!(matches!(action.body[0].kind, StmtKind::IntentBlock { .. }));
            assert!(matches!(action.body[1].kind, StmtKind::ExplainBlock { .. }));
            assert!(matches!(action.body[2].kind, StmtKind::RequiresClause { .. }));
            assert!(matches!(action.body[3].kind, StmtKind::StepBlock { .. }));
            assert!(matches!(action.body[4].kind, StmtKind::EnsuresClause { .. }));
            assert!(matches!(action.body[5].kind, StmtKind::ExampleBlock { .. }));
        }
        other => panic!("unexpected declaration: {other:?}"),
    }
}

#[test]
fn parses_match_statements_with_variant_and_record_patterns() {
    let module = parse(
        r#"
record Customer:
  name: Text
  active: Bool

action main(result: Result[Customer, Text]) -> Text:
  match result:
    Ok(Customer(name: n, active: true)):
      return n
    Err(message):
      return message
"#,
    );

    match &module.declarations[1] {
        Decl::Action(action) => match &action.body[0].kind {
            StmtKind::Match { arms, .. } => {
                assert_eq!(arms.len(), 2);
                match &arms[0].pattern.kind {
                    PatternKind::Variant { name, args } => {
                        assert_eq!(name, "Ok");
                        assert_eq!(args.len(), 1);
                        assert!(matches!(args[0].kind, PatternKind::Record { .. }));
                    }
                    other => panic!("unexpected first arm pattern: {other:?}"),
                }
                match &arms[1].pattern.kind {
                    PatternKind::Variant { name, args } => {
                        assert_eq!(name, "Err");
                        assert_eq!(args.len(), 1);
                        assert!(matches!(args[0].kind, PatternKind::Binding(_)));
                    }
                    other => panic!("unexpected second arm pattern: {other:?}"),
                }
            }
            other => panic!("unexpected statement: {other:?}"),
        },
        other => panic!("unexpected declaration: {other:?}"),
    }
}

#[test]
fn parses_tuple_and_record_binding_destructuring() {
    let module = parse(
        r#"
record Customer:
  name: Text
  email: Text

action main(pair: (Int, Int), customer: Customer) -> Int:
  let (left, right) = pair
  var Customer(name: name, email: address) = customer
  return left
"#,
    );

    match &module.declarations[1] {
        Decl::Action(action) => {
            match &action.body[0].kind {
                StmtKind::Let { pattern, .. } => match &pattern.kind {
                    BindingPatternKind::Tuple(items) => {
                        assert_eq!(items, &vec!["left".to_string(), "right".to_string()]);
                    }
                    other => panic!("unexpected tuple binding pattern: {other:?}"),
                },
                other => panic!("unexpected statement: {other:?}"),
            }
            match &action.body[1].kind {
                StmtKind::Var { pattern, .. } => match &pattern.kind {
                    BindingPatternKind::Record { name, fields } => {
                        assert_eq!(name, "Customer");
                        assert_eq!(fields.len(), 2);
                        assert_eq!(fields[0].field, "name");
                        assert_eq!(fields[0].binding, "name");
                        assert_eq!(fields[1].field, "email");
                        assert_eq!(fields[1].binding, "address");
                    }
                    other => panic!("unexpected record binding pattern: {other:?}"),
                },
                other => panic!("unexpected statement: {other:?}"),
            }
        }
        other => panic!("unexpected declaration: {other:?}"),
    }
}

#[test]
fn rejects_unsupported_binding_destructuring_forms() {
    for source in [
        "action main(maybe: Option[Int]) -> Int:\n  let Some(value) = maybe\n  return 0\n",
        "action main(pair: (Int, (Int, Int))) -> Int:\n  let (a, (b, c)) = pair\n  return a\n",
        "action main(pair: (Int, Int)) -> Int:\n  let (_, b) = pair\n  return b\n",
        "action main(pair: (Int, Int)) -> Int:\n  let (a) = pair\n  return 0\n",
        "action main(pair: (Int, Int)) -> Int:\n  (a, b) := pair\n  return 0\n",
    ] {
        let tokens = Lexer::new("bad.vg", source)
            .tokenize()
            .expect("tokenize");
        let diagnostics = Parser::new("bad.vg", tokens)
            .parse_module()
            .expect_err("parse should fail");
        assert_eq!(diagnostics[0].phase, vulgata::diagnostics::Phase::Parse);
    }
}

#[test]
fn rejects_semantic_layer_constructs_outside_action_bodies() {
    let tokens = Lexer::new("bad.vg", "intent:\n  goal: \"bad\"\n")
        .tokenize()
        .expect("tokenize");
    let diagnostics = Parser::new("bad.vg", tokens)
        .parse_module()
        .expect_err("parse should fail");
    assert!(diagnostics[0].message.contains("only allowed inside action bodies"));
}

#[test]
fn rejects_unknown_intent_fields() {
    let tokens = Lexer::new(
        "bad.vg",
        "action main() -> None:\n  intent:\n    mystery: \"bad\"\n  return\n",
    )
    .tokenize()
    .expect("tokenize");
    let diagnostics = Parser::new("bad.vg", tokens)
        .parse_module()
        .expect_err("parse should fail");
    assert!(diagnostics[0].message.contains("unknown `intent:` field"));
}

#[test]
fn rejects_non_text_explain_lines() {
    let tokens = Lexer::new(
        "bad.vg",
        "action main() -> None:\n  explain:\n    1\n  return\n",
    )
    .tokenize()
    .expect("tokenize");
    let diagnostics = Parser::new("bad.vg", tokens)
        .parse_module()
        .expect_err("parse should fail");
    assert!(diagnostics[0].message.contains("text literal line"));
}

#[test]
fn rejects_empty_step_blocks() {
    let tokens = Lexer::new(
        "bad.vg",
        "action main() -> None:\n  step compute:\n  return\n",
    )
    .tokenize()
    .expect("tokenize");
    let diagnostics = Parser::new("bad.vg", tokens)
        .parse_module()
        .expect_err("parse should fail");
    assert!(!diagnostics.is_empty());
}

#[test]
fn rejects_example_blocks_without_required_sections() {
    let tokens = Lexer::new(
        "bad.vg",
        "action main(value: Int) -> Int:\n  example bad:\n    input:\n      value = 1\n  return value\n",
    )
    .tokenize()
    .expect("tokenize");
    let diagnostics = Parser::new("bad.vg", tokens)
        .parse_module()
        .expect_err("parse should fail");
    assert!(diagnostics[0].message.contains("requires `output:`"));
}

#[test]
fn rejects_non_literal_example_bindings() {
    let tokens = Lexer::new(
        "bad.vg",
        "action main(value: Int) -> Int:\n  example bad:\n    input:\n      value = value\n    output:\n      result = 1\n  return value\n",
    )
    .tokenize()
    .expect("tokenize");
    let diagnostics = Parser::new("bad.vg", tokens)
        .parse_module()
        .expect_err("parse should fail");
    assert!(diagnostics[0].message.contains("literal values"));
}

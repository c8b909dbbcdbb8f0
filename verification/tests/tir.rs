use vulgata::lexer::Lexer;
use vulgata::parser::Parser;
use vulgata::resolver::Resolver;
use vulgata::tir::{
    lower_module, TypedBindingPattern, TypedBindingPatternKind, TypedDecl, TypedExprKind, TypedIrModule,
    TypedPatternKind, TypedStmtKind,
};
use vulgata::types::TypeChecker;

fn lower(source: &str) -> TypedIrModule {
    let tokens = Lexer::new("test.vg", source).tokenize().expect("tokenize");
    let module = Parser::new("test.vg", tokens).parse_module().expect("parse");
    let resolution = Resolver::new(&module).resolve().expect("resolve");
    let checked = TypeChecker::new(module, resolution).check().expect("check");
    lower_module(&checked).expect("lower")
}

#[test]
fn lowers_var_assign_test_and_expect_nodes() {
    let source = r#"
record Customer:
  email: Text

action main(customer: Customer) -> Int:
  var current = customer
  current.email := "updated"
  return 1

test smoke:
  expect main(Customer(email: "before")) == 1
"#;
    let lowered = lower(source);

    match &lowered.declarations[1] {
        TypedDecl::Action(action) => {
            assert!(matches!(action.body[0].kind, TypedStmtKind::Var { .. }));
            assert!(matches!(action.body[1].kind, TypedStmtKind::Assign { .. }));
        }
        other => panic!("unexpected declaration: {other:?}"),
    }
    match &lowered.declarations[2] {
        TypedDecl::Test(test_decl) => {
            assert!(matches!(test_decl.body[0].kind, TypedStmtKind::Expect(_)));
        }
        other => panic!("unexpected declaration: {other:?}"),
    }
}

#[test]
fn lowers_semantic_layer_nodes() {
    let source = r#"
record Customer:
  email: Text
    meaning: "primary contact"

action main(value: Int) -> Int:
  intent:
    goal: "return the value"
  explain:
    "first line"
  requires value > 0
  step compute:
    return value
  ensures result > 0
"#;
    let lowered = lower(source);

    match &lowered.declarations[0] {
        TypedDecl::Record(record) => {
            assert_eq!(record.fields[0].meaning.as_deref(), Some("primary contact"));
        }
        other => panic!("unexpected declaration: {other:?}"),
    }
    match &lowered.declarations[1] {
        TypedDecl::Action(action) => {
            assert!(matches!(action.body[0].kind, TypedStmtKind::IntentBlock { .. }));
            assert!(matches!(action.body[1].kind, TypedStmtKind::ExplainBlock { .. }));
            assert!(matches!(action.body[2].kind, TypedStmtKind::RequiresClause(_)));
            assert!(matches!(action.body[3].kind, TypedStmtKind::StepBlock { .. }));
            assert!(matches!(action.body[4].kind, TypedStmtKind::EnsuresClause(_)));
        }
        other => panic!("unexpected declaration: {other:?}"),
    }
}

#[test]
fn lowers_result_and_option_member_calls_to_dedicated_nodes() {
    let source = r#"
action result_flag() -> Bool:
  let written = console.print("")
  return written.is_ok()

action option_value() -> Int:
  let maybe: Option[Int] = 10
  return maybe.value()
"#;
    let lowered = lower(source);

    match &lowered.declarations[0] {
        TypedDecl::Action(action) => match &action.body[1].kind {
            TypedStmtKind::Return(Some(expr)) => {
                assert!(matches!(expr.kind, TypedExprKind::ResultIsOk { .. }));
            }
            other => panic!("unexpected statement: {other:?}"),
        },
        other => panic!("unexpected declaration: {other:?}"),
    }

    match &lowered.declarations[1] {
        TypedDecl::Action(action) => match &action.body[1].kind {
            TypedStmtKind::Return(Some(expr)) => {
                assert!(matches!(expr.kind, TypedExprKind::OptionValue { .. }));
            }
            other => panic!("unexpected statement: {other:?}"),
        },
        other => panic!("unexpected declaration: {other:?}"),
    }
}

#[test]
fn lowers_match_statements_and_variant_patterns() {
    let source = r#"
action main(result: Result[Int, Text]) -> Int:
  match result:
    Ok(value):
      return value
    Err(_):
      return 0
"#;
    let lowered = lower(source);

    match &lowered.declarations[0] {
        TypedDecl::Action(action) => match &action.body[0].kind {
            TypedStmtKind::Match { arms, .. } => {
                assert_eq!(arms.len(), 2);
                assert!(matches!(
                    arms[0].pattern.kind,
                    TypedPatternKind::Variant { .. }
                ));
                assert!(matches!(
                    arms[1].pattern.kind,
                    TypedPatternKind::Variant { .. }
                ));
            }
            other => panic!("unexpected statement: {other:?}"),
        },
        other => panic!("unexpected declaration: {other:?}"),
    }
}

#[test]
fn lowers_binding_destructuring_patterns() {
    let source = r#"
record Customer:
  name: Text

action main(pair: (Int, Int), customer: Customer) -> Int:
  let (left, right) = pair
  var Customer(name: current) = customer
  return left
"#;
    let lowered = lower(source);

    match &lowered.declarations[1] {
        TypedDecl::Action(action) => {
            assert!(matches!(
                action.body[0].kind,
                TypedStmtKind::Let {
                    pattern: TypedBindingPattern {
                        kind: TypedBindingPatternKind::Tuple(_),
                        ..
                    },
                    ..
                }
            ));
            assert!(matches!(
                action.body[1].kind,
                TypedStmtKind::Var {
                    pattern: TypedBindingPattern {
                        kind: TypedBindingPatternKind::Record { .. },
                        ..
                    },
                    ..
                }
            ));
        }
        other => panic!("unexpected declaration: {other:?}"),
    }
}

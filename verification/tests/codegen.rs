use vulgata::codegen::{emit_module, lower_module};
use vulgata::lexer::Lexer;
use vulgata::parser::Parser;
use vulgata::resolver::Resolver;
use vulgata::tir::lower_module as lower_tir;
use vulgata::types::TypeChecker;

fn lower(source: &str) -> vulgata::tir::TypedIrModule {
    let path = "test.vg";
    let tokens = Lexer::new(path, source).tokenize().expect("tokenize");
    let module = Parser::new(path, tokens).parse_module().expect("parse");
    let resolution = Resolver::new(&module).resolve().expect("resolve");
    let checked = TypeChecker::new(module, resolution).check().expect("check");
    lower_tir(&checked).expect("lower")
}

#[test]
fn emits_rust_for_core_language_constructs() {
    let module = lower(
        r#"
record Customer:
  email: Text

action main() -> Int:
  var customer = Customer(email: "before")
  var count = 2
  while count > 0:
    customer.email := "after"
    count := count - 1
  return count
"#,
    );

    let lowered = lower_module(&module).expect("codegen lower");
    let emitted = emit_module(&lowered);

    assert!(emitted.contains("struct Customer"));
    assert!(emitted.contains("fn vulgata_action_main() -> i64"));
    assert!(emitted.contains(".borrow_mut().email = \"after\".to_string();"));
}

#[test]
fn emits_result_and_option_operations_and_option_coercions() {
    let module = lower(
        r#"
action main() -> Int:
  let written = console.print("")
  let maybe: Option[Int] = 10
  if written.is_ok() and not written.is_err() and maybe.is_some() and not maybe.is_none():
    return maybe.value()
  return 0
"#,
    );

    let lowered = lower_module(&module).expect("codegen lower");
    let emitted = emit_module(&lowered);

    assert!(emitted.contains(".is_ok()"));
    assert!(emitted.contains(".is_err()"));
    assert!(emitted.contains(".is_some()"));
    assert!(emitted.contains(".is_none()"));
    assert!(emitted.contains("InvalidOptionValueAccess"));
    assert!(emitted.contains("let maybe: Option<i64> = Some(10);"));
}

#[test]
fn emits_explicit_match_for_result_value_and_error() {
    let module = lower(
        r#"
action main() -> Text:
  let result = file.read_text("missing.txt")
  if result.is_ok():
    return result.value()
  return result.error()
"#,
    );

    let lowered = lower_module(&module).expect("codegen lower");
    let emitted = emit_module(&lowered);

    assert!(emitted.contains("InvalidResultValueAccess"));
    assert!(emitted.contains("InvalidResultErrorAccess"));
    assert!(emitted.contains("match"));
}

#[test]
fn emits_match_statements_and_enum_variants() {
    let module = lower(
        r#"
record Customer:
  name: Text

enum Decision:
  Accept(reason: Text)
  Reject

action main() -> Text:
  let decision = Accept("ok")
  match decision:
    Accept(reason):
      return reason
    Reject():
      return "reject"
"#,
    );

    let lowered = lower_module(&module).expect("codegen lower");
    let emitted = emit_module(&lowered);

    assert!(emitted.contains("enum Decision"));
    assert!(emitted.contains("Accept {"));
    assert!(emitted.contains("match "));
    assert!(emitted.contains("Decision::Accept { reason: reason }"));
    assert!(emitted.contains("panic!(\"NonExhaustiveMatch\")"));
}

#[test]
fn emits_destructuring_bindings_with_one_time_temporaries() {
    let module = lower(
        r#"
record Customer:
  score: Int

action main(pair: (Int, Int), customer: Customer) -> Int:
  let (left, right) = pair
  var Customer(score: score) = customer
  score := score + left
  return score + right
"#,
    );

    let lowered = lower_module(&module).expect("codegen lower");
    let emitted = emit_module(&lowered);

    assert!(emitted.contains("__vulgata_destructure_"));
    assert!(emitted.contains("support::snapshot(&"));
    assert!(emitted.contains(".0"));
    assert!(emitted.contains(".borrow().score"));
}

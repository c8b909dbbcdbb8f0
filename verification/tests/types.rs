use vulgata::diagnostics::{Diagnostic, Phase};
use vulgata::lexer::Lexer;
use vulgata::parser::Parser;
use vulgata::resolver::Resolver;
use vulgata::types::{CheckedModule, TypeChecker};

fn check(source: &str) -> Result<CheckedModule, Vec<Diagnostic>> {
    let tokens = Lexer::new("test.vg", source).tokenize().expect("tokenize");
    let module = Parser::new("test.vg", tokens).parse_module().expect("parse");
    let resolution = Resolver::new(&module).resolve().expect("resolve");
    TypeChecker::new(module, resolution).check()
}

#[test]
fn reports_type_mismatch() {
    let diagnostics = check(
        r#"
action main() -> Int:
  let x: Int = "bad"
  return x
"#,
    )
    .expect_err("check should fail");
    assert_eq!(diagnostics[0].phase, Phase::TypeCheck);
}

#[test]
fn reports_unresolved_symbol() {
    let diagnostics = check(
        r#"
action main() -> Int:
  return missing_value
"#,
    )
    .expect_err("check should fail");
    assert_eq!(diagnostics[0].phase, Phase::Resolve);
}

#[test]
fn reports_invalid_mutation_target() {
    let diagnostics = check(
        r#"
action main() -> None:
  var count = 1
  count.value := 2
  return
"#,
    )
    .expect_err("check should fail");
    assert_eq!(diagnostics[0].phase, Phase::TypeCheck);
}

#[test]
fn rejects_assignment_to_immutable_let() {
    let diagnostics = check(
        r#"
action main() -> Int:
  let count = 1
  count := 2
  return count
"#,
    )
    .expect_err("check should fail");
    assert_eq!(diagnostics[0].phase, Phase::TypeCheck);
    assert!(
        diagnostics[0]
            .message
            .contains("cannot assign to immutable binding `count`")
    );
}

#[test]
fn rejects_field_write_through_immutable_let() {
    let diagnostics = check(
        r#"
record Customer:
  email: Text

action main() -> Text:
  let customer = Customer(email: "before")
  customer.email := "after"
  return customer.email
"#,
    )
    .expect_err("check should fail");
    assert_eq!(diagnostics[0].phase, Phase::TypeCheck);
    assert!(
        diagnostics[0]
            .message
            .contains("cannot assign to immutable binding `customer`")
    );
}

#[test]
fn rejects_assignment_to_action_parameter() {
    let diagnostics = check(
        r#"
action main(count: Int) -> Int:
  count := count + 1
  return count
"#,
    )
    .expect_err("check should fail");
    assert_eq!(diagnostics[0].phase, Phase::TypeCheck);
    assert!(
        diagnostics[0]
            .message
            .contains("cannot assign to immutable binding `count`")
    );
}

#[test]
fn allows_copying_parameter_into_var_before_mutation() {
    check(
        r#"
record Customer:
  email: Text

action main(customer: Customer) -> Text:
  var current = customer
  current.email := "after"
  return customer.email
"#,
    )
    .expect("check should succeed");
}

#[test]
fn rejects_non_boolean_requires_clause() {
    let diagnostics = check(
        r#"
action main(value: Int) -> Int:
  requires value + 1
  return value
"#,
    )
    .expect_err("check should fail");
    assert!(diagnostics[0].message.contains("requires expression must be `Bool`"));
}

#[test]
fn allows_result_binding_inside_ensures() {
    check(
        r#"
action main(value: Int) -> Int:
  ensures result > 0
  return value
"#,
    )
    .expect("check should succeed");
}

#[test]
fn allows_expect_inside_action_bodies() {
    check(
        r#"
action main() -> Int:
  expect true
  return 1
"#,
    )
    .expect("check should succeed");
}

#[test]
fn rejects_is_ok_on_non_result_receiver() {
    let diagnostics = check(
        r#"
action main() -> Bool:
  let value = 1
  return value.is_ok()
"#,
    )
    .expect_err("check should fail");
    assert_eq!(diagnostics[0].phase, Phase::TypeCheck);
    assert!(
        diagnostics[0]
            .message
            .contains("built-in operation `is_ok()` requires `Result[_, _]`")
    );
}

#[test]
fn rejects_duplicate_bindings_in_match_patterns() {
    let diagnostics = check(
        r#"
action main(value: (Int, Int)) -> Int:
  match value:
    (x, x):
      return x
  return 0
"#,
    )
    .expect_err("check should fail");
    assert_eq!(diagnostics[0].phase, Phase::TypeCheck);
    assert!(diagnostics[0].message.contains("duplicate binding `x`"));
}

#[test]
fn keeps_match_bindings_scoped_to_their_arm() {
    let diagnostics = check(
        r#"
action main(result: Result[Int, Text]) -> Int:
  match result:
    Ok(value):
      return value
    Err(_):
      return 0
  return value
"#,
    )
    .expect_err("check should fail");
    assert_eq!(diagnostics[0].phase, Phase::Resolve);
    assert!(diagnostics[0].message.contains("unresolved symbol `value`"));
}

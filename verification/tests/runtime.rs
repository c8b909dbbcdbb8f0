use vulgata::diagnostics::Diagnostic;
use vulgata::lexer::Lexer;
use vulgata::parser::Parser;
use vulgata::resolver::Resolver;
use vulgata::runtime::{ExecutionMode, Interpreter, Value};
use vulgata::tir::lower_module;
use vulgata::types::TypeChecker;

fn lower(source: &str) -> vulgata::tir::TypedIrModule {
    let path = "test.vg";
    let tokens = Lexer::new(path, source).tokenize().expect("tokenize");
    let module = Parser::new(path, tokens).parse_module().expect("parse");
    let resolution = Resolver::new(&module).resolve().expect("resolve");
    let checked = TypeChecker::new(module, resolution).check().expect("check");
    lower_module(&checked).expect("lower")
}

fn run_with_mode(source: &str, mode: ExecutionMode) -> Result<Value, Vec<Diagnostic>> {
    let module = lower(source);
    let interpreter = Interpreter::new_with_mode(&module, mode).expect("interpreter");
    interpreter.run_main().map(|result| result.value)
}

#[test]
fn executes_arithmetic_and_control_flow() {
    let module = lower(
        r#"
action main() -> Int:
  var x = 4
  var y = 2
  while y > 0:
    x := x + 1
    y := y - 1
  return x
"#,
    );
    let interpreter = Interpreter::new(&module).expect("interpreter");
    let result = interpreter.run_main().expect("run");
    assert_eq!(result.value, Value::Int(6));
}

#[test]
fn preserves_record_mutation() {
    let module = lower(
        r#"
record Customer:
  email: Text

action main() -> Text:
  var customer = Customer(email: "before")
  customer.email := "after"
  return customer.email
"#,
    );
    let interpreter = Interpreter::new(&module).expect("interpreter");
    let result = interpreter.run_main().expect("run");
    assert_eq!(result.value, Value::Text("after".to_string()));
}

#[test]
fn preserves_let_immutability_across_var_copies() {
    let module = lower(
        r#"
record Customer:
  email: Text

action main() -> Text:
  let frozen = Customer(email: "before")
  var current = frozen
  current.email := "after"
  return frozen.email
"#,
    );
    let interpreter = Interpreter::new(&module).expect("interpreter");
    let result = interpreter.run_main().expect("run");
    assert_eq!(result.value, Value::Text("before".to_string()));
}

#[test]
fn reports_failed_expectations() {
    let module = lower(
        r#"
test smoke:
  expect false
"#,
    );
    let interpreter = Interpreter::new(&module).expect("interpreter");
    let results = interpreter.run_tests().expect("tests");
    assert!(!results[0].passed);
    assert_eq!(results[0].failures.len(), 1);
}

#[test]
fn dispatches_validated_extern_calls() {
    let module = lower(
        r#"
extern action add(a: Int, b: Int) -> Int

action main() -> Int:
  return add(2, 5)
"#,
    );
    let config = r#"
[extern.add]
provider = "rust"
symbol = "builtin::add_int"
params = ["Int", "Int"]
return = "Int"
"#;
    let registry =
        vulgata::externs::ExternRegistry::from_config_text(&module, None, Some(config))
            .expect("registry");
    let interpreter = Interpreter::with_externs(&module, registry).expect("interpreter");
    let result = interpreter.run_main().expect("run");
    assert_eq!(result.value, Value::Int(7));
}

#[test]
fn supports_standard_runtime_console_calls() {
    let module = lower(
        r#"
action main() -> Result[None, Text]:
  return console.print("")
"#,
    );
    let interpreter = Interpreter::new(&module).expect("interpreter");
    let result = interpreter.run_main().expect("run");
    assert_eq!(result.value.debug_text(), "Ok(())");
}

#[test]
fn reports_invalid_result_error_access() {
    let module = lower(
        r#"
action main() -> Text:
  let result = console.print("")
  return result.error()
"#,
    );
    let interpreter = Interpreter::new(&module).expect("interpreter");
    let diagnostics = interpreter.run_main().expect_err("run should fail");
    assert!(diagnostics[0].message.contains("InvalidResultErrorAccess"));
    assert!(diagnostics[0].message.contains("error()"));
    assert!(diagnostics[0].message.contains("Ok"));
}

#[test]
fn normalizes_typed_option_values_and_supports_option_inspection() {
    let result = run_with_mode(
        r#"
action main() -> Bool:
  let some: Option[Int] = 10
  let none_value: Option[Int] = none
  return some.is_some() and not some.is_none() and none_value.is_none() and not none_value.is_some()
"#,
        ExecutionMode::Checked,
    )
    .expect("run");
    assert_eq!(result, Value::Bool(true));
}

#[test]
fn extracts_option_value_from_some() {
    let result = run_with_mode(
        r#"
action main() -> Int:
  let value: Option[Int] = 10
  return value.value()
"#,
        ExecutionMode::Checked,
    )
    .expect("run");
    assert_eq!(result, Value::Int(10));
}

#[test]
fn reports_invalid_option_value_access() {
    let diagnostics = run_with_mode(
        r#"
action main() -> Int:
  let value: Option[Int] = none
  return value.value()
"#,
        ExecutionMode::Checked,
    )
    .expect_err("run should fail");
    assert!(diagnostics[0].message.contains("InvalidOptionValueAccess"));
    assert!(diagnostics[0].message.contains("value()"));
    assert!(diagnostics[0].message.contains("None"));
}

#[test]
fn returns_options_with_dedicated_runtime_variants() {
    let some = run_with_mode(
        r#"
action main() -> Option[Int]:
  return Some(10)
"#,
        ExecutionMode::Checked,
    )
    .expect("run");
    assert_eq!(some, Value::OptionSome(Box::new(Value::Int(10))));

    let none_value = run_with_mode(
        r#"
action main() -> Option[Int]:
  return none
"#,
        ExecutionMode::Checked,
    )
    .expect("run");
    assert_eq!(none_value, Value::OptionNone);
}

#[test]
fn descriptive_constructs_do_not_change_results_in_any_mode() {
    let source = r#"
record Customer:
  email: Text
    meaning: "primary address"

action main() -> Int:
  intent:
    goal: "return one"
  explain:
    "ignore this"
  step compute:
    return 1
"#;

    for mode in [
        ExecutionMode::Release,
        ExecutionMode::Checked,
        ExecutionMode::Debug,
        ExecutionMode::Tooling,
    ] {
        let value = run_with_mode(source, mode).expect("run");
        assert_eq!(value, Value::Int(1), "mode {}", mode.as_cli_str());
    }
}

#[test]
fn enforces_requires_only_in_checked_and_debug_modes() {
    let source = r#"
action main(value: Int) -> Int:
  requires value > 0
  return value
"#;

    let release = {
        let module = lower(source);
        let interpreter =
            Interpreter::new_with_mode(&module, ExecutionMode::Release).expect("interpreter");
        interpreter
            .call_action("main", vec![Value::Int(-1)])
            .expect("release run")
    };
    assert_eq!(release, Value::Int(-1));

    let module = lower(source);
    let interpreter =
        Interpreter::new_with_mode(&module, ExecutionMode::Checked).expect("interpreter");
    let diagnostics = interpreter
        .call_action("main", vec![Value::Int(-1)])
        .expect_err("checked run should fail");
    assert!(diagnostics[0].message.contains("requires clause failed"));
}

#[test]
fn enforces_ensures_with_result_binding() {
    let source = r#"
action main() -> Int:
  ensures result > 0
  return 0
"#;

    let module = lower(source);
    let interpreter =
        Interpreter::new_with_mode(&module, ExecutionMode::Checked).expect("interpreter");
    let diagnostics = interpreter.run_main().expect_err("checked run should fail");
    assert!(diagnostics[0].message.contains("ensures clause failed"));
}

#[test]
fn executes_example_blocks_in_checked_mode_and_skips_them_in_release() {
    let source = r#"
action main(value: Int) -> Int:
  example passing:
    input:
      value = 2
    output:
      result = 2
  return value
"#;

    let checked = {
        let module = lower(source);
        let interpreter =
            Interpreter::new_with_mode(&module, ExecutionMode::Checked).expect("interpreter");
        interpreter
            .call_action("main", vec![Value::Int(1)])
            .expect("checked example should pass")
    };
    assert_eq!(checked, Value::Int(1));

    let release = {
        let module = lower(source);
        let interpreter =
            Interpreter::new_with_mode(&module, ExecutionMode::Release).expect("interpreter");
        interpreter
            .call_action("main", vec![Value::Int(1)])
            .expect("release example should be skipped")
    };
    assert_eq!(release, Value::Int(1));
}

#[test]
fn reports_failing_examples() {
    let source = r#"
action main(value: Int) -> Int:
  example failing:
    input:
      value = 2
    output:
      result = 3
  return value
"#;

    let module = lower(source);
    let interpreter =
        Interpreter::new_with_mode(&module, ExecutionMode::Checked).expect("interpreter");
    let diagnostics = interpreter
        .call_action("main", vec![Value::Int(1)])
        .expect_err("example should fail");
    assert!(diagnostics[0].message.contains("example `failing` failed"));
}

#[test]
fn skips_action_expects_in_release_mode() {
    let source = r#"
action main() -> Int:
  expect false
  return 1
"#;

    let release = run_with_mode(source, ExecutionMode::Release).expect("release run");
    assert_eq!(release, Value::Int(1));
}

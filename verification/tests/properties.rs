use vulgata::ast::BinaryOp;
use vulgata::diagnostics::{Phase, SourceSpan};
use vulgata::externs::ExternRegistry;
use vulgata::resolver::Resolver;
use vulgata::runtime::{eval_binary, values_equal, ExecutionMode, Interpreter, Value};
use vulgata::types::{check_expression, is_assignable, Type};
use vulgata::{
    check_source, compile_source, lower_source, parse_expression_source, parse_source, run_source, run_source_in_mode,
    test_source, test_source_in_mode,
};

fn span() -> SourceSpan {
    SourceSpan::new("<test>", 1, 1)
}

#[test]
fn binary_arithmetic_on_integers_is_exact() {
    assert_eq!(eval_binary(BinaryOp::Add, Value::Int(2), Value::Int(3), &span()).unwrap(), Value::Int(5));
    assert_eq!(eval_binary(BinaryOp::Subtract, Value::Int(2), Value::Int(3), &span()).unwrap(), Value::Int(-1));
    assert_eq!(eval_binary(BinaryOp::Multiply, Value::Int(-4), Value::Int(3), &span()).unwrap(), Value::Int(-12));
    assert_eq!(eval_binary(BinaryOp::Divide, Value::Int(7), Value::Int(2), &span()).unwrap(), Value::Int(3));
    assert_eq!(eval_binary(BinaryOp::Modulo, Value::Int(-7), Value::Int(2), &span()).unwrap(), Value::Int(-1));
}

#[test]
fn binary_arithmetic_overflow_and_zero_division_are_runtime_errors() {
    let overflow = eval_binary(BinaryOp::Add, Value::Int(i64::MAX), Value::Int(1), &span()).unwrap_err();
    assert_eq!(overflow[0].phase, Phase::Runtime);
    let zero = eval_binary(BinaryOp::Divide, Value::Int(1), Value::Int(0), &span()).unwrap_err();
    assert_eq!(zero[0].phase, Phase::Runtime);
    let rem = eval_binary(BinaryOp::Modulo, Value::Int(1), Value::Int(0), &span()).unwrap_err();
    assert_eq!(rem[0].phase, Phase::Runtime);
}

#[test]
fn binary_text_addition_concatenates() {
    let joined = eval_binary(BinaryOp::Add, Value::Text("ab".to_string()), Value::Text("cd".to_string()), &span()).unwrap();
    assert_eq!(joined, Value::Text("abcd".to_string()));
    let mixed = eval_binary(BinaryOp::Add, Value::Text("ab".to_string()), Value::Int(1), &span());
    assert!(mixed.is_err());
}

#[test]
fn binary_comparisons_and_logic() {
    assert_eq!(eval_binary(BinaryOp::Less, Value::Int(1), Value::Int(2), &span()).unwrap(), Value::Bool(true));
    assert_eq!(eval_binary(BinaryOp::GreaterEqual, Value::Int(1), Value::Int(2), &span()).unwrap(), Value::Bool(false));
    assert_eq!(eval_binary(BinaryOp::Equal, Value::Text("a".to_string()), Value::Text("a".to_string()), &span()).unwrap(), Value::Bool(true));
    assert_eq!(eval_binary(BinaryOp::NotEqual, Value::Int(1), Value::Int(1), &span()).unwrap(), Value::Bool(false));
    assert_eq!(eval_binary(BinaryOp::And, Value::Bool(true), Value::Bool(false), &span()).unwrap(), Value::Bool(false));
    assert_eq!(eval_binary(BinaryOp::Or, Value::Bool(true), Value::Bool(false), &span()).unwrap(), Value::Bool(true));
    assert!(eval_binary(BinaryOp::And, Value::Int(1), Value::Bool(false), &span()).is_err());
}

#[test]
fn execution_mode_names_round_trip() {
    for mode in [ExecutionMode::Release, ExecutionMode::Checked, ExecutionMode::Debug, ExecutionMode::Tooling] {
        assert_eq!(ExecutionMode::parse_cli(mode.as_cli_str()), Some(mode));
    }
    assert_eq!(ExecutionMode::parse_cli("fast"), None);
}

#[test]
fn value_copies_are_equal_to_their_originals() {
    let value = Value::Record(vec![
        ("email".to_string(), Value::Text("a@b".to_string())),
        ("tags".to_string(), Value::List(vec![Value::Int(1), Value::OptionNone])),
    ]);
    assert!(values_equal(&value, &value.snapshot()));
    assert!(!values_equal(&Value::Int(1), &Value::Int(2)));
}

#[test]
fn debug_text_matches_the_interpreter_rendering() {
    assert_eq!(Value::Int(42).debug_text(), "Int(42)");
    assert_eq!(Value::Text("a\"b".to_string()).debug_text(), "Text(\"a\\\"b\")");
    assert_eq!(Value::ResultOk(Box::new(Value::NoneValue)).debug_text(), "Ok(())");
    assert_eq!(Value::OptionNone.debug_text(), "None");
}

#[test]
fn resolver_rejects_duplicate_top_level_names() {
    let module = parse_source("test.vg", "action f() -> Int:\n  return 1\n\naction f() -> Int:\n  return 2\n").expect("parse");
    let diagnostics = Resolver::new(&module).resolve().expect_err("duplicate");
    assert!(diagnostics.iter().all(|d| d.phase == Phase::Resolve));
}

#[test]
fn resolver_lists_each_distinct_name() {
    let module = parse_source("test.vg", "const LIMIT: Int = 3\n\naction f() -> Int:\n  return LIMIT\n").expect("parse");
    let resolution = Resolver::new(&module).resolve().expect("resolve");
    assert!(resolution.get("LIMIT").is_some());
    assert!(resolution.get("f").is_some());
    assert!(resolution.get("g").is_none());
}

#[test]
fn assignability_is_reflexive_and_unknown_is_compatible() {
    let list = Type::List(Box::new(Type::Int));
    assert!(is_assignable(&list, &Type::List(Box::new(Type::Int))));
    assert!(is_assignable(&Type::Unknown, &Type::Text));
    assert!(is_assignable(&Type::Text, &Type::Unknown));
    assert!(!is_assignable(&Type::Text, &Type::Int));
}

#[test]
fn syntax_errors_are_reported_by_the_parser() {
    let diagnostics = parse_source("test.vg", "action broken( -> None:\n  return\n").expect_err("parse error");
    assert!(diagnostics.iter().all(|d| d.phase == Phase::Parse || d.phase == Phase::Lex));
}

#[test]
fn assigning_to_a_let_binding_is_a_type_error() {
    let source = "action main() -> Int:\n  let x = 1\n  x := 2\n  return x\n";
    let diagnostics = check_source("test.vg", source).expect_err("immutable");
    assert!(diagnostics.iter().all(|d| d.phase == Phase::TypeCheck));
}

#[test]
fn lowering_keeps_one_declaration_per_source_declaration() {
    let source = "record P:\n  x: Int\n\nconst N: Int = 2\n\naction main() -> Int:\n  return N\n\ntest t:\n  expect main() == 2\n";
    let lowered = lower_source("test.vg", source).expect("lower");
    assert_eq!(lowered.declarations.len(), 4);
}

#[test]
fn extern_registry_binds_exactly_the_declared_externs() {
    let module = lower_source("test.vg", "extern action add(a: Int, b: Int) -> Int\n").expect("lower");
    let config = "[extern.add]\nprovider = \"rust\"\nsymbol = \"builtin::add_int\"\nparams = [\"Int\", \"Int\"]\nreturn = \"Int\"\n";
    let registry = ExternRegistry::from_config_text(&module, None, Some(config)).expect("registry");
    assert!(registry.contains("add"));
    assert!(!registry.contains("sub"));
    let overflow = registry.call("add", vec![Value::Int(i64::MAX), Value::Int(1)], &span());
    assert!(overflow.is_err());
}

#[test]
fn declared_externs_need_a_configuration() {
    let module = lower_source("test.vg", "extern action add(a: Int, b: Int) -> Int\n").expect("lower");
    let diagnostics = ExternRegistry::from_config_text(&module, None, None).expect_err("needs config");
    assert_eq!(diagnostics[0].phase, Phase::Extern);
    assert!(diagnostics[0].message.contains("require a configuration file"));
}

#[test]
fn hello_world_runs() {
    let source = "action greet_world() -> Text:\n  return \"Hello, world!\"\n\naction main() -> Text:\n  return greet_world()\n";
    let result = run_source("hello.vg", source).expect("run");
    assert_eq!(result.value.debug_text(), "Text(\"Hello, world!\")");
}

#[test]
fn inline_tests_report_pass() {
    let source = "action gcd(a: Int, b: Int) -> Int:\n  var x = a\n  var y = b\n  while y != 0:\n    let r = x % y\n    x := y\n    y := r\n  return x\n\ntest gcd_basic:\n  expect gcd(84, 30) == 6\n\ntest gcd_coprime:\n  expect gcd(13, 7) == 1\n";
    let results = test_source("math.vg", source).expect("tests");
    assert_eq!(results.len(), 2);
    assert_eq!(results[0].name, "gcd_basic");
    assert!(results.iter().all(|r| r.passed));
}

#[test]
fn countdown_sums_in_a_loop() {
    let source = "action countdown(n: Int) -> Int:\n  var i = n\n  var total = 0\n  while i > 0:\n    total := total + i\n    i := i - 1\n  return total\n";
    let module = lower_source("count.vg", source).expect("lower");
    let interpreter = Interpreter::new(&module).expect("interpreter");
    assert_eq!(interpreter.call_action("countdown", vec![Value::Int(4)]).expect("call"), Value::Int(10));
}

#[test]
fn examples_are_checked_in_checked_mode() {
    let source = "action clamp(value: Int) -> Int:\n  example below_zero:\n    input:\n      value = -1\n    output:\n      result = 0\n\n  if value < 0:\n    return 0\n  return value\n";
    let module = lower_source("clamp.vg", source).expect("lower");
    let interpreter = Interpreter::new_with_mode(&module, ExecutionMode::Checked).expect("interpreter");
    assert_eq!(interpreter.call_action("clamp", vec![Value::Int(-5)]).expect("call"), Value::Int(0));
    assert_eq!(interpreter.call_action("clamp", vec![Value::Int(12)]).expect("call"), Value::Int(12));
}

#[test]
fn run_without_main_is_a_runtime_error() {
    let diagnostics = run_source("test.vg", "action helper() -> Int:\n  return 1\n").expect_err("no main");
    assert_eq!(diagnostics[0].phase, Phase::Runtime);
    assert!(diagnostics[0].message.contains("`main`"));
}

#[test]
fn compile_rejects_extern_declarations() {
    let diagnostics = compile_source("test.vg", "extern action add(a: Int, b: Int) -> Int\n").expect_err("extern");
    assert_eq!(diagnostics[0].phase, Phase::Codegen);
}

#[test]
fn compile_rejects_semantic_layer_constructs() {
    let source = "action main() -> Int:\n  intent:\n    goal: \"one\"\n  return 1\n";
    let diagnostics = compile_source("test.vg", source).expect_err("semantic layer");
    assert!(diagnostics[0].message.contains("semantic-layer constructs"));
}

#[test]
fn compile_emits_support_module_and_entrypoint() {
    let source = "action main() -> Int:\n  return 1 + 2 * 3\n";
    let emitted = compile_source("test.vg", source).expect("compile");
    assert!(emitted.contains("mod support {"));
    assert!(emitted.contains("fn vulgata_action_main() -> i64 {"));
    assert!(emitted.contains("return 1 + 2 * 3;"));
    assert!(emitted.contains("let result = vulgata_action_main(); println!(\"{}\", format!(\"Int({})\", result));"));
}

#[test]
fn compile_parenthesizes_looser_operands() {
    let source = "action main() -> Int:\n  return (1 + 2) * (3 - (4 - 5))\n";
    let emitted = compile_source("test.vg", source).expect("compile");
    assert!(emitted.contains("return (1 + 2) * (3 - (4 - 5));"));
}

#[test]
fn compile_emits_standard_runtime_calls() {
    let source = "action main() -> Result[Text, Text]:\n  let _p = console.println(\"hi\")\n  return console.read_line()\n";
    let emitted = compile_source("test.vg", source).expect("compile");
    assert!(emitted.contains("support::console_print(\"hi\".to_string(), true, false)"));
    assert!(emitted.contains("return support::console_read_line();"));
}

#[test]
fn closed_expressions_type_from_their_literals_and_operators() {
    let checked = check_source("t.vg", "action main() -> Int:\n  return 1\n").expect("checks");
    let int_expr = parse_expression_source("e.vg", "-(3) * 2 + 1").expect("parses");
    assert!(matches!(check_expression(&checked, &int_expr).expect("types").ty, Type::Int));
    let bool_expr = parse_expression_source("e.vg", "not (1 < 2) or true").expect("parses");
    assert!(matches!(check_expression(&checked, &bool_expr).expect("types").ty, Type::Bool));
    let text_expr = parse_expression_source("e.vg", "\"a\"").expect("parses");
    assert!(matches!(check_expression(&checked, &text_expr).expect("types").ty, Type::Text));
    let refused = parse_expression_source("e.vg", "1 + true").expect("parses");
    let errors = check_expression(&checked, &refused).unwrap_err();
    assert_eq!(errors[0].phase, Phase::TypeCheck);
    let negated_text = parse_expression_source("e.vg", "-\"a\"").expect("parses");
    assert!(check_expression(&checked, &negated_text).is_err());
}

#[test]
fn statements_with_literal_operands_are_decided_by_their_types() {
    assert!(check_source("t.vg", "action f() -> Int:\n  requires 1\n  return 1\n").is_err());
    assert!(check_source("t.vg", "action f() -> Int:\n  requires 1 < 2\n  return 1\n").is_ok());
    assert!(check_source("t.vg", "action f() -> Int:\n  return \"x\"\n").is_err());
    assert!(check_source("t.vg", "action f() -> Int:\n  for each x in 3:\n    return 1\n  return 0\n").is_err());
    assert!(check_source("t.vg", "action f() -> Int:\n  while 1:\n    return 1\n  return 0\n").is_err());
    assert!(check_source("t.vg", "action f() -> Int:\n  break\n").is_err());
}

#[test]
fn literally_false_contracts_refuse_every_checked_call() {
    let refused_requires = "action main() -> Int:\n  requires 1 > 2\n  return 1\n";
    assert!(run_source_in_mode("t.vg", refused_requires, ExecutionMode::Checked).is_err());
    assert!(run_source_in_mode("t.vg", refused_requires, ExecutionMode::Debug).is_err());
    let released = run_source_in_mode("t.vg", refused_requires, ExecutionMode::Release).expect("release skips contracts");
    assert_eq!(released.value, Value::Int(1));
    let refused_ensures = "action main() -> Int:\n  ensures false\n  return 1\n";
    let errors = run_source_in_mode("t.vg", refused_ensures, ExecutionMode::Checked).unwrap_err();
    assert_eq!(errors[0].phase, Phase::Runtime);
    assert!(run_source_in_mode("t.vg", refused_ensures, ExecutionMode::Tooling).is_ok());
}

#[test]
fn false_expectations_fail_tests_only_where_enforced() {
    let source = "test always_false:\n  expect 1 > 2\n\ntest always_true:\n  expect 1 < 2\n";
    let checked = test_source_in_mode("t.vg", source, ExecutionMode::Checked).expect("runs");
    assert_eq!(checked.len(), 2);
    assert!(!checked[0].passed);
    assert!(checked[1].passed);
    let released = test_source_in_mode("t.vg", source, ExecutionMode::Release).expect("runs");
    assert!(released.iter().all(|t| t.passed));
}

#[test]
fn reading_a_variable_gives_what_was_last_assigned() {
    let source = "action main() -> Int:\n  var x = 1\n  var y = 2\n  x := 5\n  return x * 10 + y\n";
    let result = run_source("t.vg", source).expect("runs");
    assert_eq!(result.value, Value::Int(52));
}

#[test]
fn modules_of_literal_statements_are_accepted() {
    let source = "action main() -> Int:\n  return 40 + 2\n\naction other():\n  return\n\ntest literal_truth:\n  expect 1 < 2\n";
    assert!(check_source("test.vg", source).is_ok());
    let mismatched = "action main() -> Int:\n  return true\n";
    assert!(check_source("test.vg", mismatched).is_err());
}

#[test]
fn main_returning_a_literal_expression_runs_to_its_value() {
    let result = run_source("test.vg", "action main() -> Int:\n  return 40 + 2\n").unwrap();
    assert_eq!(result.value, Value::Int(42));
    let optional = run_source("test.vg", "action main() -> Option[Int]:\n  return 7\n").unwrap();
    assert_eq!(optional.value, Value::OptionSome(Box::new(Value::Int(7))));
    let nothing = run_source("test.vg", "action main():\n  return\n").unwrap();
    assert_eq!(nothing.value, Value::NoneValue);
}

#[test]
fn repl_bindings_take_the_declared_or_inferred_type() {
    let checked = check_source("test.vg", "action main() -> Int:\n  return 1\n").unwrap();
    let no_bindings: Vec<(String, vulgata::types::ReplBinding)> = Vec::new();
    let declared = vulgata::parse_statement_source("<repl>", "let total: Int = 3").unwrap();
    let c = vulgata::types::check_statement(&checked, &declared, &no_bindings).unwrap();
    let (name, binding) = c.binding.unwrap();
    assert_eq!(name, "total");
    assert!(matches!(binding.ty, Type::Int));
    assert!(!binding.mutable);
    let inferred = vulgata::parse_statement_source("<repl>", "var label = \"a\"").unwrap();
    let c = vulgata::types::check_statement(&checked, &inferred, &no_bindings).unwrap();
    let (name, binding) = c.binding.unwrap();
    assert_eq!(name, "label");
    assert!(matches!(binding.ty, Type::Text));
    assert!(binding.mutable);
}

#[test]
fn bindings_hold_their_values_and_false_expectations_are_recorded() {
    let result = run_source("test.vg", "action main() -> Int:\n  let x = 2 + 3\n  var y = x\n  return y\n").unwrap();
    assert_eq!(result.value, Value::Int(5));
    let results = test_source("test.vg", "test literal_falsehood:\n  expect 1 > 2\n  expect true\n").unwrap();
    assert_eq!(results.len(), 1);
    assert!(!results[0].passed);
    assert_eq!(results[0].failures.len(), 1);
    assert_eq!(results[0].failures[0].message, "expect expression evaluated to false");
    assert_eq!(results[0].failures[0].span.line, 2);
}

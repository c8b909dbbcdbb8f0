use vulgata::externs::ExternRegistry;
use vulgata::lower_source;
use vulgata::runtime::Value;

fn lowered(source: &str) -> vulgata::tir::TypedIrModule {
    lower_source("test.vg", source).expect("lower")
}

#[test]
fn loads_compatible_bindings() {
    let module = lowered("extern action add(a: Int, b: Int) -> Int\n");
    let config = r#"
[extern.add]
provider = "rust"
symbol = "builtin::add_int"
params = ["Int", "Int"]
return = "Int"
"#;
    let registry =
        ExternRegistry::from_config_text(&module, None, Some(config)).expect("registry");
    let value = registry
        .call(
            "add",
            vec![Value::Int(2), Value::Int(3)],
            &vulgata::diagnostics::SourceSpan::new("<test>", 1, 1),
        )
        .expect("call");
    assert_eq!(value, Value::Int(5));
}

#[test]
fn rejects_signature_mismatch() {
    let module = lowered("extern action add(a: Int, b: Int) -> Int\n");
    let config = r#"
[extern.add]
provider = "rust"
symbol = "builtin::echo_text"
params = ["Text"]
return = "Text"
"#;
    let diagnostics = ExternRegistry::from_config_text(&module, None, Some(config))
        .expect_err("registry should fail");
    assert!(diagnostics[0].message.contains("signature mismatch"));
}

#[test]
fn rejects_missing_declaration() {
    let module = lowered("action main() -> None:\n  return\n");
    let config = r#"
[extern.missing]
provider = "rust"
symbol = "builtin::echo_text"
params = ["Text"]
return = "Text"
"#;
    let diagnostics = ExternRegistry::from_config_text(&module, None, Some(config))
        .expect_err("registry should fail");
    assert!(diagnostics[0].message.contains("no matching declaration"));
}

#[test]
fn config_refuses_other_sections_stray_entries_and_lines_without_equals() {
    let module = lowered("extern action add(a: Int, b: Int) -> Int\n");
    let good = "[extern.add]\nprovider = \"rust\"\nsymbol = \"builtin::add_int\"\nparams = [\"Int\", \"Int\"]\nreturn = \"Int\"\n";
    assert!(ExternRegistry::from_config_text(&module, None, Some(good)).is_ok());
    let other_section = format!("[tools]\n{}", good);
    let errors = ExternRegistry::from_config_text(&module, None, Some(other_section.as_str())).expect_err("section");
    assert!(errors[0].message.contains("unsupported config section `tools`"));
    let stray = format!("provider = \"rust\"\n{}", good);
    let errors = ExternRegistry::from_config_text(&module, None, Some(stray.as_str())).expect_err("stray");
    assert!(errors[0].message.contains("must appear inside"));
    let no_equals = format!("{}flag\n", good);
    let errors = ExternRegistry::from_config_text(&module, None, Some(no_equals.as_str())).expect_err("equals");
    assert!(errors[0].message.contains("expected `key = value`"));
    let commented = format!("# bindings\n\n{}", good);
    assert!(ExternRegistry::from_config_text(&module, None, Some(commented.as_str())).is_ok());
}

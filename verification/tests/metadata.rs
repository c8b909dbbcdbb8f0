use serde_json::Value;

use vulgata::metadata::{emit_metadata, JsonValue};
use vulgata::parse_source;

fn to_json(value: &JsonValue) -> Value {
    match value {
        JsonValue::Text(text) => Value::String(text.clone()),
        JsonValue::Array(items) => Value::Array(items.iter().map(to_json).collect()),
        JsonValue::Object(entries) => {
            let mut map = serde_json::Map::new();
            for (key, item) in entries {
                map.insert(key.clone(), to_json(item));
            }
            Value::Object(map)
        }
    }
}

fn metadata(source: &str) -> Value {
    let module = parse_source("test.vg", source).expect("parse");
    to_json(&emit_metadata(&module))
}

#[test]
fn emits_action_with_all_semantic_layer_constructs() {
    let value = metadata(
        r#"
module sample.layers

record Customer:
  email: Text
    meaning: "primary address"

action main(value: Int) -> Int:
  intent:
    goal: "return the value"
  explain:
    "first"
  requires value > 0
  step compute:
    return value
  ensures result > 0
  example works:
    input:
      value = 1
    output:
      result = 1
"#,
    );

    let action = &value["actions"][0];
    assert_eq!(action["name"], "main");
    assert!(action.get("intent").is_some());
    assert!(action.get("contracts").is_some());
    assert!(action.get("steps").is_some());
    assert!(action.get("examples").is_some());
    assert!(value.get("records").is_some());
}

#[test]
fn omits_optional_keys_when_action_has_no_semantic_layer_constructs() {
    let value = metadata(
        r#"
action main() -> Int:
  return 1
"#,
    );

    let action = value["actions"][0].as_object().expect("object");
    assert_eq!(action.get("name").unwrap(), "main");
    assert_eq!(action.len(), 1);
}

#[test]
fn metadata_is_deterministic() {
    let source = r#"
action main(value: Int) -> Int:
  requires value > 0
  return value
"#;
    let first = serde_json::to_string_pretty(&metadata(source)).expect("json");
    let second = serde_json::to_string_pretty(&metadata(source)).expect("json");
    assert_eq!(first, second);
}

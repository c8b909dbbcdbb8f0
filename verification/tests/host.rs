use std::cell::RefCell;

use vulgata::externs::ExternRegistry;
use vulgata::lower_source;
use vulgata::runtime::{ExecutionMode, Interpreter, RuntimeHost, Value};

/// Files kept in memory, and the console output written so far.
struct MemoryHost {
    files: RefCell<Vec<(String, String)>>,
    console: RefCell<String>,
}

impl MemoryHost {
    fn new() -> Self {
        MemoryHost { files: RefCell::new(Vec::new()), console: RefCell::new(String::new()) }
    }
}

impl RuntimeHost for MemoryHost {
    fn write_console(&self, text: &str, newline: bool, _stderr: bool) -> Result<(), String> {
        let mut console = self.console.borrow_mut();
        console.push_str(text);
        if newline {
            console.push('\n');
        }
        Ok(())
    }

    fn read_line(&self) -> Result<Option<String>, String> {
        Ok(Some("typed line\r\n".to_string()))
    }

    fn read_text(&self, path: &str) -> Result<String, String> {
        self.files
            .borrow()
            .iter()
            .find(|(p, _)| p == path)
            .map(|(_, c)| c.clone())
            .ok_or_else(|| format!("no such file: {path}"))
    }

    fn write_text(&self, path: &str, content: &str) -> Result<(), String> {
        let mut files = self.files.borrow_mut();
        files.retain(|(p, _)| p != path);
        files.push((path.to_string(), content.to_string()));
        Ok(())
    }

    fn append_text(&self, path: &str, content: &str) -> Result<(), String> {
        let mut files = self.files.borrow_mut();
        match files.iter_mut().find(|(p, _)| p == path) {
            Some((_, c)) => c.push_str(content),
            None => files.push((path.to_string(), content.to_string())),
        }
        Ok(())
    }

    fn path_exists(&self, path: &str) -> bool {
        self.files.borrow().iter().any(|(p, _)| p == path)
    }
}

fn run_in_memory(source: &str) -> Result<Value, Vec<vulgata::diagnostics::Diagnostic>> {
    let module = lower_source("test.vg", source).expect("lower");
    let externs = ExternRegistry::from_module(&module).expect("externs");
    let interpreter = Interpreter::with_host(&module, externs, ExecutionMode::Checked, MemoryHost::new()).expect("interpreter");
    interpreter.run_main().map(|r| r.value)
}

#[test]
fn file_text_round_trips_through_the_host() {
    let value = run_in_memory(
        "action main() -> Result[Text, Text]:\n  let _written = file.write_text(\"notes.txt\", \"hello\")\n  let _more = file.append_text(\"notes.txt\", \" world\")\n  return file.read_text(\"notes.txt\")\n",
    )
    .expect("run");
    assert_eq!(value.debug_text(), "Ok(\"hello world\")");
}

#[test]
fn missing_files_are_reported_as_error_results() {
    let value = run_in_memory("action main() -> Result[Text, Text]:\n  return file.read_text(\"missing.txt\")\n").expect("run");
    match value {
        Value::ResultErr(inner) => assert_eq!(*inner, Value::Text("no such file: missing.txt".to_string())),
        other => panic!("unexpected {}", other.debug_text()),
    }
}

#[test]
fn result_value_of_an_error_is_an_invalid_access() {
    let diagnostics = run_in_memory(
        "action main() -> Text:\n  let result = file.read_text(\"missing.txt\")\n  return result.value()\n",
    )
    .expect_err("invalid access");
    assert!(diagnostics[0].message.contains("InvalidResultValueAccess"));
    assert!(diagnostics[0].message.contains("value()"));
    assert!(diagnostics[0].message.contains("Err"));
}

#[test]
fn result_error_of_a_failed_read_is_its_message() {
    let value = run_in_memory(
        "action main() -> Text:\n  let result = file.read_text(\"missing.txt\")\n  return result.error()\n",
    )
    .expect("run");
    assert_eq!(value, Value::Text("no such file: missing.txt".to_string()));
}

#[test]
fn file_exists_and_console_read_line_use_the_host() {
    let value = run_in_memory(
        "action main() -> Bool:\n  let _w = file.write_text(\"a.txt\", \"x\")\n  return file.exists(\"a.txt\") and not file.exists(\"b.txt\")\n",
    )
    .expect("run");
    assert_eq!(value, Value::Bool(true));
    let line = run_in_memory("action main() -> Result[Text, Text]:\n  return console.read_line()\n").expect("run");
    assert_eq!(line.debug_text(), "Ok(\"typed line\")");
}

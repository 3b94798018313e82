use dragen::{render_execution, Output, PyValue};

fn key_text(key: &littrs::PyValue) -> String {
    match key {
        littrs::PyValue::Str(s) => s.clone(),
        other => dragen::pyvalue_to_string(&value_of(other)),
    }
}

fn value_of(value: &littrs::PyValue) -> PyValue {
    match value {
        littrs::PyValue::None => PyValue::NoValue,
        littrs::PyValue::Bool(b) => PyValue::Bool(*b),
        littrs::PyValue::Int(i) => PyValue::Int(*i),
        littrs::PyValue::Float(f) => PyValue::Float(f.to_string()),
        littrs::PyValue::Str(s) => PyValue::Str(s.clone()),
        littrs::PyValue::List(items)
        | littrs::PyValue::Tuple(items)
        | littrs::PyValue::Set(items) => PyValue::List(items.iter().map(value_of).collect()),
        littrs::PyValue::Dict(pairs) => {
            PyValue::Dict(pairs.iter().map(|(k, v)| (key_text(k), value_of(v))).collect())
        }
        other => PyValue::Str(format!("{:?}", other)),
    }
}

fn execute_code(code: &str) -> String {
    let mut sandbox = littrs::Sandbox::with_builtins();
    let outcome = match sandbox.capture(code) {
        Ok(out) => Ok(Output { value: value_of(&out.value), output: out.output }),
        Err(e) => Err(e.to_string()),
    };
    render_execution(&outcome)
}

#[test]
fn agent_test_execute_code() {
    let output = execute_code("1 + 2");
    assert_eq!(output, "=> 3");
}

#[test]
fn mod_test_execute_code() {
    let output = execute_code("1 + 2");
    assert_eq!(output, "=> 3");
}

#[test]
fn agent_test_execute_code_with_print() {
    let output = execute_code("print('hello')");
    assert_eq!(output, "hello");
}

#[test]
fn mod_test_execute_code_with_print() {
    let output = execute_code("print('hello')");
    assert_eq!(output, "hello");
}

#[test]
fn agent_test_execute_code_with_print_and_result() {
    let output = execute_code("print('calculating')\n1 + 2");
    assert_eq!(output, "calculating\n=> 3");
}

#[test]
fn mod_test_execute_code_with_print_and_result() {
    let output = execute_code("print('calculating')\n1 + 2");
    assert_eq!(output, "calculating\n=> 3");
}

#[test]
fn agent_test_execute_code_error() {
    let output = execute_code("undefined_var");
    assert!(output.starts_with("Error:"));
}

#[test]
fn mod_test_execute_code_error() {
    let output = execute_code("undefined_var");
    assert!(output.starts_with("Error:"));
}

#[test]
fn execution_without_output_or_value_says_so() {
    assert_eq!(execute_code("x = 1"), "Code executed successfully (no output).");
    let nothing = Ok(Output { value: PyValue::NoValue, output: Vec::new() });
    assert_eq!(render_execution(&nothing), "Code executed successfully (no output).");
}

#[test]
fn printed_lines_come_before_the_value() {
    let outcome = Ok(Output {
        value: PyValue::List(vec![PyValue::Int(1), PyValue::Str("a".to_string())]),
        output: vec!["one".to_string(), "two".to_string()],
    });
    assert_eq!(render_execution(&outcome), "one\ntwo\n=> [1, \"a\"]");
}

#[test]
fn a_string_that_reads_none_is_still_shown() {
    let outcome = Ok(Output { value: PyValue::Str("None".to_string()), output: Vec::new() });
    assert_eq!(render_execution(&outcome), "=> \"None\"");
}

#[test]
fn sandbox_error_is_rendered_as_an_error_line() {
    assert_eq!(render_execution(&Err("Division by zero".to_string())), "Error: Division by zero");
    assert_eq!(execute_code("1 / 0"), "Error: Division by zero");
}

use minmax_code::parser::{parse_model_output, parse_tool_call_block};
use minmax_code::args::coerce_arg;

#[test]
fn parse_plain_content() {
    let output = parse_model_output("Hello, world!");
    assert_eq!(output.content, "Hello, world!");
    assert!(output.reasoning.is_empty());
    assert!(output.tool_calls.is_empty());
    assert!(!output.pending);
}

#[test]
fn parse_think_block() {
    let raw = "<think>Let me analyze this</think>Here is my response.";
    let output = parse_model_output(raw);
    assert_eq!(output.reasoning, "Let me analyze this");
    assert_eq!(output.content, "Here is my response.");
    assert!(!output.pending);
}

#[test]
fn parse_unclosed_think() {
    let raw = "<think>Still thinking about";
    let output = parse_model_output(raw);
    assert_eq!(output.reasoning, "Still thinking about");
    assert!(output.content.is_empty());
    assert!(output.pending);
}

#[test]
fn parse_tool_call() {
    let raw = "Let me read the file.\n<minimax:tool_call>\n<invoke name=\"read_file\">\n<parameter name=\"path\">src/main.rs</parameter>\n</invoke>\n</minimax:tool_call>";
    let output = parse_model_output(raw);
    assert_eq!(output.content, "Let me read the file.");
    assert_eq!(output.tool_calls.len(), 1);
    assert_eq!(output.tool_calls[0].name, "read_file");
    assert_eq!(output.tool_calls[0].get_arg("path").unwrap(), "src/main.rs");
}

#[test]
fn parse_multiple_tool_calls() {
    let raw = "<minimax:tool_call>\n<invoke name=\"read_file\">\n<parameter name=\"path\">a.rs</parameter>\n</invoke>\n<invoke name=\"read_file\">\n<parameter name=\"path\">b.rs</parameter>\n</invoke>\n</minimax:tool_call>";
    let output = parse_model_output(raw);
    assert_eq!(output.tool_calls.len(), 2);
    assert_eq!(output.tool_calls[0].get_arg("path").unwrap(), "a.rs");
    assert_eq!(output.tool_calls[1].get_arg("path").unwrap(), "b.rs");
}

#[test]
fn parse_unclosed_tool_call() {
    let raw = "Some content<minimax:tool_call><invoke name=\"bash\">";
    let output = parse_model_output(raw);
    assert_eq!(output.content, "Some content");
    assert!(output.pending);
    assert!(output.tool_calls.is_empty());
}

#[test]
fn parse_think_and_tool_call() {
    let raw = "<think>I should read the file first</think>\nLet me check that file.\n<minimax:tool_call>\n<invoke name=\"read_file\">\n<parameter name=\"path\">test.txt</parameter>\n</invoke>\n</minimax:tool_call>";
    let output = parse_model_output(raw);
    assert_eq!(output.reasoning, "I should read the file first");
    assert_eq!(output.content, "Let me check that file.");
    assert_eq!(output.tool_calls.len(), 1);
}

#[test]
fn partial_tag_is_detected() {
    let raw = "Some content<thi";
    let output = parse_model_output(raw);
    assert_eq!(output.content, "Some content");
    assert!(output.pending);
}

#[test]
fn coerce_arg_types() {
    assert_eq!(coerce_arg("true"), serde_json::Value::Bool(true));
    assert_eq!(coerce_arg("false"), serde_json::Value::Bool(false));
    assert_eq!(
        coerce_arg("42"),
        serde_json::from_str::<serde_json::Value>("42").unwrap()
    );
    assert_eq!(
        coerce_arg("3.14"),
        serde_json::from_str::<serde_json::Value>("3.14").unwrap()
    );
    assert_eq!(
        coerce_arg("hello"),
        serde_json::Value::String("hello".to_string())
    );
    assert_eq!(
        coerce_arg("[1,2,3]"),
        serde_json::from_str::<serde_json::Value>("[1,2,3]").unwrap()
    );
}

#[test]
fn coerce_arg_keeps_paths_as_text() {
    assert_eq!(
        coerce_arg("path/to/file"),
        serde_json::Value::String("path/to/file".to_string())
    );
}

#[test]
fn parse_example_reasoning_then_text() {
    let output = parse_model_output("<think>analyzing</think>Done.");
    assert_eq!(output.reasoning, "analyzing");
    assert_eq!(output.content, "Done.");
    assert!(output.tool_calls.is_empty());
    assert!(!output.pending);
}

#[test]
fn parse_is_idempotent_on_its_content() {
    let raw = "<think>plan</think>The answer is 42.\n<minimax:tool_call><invoke name=\"bash\">\n<parameter name=\"command\">ls</parameter>\n</invoke></minimax:tool_call>";
    let first = parse_model_output(raw);
    let second = parse_model_output(&first.content);
    assert_eq!(second.content, first.content);
    assert!(second.reasoning.is_empty());
    assert!(second.tool_calls.is_empty());
    assert!(!second.pending);
}

#[test]
fn parse_block_accepts_quoted_and_bare_names() {
    let calls = parse_tool_call_block(
        "<invoke name='grep'>\n<parameter name=pattern>todo</parameter>\n</invoke>",
    );
    assert_eq!(calls.len(), 1);
    assert_eq!(calls[0].name, "grep");
    assert_eq!(calls[0].get_arg("pattern").unwrap(), "todo");
}

#[test]
fn parameter_values_are_trimmed() {
    let calls = parse_tool_call_block(
        "<invoke name=\"bash\"><parameter name=\"command\">\n  ls -la  \n</parameter></invoke>",
    );
    assert_eq!(calls[0].get_arg("command").unwrap(), "ls -la");
}

#[test]
fn unknown_trailing_tag_is_not_cut() {
    let output = parse_model_output("x < 5 and y <z");
    assert_eq!(output.content, "x < 5 and y <z");
    assert!(!output.pending);
}

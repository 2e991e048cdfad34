use minmax_code::stream::{
    SseBuffer, StreamAccumulator, StreamEvent, ToolCallDelta, sse_payload,
};

fn json(s: &str) -> serde_json::Value {
    serde_json::from_str::<serde_json::Value>(s).unwrap()
}

#[test]
fn process_content_chunk() {
    let chunk = json(r#"{"choices": [{"delta": {"content": "Hello"}}]}"#);
    let mut acc = StreamAccumulator::new();
    acc.process_chunk(&chunk);
    assert_eq!(acc.content, "Hello");
}

#[test]
fn process_reasoning_chunk() {
    let chunk = json(r#"{"choices": [{"delta": {"reasoning_details": [{"text": "thinking..."}]}}]}"#);
    let mut acc = StreamAccumulator::new();
    acc.process_chunk(&chunk);
    assert_eq!(acc.reasoning_details, vec!["thinking...".to_string()]);
}

#[test]
fn tool_call_accumulation() {
    let mut acc = StreamAccumulator::new();
    let chunk1 = json(
        r#"{"choices": [{"delta": {"tool_calls": [{"index": 0, "id": "call_123", "function": {"name": "read_file", "arguments": "{\"pa"}}]}}]}"#,
    );
    acc.process_chunk(&chunk1);
    let chunk2 = json(
        r#"{"choices": [{"delta": {"tool_calls": [{"index": 0, "function": {"arguments": "th\": \"main.rs\"}"}}]}}]}"#,
    );
    acc.process_chunk(&chunk2);

    let calls = acc.snapshot_calls();
    assert_eq!(calls.len(), 1);
    assert_eq!(calls[0].id, "call_123");
    assert_eq!(calls[0].function.name, "read_file");
    assert_eq!(calls[0].function.arguments, r#"{"path": "main.rs"}"#);
}

#[test]
fn usage_extraction() {
    let chunk = json(
        r#"{"usage": {"prompt_tokens": 100, "completion_tokens": 50, "total_tokens": 150}, "choices": [{"delta": {}}]}"#,
    );
    let mut acc = StreamAccumulator::new();
    acc.process_chunk(&chunk);
    assert_eq!(acc.usage.prompt_tokens, 100);
    assert_eq!(acc.usage.completion_tokens, 50);
    assert_eq!(acc.usage.total_tokens, 150);
}

#[test]
fn deltas_with_repeated_indices_concatenate_arguments() {
    let mut acc = StreamAccumulator::new();
    for frag in ["{\"a\"", ": 1", ", \"b\": 2}"] {
        acc.apply_tool_delta(&ToolCallDelta {
            index: 0,
            id: None,
            name: None,
            arguments: Some(frag.to_string()),
        });
    }
    acc.apply_tool_delta(&ToolCallDelta {
        index: 0,
        id: Some("late_id".to_string()),
        name: Some("tool".to_string()),
        arguments: None,
    });
    let calls = acc.snapshot_calls();
    assert_eq!(calls.len(), 1);
    assert_eq!(calls[0].function.arguments, "{\"a\": 1, \"b\": 2}");
    assert_eq!(calls[0].id, "late_id");
}

#[test]
fn first_nonempty_id_and_name_win() {
    let mut acc = StreamAccumulator::new();
    acc.apply_tool_delta(&ToolCallDelta {
        index: 1,
        id: Some("first".to_string()),
        name: Some("alpha".to_string()),
        arguments: Some("x".to_string()),
    });
    acc.apply_tool_delta(&ToolCallDelta {
        index: 1,
        id: Some("second".to_string()),
        name: Some("beta".to_string()),
        arguments: Some("y".to_string()),
    });
    let calls = acc.snapshot_calls();
    assert_eq!(calls[0].id, "first");
    assert_eq!(calls[0].function.name, "alpha");
    assert_eq!(calls[0].function.arguments, "xy");
}

#[test]
fn snapshot_is_sorted_by_index() {
    let mut acc = StreamAccumulator::new();
    for (idx, name) in [(2usize, "c"), (0usize, "a"), (1usize, "b")] {
        acc.apply_tool_delta(&ToolCallDelta {
            index: idx,
            id: Some(format!("id{}", idx)),
            name: Some(name.to_string()),
            arguments: None,
        });
    }
    let calls = acc.snapshot_calls();
    let names: Vec<&str> = calls.iter().map(|c| c.function.name.as_str()).collect();
    assert_eq!(names, vec!["a", "b", "c"]);
}

#[test]
fn error_chunk_emits_error_event_and_changes_nothing_else() {
    let chunk = json(r#"{"error": {"message": "boom"}, "choices": [{"delta": {"content": "x"}}]}"#);
    let mut acc = StreamAccumulator::new();
    let evs = acc.process_chunk(&chunk);
    assert_eq!(evs.len(), 1);
    assert!(matches!(&evs[0], StreamEvent::Error(m) if m == "API error: boom"));
    assert_eq!(acc.content, "");
}

#[test]
fn sse_lines_reassemble_across_reads() {
    let mut buf = SseBuffer::new();
    let first = buf.push_text("data: {\"choices\"");
    assert!(first.is_empty());
    let second = buf.push_text(": []}\r\ndata: [DONE]\n");
    assert_eq!(second.len(), 2);
    assert_eq!(second[0], "data: {\"choices\": []}");
    assert_eq!(second[1], "data: [DONE]");
}

#[test]
fn sse_payload_rules() {
    assert_eq!(sse_payload("data: {\"a\":1}"), Some("{\"a\":1}".to_string()));
    assert_eq!(sse_payload("data: [DONE]"), None);
    assert_eq!(sse_payload(""), None);
    assert_eq!(sse_payload(": comment"), None);
    assert_eq!(sse_payload("event: ping"), None);
}

#[test]
fn feeding_full_stream_accumulates_everything() {
    let mut acc = StreamAccumulator::new();
    let mut buf = SseBuffer::new();
    let body = "data: {\"choices\": [{\"delta\": {\"content\": \"Hel\"}}]}\n: keepalive\ndata: {\"choices\": [{\"delta\": {\"content\": \"lo\"}}]}\ndata: {\"choices\": [{\"finish_reason\": \"stop\", \"delta\": {}}]}\ndata: [DONE]\n";
    acc.feed_text(&mut buf, body);
    assert_eq!(acc.content, "Hello");
    assert_eq!(acc.finish_reason, "stop");
    assert_eq!(acc.chunk_count, 3);
    assert!(!acc.is_empty_response());
    let result = acc.result();
    assert_eq!(result.content, "Hello");
}

#[test]
fn empty_stream_is_detected() {
    let acc = StreamAccumulator::new();
    assert!(acc.is_empty_response());
}

#[test]
fn malformed_payloads_keep_accumulated_state() {
    let mut acc = StreamAccumulator::new();
    let mut buf = SseBuffer::new();
    acc.feed_text(&mut buf, "data: {\"choices\": [{\"delta\": {\"content\": \"Hel\"}}]}\n");
    assert_eq!(acc.content, "Hel");
    let evs = acc.feed_text(&mut buf, "data: {broken\nnonsense line\n: comment\n");
    assert!(evs.is_empty());
    assert_eq!(acc.content, "Hel");
    assert_eq!(acc.chunk_count, 1);
    acc.feed_text(&mut buf, "data: {\"choices\": [{\"delta\": {\"content\": \"lo\"}}]}\n");
    assert_eq!(acc.content, "Hello");
}

use minmax_code::engine::{
    ask_user_history_text, classify_tool_call, count_completed, derive_final_content, fallback_id,
    merge_tool_calls, parse_question_args, parse_todo_args, question_answer, sanitize_tool_calls,
    system_prompt_text, todo_result_text, tool_result_message, user_message_content, ResultSlots,
    TodoItem, TodoStatus, ToolCallKind,
};
use minmax_code::history::{
    apply_compression, build_request_messages, compression_cut, estimate_history_tokens,
    summary_prompt, summary_transcript, HistoryMessage,
};
use minmax_code::mcp::{
    encode_frame, mcp_description, parse_content_length, prefixed_tool_name, McpToolRegistry,
};
use minmax_code::parser::parse_model_output;
use minmax_code::stream::{AccumulatedToolCall, ToolCallFunction};
use minmax_code::toolkit::{plan_mode_rejection, ToolExecutionResult};
use minmax_code::Mode;

fn json(s: &str) -> serde_json::Value {
    serde_json::from_str::<serde_json::Value>(s).unwrap()
}

fn call(id: &str, name: &str, args: &str) -> AccumulatedToolCall {
    AccumulatedToolCall {
        id: id.to_string(),
        call_type: "function".to_string(),
        function: ToolCallFunction { name: name.to_string(), arguments: args.to_string() },
    }
}

// ── History and compression ──────────────────────────────────────────────

#[test]
fn estimate_tokens_basic() {
    let history = vec![HistoryMessage::plain("user", &"a".repeat(400))];
    assert_eq!(estimate_history_tokens(&history), 100);
}

#[test]
fn estimate_tokens_empty_history() {
    let history: Vec<HistoryMessage> = Vec::new();
    assert_eq!(estimate_history_tokens(&history), 0);
}

#[test]
fn estimate_counts_serialized_reasoning() {
    // One empty message carrying the reasoning fragment "ab" weighs as the
    // serialized form [{"text":"ab"}]: 15 characters, so 3 tokens.
    let mut m = HistoryMessage::plain("assistant", "");
    m.reasoning = vec!["ab".to_string()];
    assert_eq!(
        serde_json::to_string(&serde_json::from_str::<serde_json::Value>(
            r#"[{"text":"ab"}]"#
        )
        .unwrap())
        .unwrap()
        .len(),
        15
    );
    assert_eq!(estimate_history_tokens(&vec![m]), 15 / 4);
}

#[test]
fn estimate_counts_serialized_tool_calls() {
    // One empty message carrying one call (id "a", name "b", arguments "{}")
    // weighs as the serialized history shape, 71 characters, so 17 tokens.
    let mut m = HistoryMessage::plain("assistant", "");
    m.tool_calls = vec![call("a", "b", "{}")];
    let wire = r#"[{"function":{"arguments":"{}","name":"b"},"id":"a","type":"function"}]"#;
    assert_eq!(wire.len(), 71);
    assert_eq!(estimate_history_tokens(&vec![m]), 71 / 4);
}

#[test]
fn compression_below_threshold_is_no_op() {
    let history = vec![HistoryMessage::plain("user", "hello")];
    assert_eq!(compression_cut(&history), None);
}

#[test]
fn compression_keeps_recent_and_replaces_prefix() {
    let mut history = Vec::new();
    for i in 0..11 {
        history.push(HistoryMessage::plain("user", &format!("{}{}", i, "x".repeat(40_000))));
    }
    let cut = compression_cut(&history).expect("estimate is far above the threshold");
    assert_eq!(cut, 1);
    let compressed = apply_compression(&history, cut, "the summary");
    assert_eq!(compressed.len(), 2 + 10);
    assert_eq!(compressed[0].role, "user");
    assert!(compressed[0].content.starts_with("[Previous conversation summary]\n"));
    assert_eq!(compressed[1].role, "assistant");
    for k in 0..10 {
        assert_eq!(compressed[k + 2].content, history[cut + k].content);
    }
    assert!(!compressed.iter().any(|m| m.content == history[0].content));
}

#[test]
fn summary_prompt_holds_capped_transcript() {
    let history = vec![
        HistoryMessage::plain("user", &"q".repeat(600)),
        HistoryMessage::plain("assistant", "short answer"),
    ];
    let transcript = summary_transcript(&history, 2);
    let lines: Vec<&str> = transcript.lines().collect();
    assert_eq!(lines.len(), 2);
    assert!(lines[0].starts_with("[user]: "));
    assert_eq!(lines[0].len(), "[user]: ".len() + 500);
    assert_eq!(lines[1], "[assistant]: short answer");
    let prompt = summary_prompt(&transcript);
    assert!(prompt.starts_with("Summarize this coding assistant conversation"));
    assert!(prompt.ends_with(&transcript));
}

#[test]
fn chat_build_full_history_includes_system() {
    let history = vec![HistoryMessage::plain("user", "hello")];
    let full = build_request_messages("prompt", &history);
    assert_eq!(full.len(), 2);
    assert_eq!(full[0].role, "system");
    assert_eq!(full[1].role, "user");
}

#[test]
fn build_full_history_strips_old_reasoning() {
    let mut history = Vec::new();
    for i in 0..5 {
        history.push(HistoryMessage::plain("user", &format!("question {}", i)));
        let mut a = HistoryMessage::plain("assistant", &format!("answer {}", i));
        a.reasoning = vec!["long reasoning here".to_string()];
        history.push(a);
    }
    let full = build_request_messages("prompt", &history);
    assert!(full[2].reasoning.is_empty());
    assert!(!full[10].reasoning.is_empty());
}

#[test]
fn build_full_history_truncates_old_tool_results() {
    let mut history = Vec::new();
    let mut tool = HistoryMessage::plain("tool", &"x".repeat(5000));
    tool.tool_call_id = Some("tc_1".to_string());
    history.push(tool);
    for _ in 0..6 {
        history.push(HistoryMessage::plain("user", "msg"));
    }
    let full = build_request_messages("prompt", &history);
    assert!(full[1].content.len() < 5000);
    assert!(full[1].content.contains("[truncated"));
}

#[test]
fn build_full_history_keeps_recent_tool_results_intact() {
    let mut history = Vec::new();
    let mut tool = HistoryMessage::plain("tool", &"x".repeat(5000));
    tool.tool_call_id = Some("tc_1".to_string());
    history.push(tool);
    let full = build_request_messages("prompt", &history);
    assert_eq!(full[1].content.len(), 5000);
}

// ── System prompt ────────────────────────────────────────────────────────

#[test]
fn chat_system_prompt_plan_mode() {
    let prompt = system_prompt_text(Mode::Plan, "/work/dir", None);
    assert!(prompt.contains("READ-ONLY mode"));
    assert!(prompt.contains("read_file"));
    assert!(!prompt.contains("edit_file"));
    assert!(prompt.contains("/work/dir"));
}

#[test]
fn chat_system_prompt_builder_mode() {
    let prompt = system_prompt_text(Mode::Builder, "/work/dir", None);
    assert!(prompt.contains("TOOL USAGE"));
    assert!(prompt.contains("edit_file"));
}

#[test]
fn system_prompt_appends_instruction_file() {
    let prompt = system_prompt_text(Mode::Builder, "/d", Some("house rules"));
    assert!(prompt.ends_with("\n\n--- agent.md ---\nhouse rules"));
}

// ── Merging, content, sanitizing, classifying ────────────────────────────

#[test]
fn structured_calls_take_precedence() {
    let parsed = parse_model_output(
        "<minimax:tool_call><invoke name=\"bash\">\n<parameter name=\"command\">ls</parameter>\n</invoke></minimax:tool_call>",
    );
    let structured = vec![call("api_1", "read_file", "{}")];
    let merged = merge_tool_calls(structured, &parsed.tool_calls, 7);
    assert_eq!(merged.len(), 1);
    assert_eq!(merged[0].id, "api_1");
}

#[test]
fn fallback_calls_get_synthesized_ids_and_typed_arguments() {
    let parsed = parse_model_output(
        "<minimax:tool_call><invoke name=\"bash\">\n<parameter name=\"command\">ls</parameter>\n<parameter name=\"timeout\">30</parameter>\n</invoke></minimax:tool_call>",
    );
    let merged = merge_tool_calls(Vec::new(), &parsed.tool_calls, 1234);
    assert_eq!(merged.len(), 1);
    assert_eq!(merged[0].id, "xml_tc_1234_0");
    assert_eq!(merged[0].id, fallback_id(1234, 0));
    let args = json(&merged[0].function.arguments);
    assert_eq!(args.get("command").unwrap(), &json("\"ls\""));
    assert_eq!(args.get("timeout").unwrap(), &json("30"));
}

#[test]
fn final_content_prefers_parsed_content() {
    assert_eq!(derive_final_content("hello", 0, "raw", ""), "hello");
    assert_eq!(derive_final_content("", 2, "raw", ""), "");
}

#[test]
fn final_content_reports_truncation_and_emptiness() {
    let truncated = derive_final_content("", 0, "half a tool call", "");
    assert!(truncated.starts_with("[Response truncated"));
    assert!(truncated.ends_with("half a tool call"));
    let empty = derive_final_content("", 0, "", "stop");
    assert_eq!(empty, "[Empty response from API - the model returned nothing (finish_reason: stop)]");
    let empty2 = derive_final_content("", 0, "", "");
    assert_eq!(empty2, "[Empty response from API - the model returned nothing]");
}

#[test]
fn sanitize_replaces_invalid_arguments() {
    let calls = vec![call("a", "bash", "{\"x\": 1}"), call("b", "bash", "{oops")];
    let clean = sanitize_tool_calls(&calls);
    assert_eq!(clean[0].function.arguments, "{\"x\": 1}");
    assert_eq!(clean[1].function.arguments, "{}");
}

#[test]
fn tool_calls_classify_by_name() {
    assert_eq!(classify_tool_call("ask_user"), ToolCallKind::Interactive);
    assert_eq!(classify_tool_call("todo_write"), ToolCallKind::TaskList);
    assert_eq!(classify_tool_call("mcp__srv__read"), ToolCallKind::Provider);
    assert_eq!(classify_tool_call("bash"), ToolCallKind::Regular);
}

#[test]
fn plan_mode_blocks_write_tools() {
    assert!(plan_mode_rejection("bash", Mode::Builder).is_none());
    assert!(plan_mode_rejection("read_file", Mode::Plan).is_none());
    assert!(plan_mode_rejection("mcp__srv__tool", Mode::Plan).is_none());
    let msg = plan_mode_rejection("write_file", Mode::Plan).unwrap();
    assert_eq!(
        msg,
        "Error: Tool \"write_file\" is not available in PLAN mode. Switch to BUILDER mode (Tab) to use it."
    );
}

// ── Result ordering ──────────────────────────────────────────────────────

#[test]
fn out_of_order_completions_commit_in_call_order() {
    let calls = vec![call("c0", "bash", "{}"), call("c1", "grep", "{}"), call("c2", "glob", "{}")];
    let mut slots = ResultSlots::new(3);
    slots.fill(2, "c2".to_string(), "glob".to_string(), ToolExecutionResult::text("third".to_string()));
    slots.fill(0, "c0".to_string(), "bash".to_string(), ToolExecutionResult::text("first".to_string()));
    slots.fill(1, "c1".to_string(), "grep".to_string(), ToolExecutionResult::text("second".to_string()));
    let ordered = slots.take_ordered(&calls);
    let texts: Vec<&str> = ordered.iter().map(|(_, _, r)| r.result.as_str()).collect();
    assert_eq!(texts, vec!["first", "second", "third"]);
    let ids: Vec<&str> = ordered.iter().map(|(id, _, _)| id.as_str()).collect();
    assert_eq!(ids, vec!["c0", "c1", "c2"]);
}

#[test]
fn missing_results_get_an_error_entry() {
    let calls = vec![call("c0", "bash", "{}"), call("c1", "grep", "{}")];
    let mut slots = ResultSlots::new(2);
    slots.fill(1, "c1".to_string(), "grep".to_string(), ToolExecutionResult::text("ok".to_string()));
    let ordered = slots.take_ordered(&calls);
    assert_eq!(ordered[0].0, "c0");
    assert_eq!(ordered[0].2.result, "Error: tool result missing");
    assert_eq!(ordered[1].2.result, "ok");
}

// ── The interactive-question tool ────────────────────────────────────────

#[test]
fn answered_question_resumes_with_reply_entry() {
    let answer = question_answer(Some("Option B".to_string()), false);
    assert_eq!(answer, "Option B");
    let text = ask_user_history_text(&answer);
    assert_eq!(text, "User responded: Option B");
    let entry = tool_result_message("call_7", &text);
    assert_eq!(entry.role, "tool");
    assert_eq!(entry.content, "User responded: Option B");
    assert_eq!(entry.tool_call_id.as_deref(), Some("call_7"));
}

#[test]
fn dropped_or_cancelled_question_resolves_to_sentinels() {
    assert_eq!(question_answer(None, false), "No response (cancelled)");
    assert_eq!(question_answer(Some("late".to_string()), true), "Cancelled by user");
}

#[test]
fn question_args_parse_batches_and_legacy_shape() {
    let batch = parse_question_args(&json(
        r#"{"questions": [{"header": "Framework", "question": "Which?", "options": ["A", "B"], "allow_custom": false}]}"#,
    ));
    assert_eq!(batch.questions.len(), 1);
    assert_eq!(batch.questions[0].header, "Framework");
    assert_eq!(batch.questions[0].options, vec!["A", "B"]);
    assert!(!batch.questions[0].allow_custom);

    let legacy = parse_question_args(&json(r#"{"question": "Pick one", "options": ["X"]}"#));
    assert_eq!(legacy.questions.len(), 1);
    assert_eq!(legacy.questions[0].question, "Pick one");
    assert!(legacy.questions[0].allow_custom);
}

// ── The task-list tool ───────────────────────────────────────────────────

#[test]
fn todo_args_replace_whole_list() {
    let items = parse_todo_args(&json(
        r#"{"todos": [{"content": "first", "status": "completed"},
                      {"content": "second", "status": "in_progress"},
                      {"content": "third", "status": "nonsense"}]}"#,
    ));
    assert_eq!(items.len(), 3);
    assert_eq!(items[0].status, TodoStatus::Completed);
    assert_eq!(items[1].status, TodoStatus::InProgress);
    assert_eq!(items[2].status, TodoStatus::Pending);
    assert_eq!(count_completed(&items), 1);
    assert_eq!(todo_result_text(count_completed(&items), items.len()), "Todo list updated (1/3 completed)");
}

#[test]
fn completed_count_ignores_other_statuses() {
    let items = vec![
        TodoItem { content: "a".to_string(), status: TodoStatus::Pending },
        TodoItem { content: "b".to_string(), status: TodoStatus::Completed },
        TodoItem { content: "c".to_string(), status: TodoStatus::Completed },
    ];
    assert_eq!(count_completed(&items), 2);
}

// ── The user message ─────────────────────────────────────────────────────

#[test]
fn user_content_carries_file_context_first() {
    assert_eq!(user_message_content("fix it", None), "fix it");
    assert_eq!(
        user_message_content("fix it", Some("<file>...</file>")),
        "<file>...</file>\n\nUser request: fix it"
    );
}

// ── Provider tools ───────────────────────────────────────────────────────

#[test]
fn tool_info_prefixed_name() {
    let mut registry = McpToolRegistry::new();
    registry.register("myserver", "read", "Read a resource".to_string(), json("{\"type\": \"object\"}"));
    assert!(registry.is_mcp_tool("mcp__myserver__read"));
    assert!(!registry.is_mcp_tool("mcp__other__read"));
    let defs = registry.tool_definitions();
    assert_eq!(defs.len(), 1);
    let name = defs[0].get("function").unwrap().get("name").unwrap().as_str().unwrap();
    assert_eq!(name, "mcp__myserver__read");
}

#[test]
fn mcp_manager_new_is_empty() {
    let registry = McpToolRegistry::new();
    assert_eq!(registry.len(), 0);
}

#[test]
fn is_mcp_tool_false_for_unknown() {
    let registry = McpToolRegistry::new();
    assert!(!registry.is_mcp_tool("bash"));
    assert!(!registry.is_mcp_tool("read_file"));
}

#[test]
fn get_tool_definitions_empty() {
    let registry = McpToolRegistry::new();
    assert!(registry.tool_definitions().is_empty());
}

#[test]
fn prefixed_names_are_collision_free() {
    let a = prefixed_tool_name("serverA", "read");
    let b = prefixed_tool_name("serverB", "read");
    assert_eq!(a, "mcp__serverA__read");
    assert_eq!(b, "mcp__serverB__read");
    assert_ne!(a, b);
}

#[test]
fn provider_routing_finds_the_origin() {
    let mut registry = McpToolRegistry::new();
    registry.register("alpha", "search", "".to_string(), json("{}"));
    let (server, tool) = registry.route("mcp__alpha__search").unwrap();
    assert_eq!(server, "alpha");
    assert_eq!(tool, "search");
    assert!(registry.route("mcp__beta__search").is_none());
}

#[test]
fn provider_description_is_prefixed() {
    assert_eq!(mcp_description("srv", "does things"), "[MCP:srv] does things");
}

#[test]
fn frame_encoding_and_header_parsing() {
    assert_eq!(encode_frame("{\"id\":1}"), "Content-Length: 8\r\n\r\n{\"id\":1}");
    assert_eq!(parse_content_length("Content-Length: 42"), Some(42));
    assert_eq!(parse_content_length("Content-Length:7"), Some(7));
    assert_eq!(parse_content_length("{\"id\":1}"), None);
}

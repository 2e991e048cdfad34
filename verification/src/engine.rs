//! The decisions of the agentic turn loop: merging structured and fallback
//! tool calls, deriving the user-facing content, sanitizing arguments,
//! classifying and ordering tool executions, and the interactive-question
//! and task-list tools.

use vstd::prelude::*;

use crate::args::coerce_arg;
use crate::jsonval::{
    jarr, jbool, jget, jstr, json_object, json_parse, json_parses, json_to_string,
};
use crate::parser::ParsedToolCall;
use crate::stream::{AccumulatedToolCall, ToolCallFunction};
use crate::text::{
    append_chars, chars_of, spec_u64_dec, string_from_chars, str_eq, u64_to_dec,
};
use crate::toolkit::ToolExecutionResult;
use crate::history::HistoryMessage;
use crate::Mode;

verus! {

/// A question the agent asks the user interactively.
#[derive(Debug, Clone)]
pub struct AgentQuestion {
    pub header: String,
    pub question: String,
    pub options: Vec<String>,
    pub allow_custom: bool,
}

/// One or more questions awaiting one textual answer each.
#[derive(Debug, Clone)]
pub struct AgentQuestionBatch {
    pub questions: Vec<AgentQuestion>,
}

/// Status of a task-list item.
#[derive(Debug, Clone, PartialEq, Eq, Structural)]
pub enum TodoStatus {
    Pending,
    InProgress,
    Completed,
}

/// A single item of the task list.
#[derive(Debug, Clone)]
pub struct TodoItem {
    pub content: String,
    pub status: TodoStatus,
}

/// The final assistant message after streaming completes.
#[derive(Debug, Clone)]
pub struct FinalMessage {
    pub content: String,
    pub reasoning: String,
    pub tool_calls: Vec<AccumulatedToolCall>,
}

/// A message in the outgoing-request shape.
#[derive(Debug, Clone)]
pub struct ChatMessage {
    pub role: String,
    pub content: String,
    pub reasoning: Option<String>,
    pub tool_calls: Option<Vec<AccumulatedToolCall>>,
    pub tool_call_id: Option<String>,
    pub name: Option<String>,
}

/// Events the engine emits for the interface layer.
#[derive(Debug, Clone)]
pub enum ChatEvent {
    StreamStart,
    ReasoningChunk(String),
    ContentChunk(String),
    ToolCallsUpdate(Vec<AccumulatedToolCall>),
    StreamEnd(FinalMessage),
    ToolExecutionStart { id: String, name: String },
    ToolExecutionDone { id: String, name: String, result: String },
    Error(String),
    TokenUsage { prompt_tokens: u64, completion_tokens: u64, total_tokens: u64 },
    AskUser(AgentQuestionBatch),
    TodoUpdate(Vec<TodoItem>),
    ContextCompressed { original_tokens: u64, compressed_tokens: u64 },
}

// ── Merging structured and fallback tool calls ───────────────────────────

/// The locally synthesized id of the `k`-th fallback-parsed call.
pub open spec fn spec_fallback_id(timestamp_ms: int, k: int) -> Seq<char> {
    "xml_tc_"@ + spec_u64_dec(timestamp_ms) + "_"@ + spec_u64_dec(k)
}

/// Build the synthesized id `xml_tc_{timestamp}_{ordinal}`.
pub fn fallback_id(timestamp_ms: u64, k: u64) -> (r: String)
    ensures
        r@ == spec_fallback_id(timestamp_ms as int, k as int),
{
    let mut out = chars_of("xml_tc_");
    let ts = u64_to_dec(timestamp_ms);
    append_chars(&mut out, ts.as_slice());
    let us = chars_of("_");
    append_chars(&mut out, us.as_slice());
    let kd = u64_to_dec(k);
    append_chars(&mut out, kd.as_slice());
    string_from_chars(out.as_slice())
}

/// Turn one fallback-parsed call into the accumulated shape: the synthesized
/// id, the parsed name, and the arguments coerced to typed JSON and
/// serialized.
fn fallback_call(tc: &ParsedToolCall, timestamp_ms: u64, k: u64) -> (r: AccumulatedToolCall)
    ensures
        r@.id == spec_fallback_id(timestamp_ms as int, k as int),
        r@.name == tc@.name,
        r.call_type@ == "function"@,
{
    let mut pairs: Vec<(String, serde_json::Value)> = Vec::new();
    let mut i: usize = 0;
    while i < tc.arguments.len()
        decreases tc.arguments@.len() - i,
    {
        let key = tc.arguments[i].0.clone();
        let coerced = coerce_arg(tc.arguments[i].1.as_str());
        pairs.push((key, coerced));
        i += 1;
    }
    let args_value = json_object(pairs);
    AccumulatedToolCall {
        id: fallback_id(timestamp_ms, k),
        call_type: string_from_chars(chars_of("function").as_slice()),
        function: ToolCallFunction {
            name: tc.name.clone(),
            arguments: json_to_string(&args_value),
        },
    }
}

/// Merge the structured calls with the fallback parse: structured calls take
/// precedence; only when the model sent none do the fallback-parsed calls
/// stand, each under a synthesized id carrying its ordinal.
pub fn merge_tool_calls(
    structured: Vec<AccumulatedToolCall>,
    parsed: &Vec<ParsedToolCall>,
    timestamp_ms: u64,
) -> (r: Vec<AccumulatedToolCall>)
    ensures
        structured@.len() > 0 ==> r@ == structured@,
        structured@.len() == 0 ==> ({
            &&& r@.len() == parsed@.len()
            &&& forall|k: int|
                0 <= k < r@.len() ==> (#[trigger] r@[k])@.name == parsed@[k]@.name && r@[k]@.id
                    == spec_fallback_id(timestamp_ms as int, k)
        }),
{
    if structured.len() > 0 {
        return structured;
    }
    let mut r: Vec<AccumulatedToolCall> = Vec::new();
    let mut i: usize = 0;
    while i < parsed.len()
        invariant
            0 <= i <= parsed@.len(),
            i <= u64::MAX,
            r@.len() == i,
            forall|k: int|
                0 <= k < i ==> (#[trigger] r@[k])@.name == parsed@[k]@.name && r@[k]@.id
                    == spec_fallback_id(timestamp_ms as int, k),
        decreases parsed@.len() - i,
    {
        let call = fallback_call(&parsed[i], timestamp_ms, i as u64);
        r.push(call);
        i += 1;
    }
    r
}

// ── The user-facing content of an assistant turn ─────────────────────────

/// The content shown for an assistant turn: the parsed content when
/// anything parsed or calls exist; a truncation notice with a 500-character
/// excerpt when raw text exists but nothing parsed; an explicit
/// empty-response notice, naming the finish reason when known, otherwise.
pub open spec fn spec_final_content(
    parsed_content: Seq<char>,
    n_calls: int,
    raw_content: Seq<char>,
    finish_reason: Seq<char>,
) -> Seq<char> {
    if parsed_content.len() > 0 || n_calls > 0 {
        parsed_content
    } else if raw_content.len() > 0 {
        "[Response truncated - the model's output was cut off mid-tool-call]\n\n"@
            + (if raw_content.len() > 500 {
            raw_content.take(500)
        } else {
            raw_content
        })
    } else {
        "[Empty response from API - the model returned nothing"@ + (if finish_reason.len() == 0 {
            Seq::<char>::empty()
        } else {
            " (finish_reason: "@ + finish_reason + ")"@
        }) + "]"@
    }
}

/// Derive the user-facing content of an assistant turn.
pub fn derive_final_content(
    parsed_content: &str,
    n_calls: usize,
    raw_content: &str,
    finish_reason: &str,
) -> (r: String)
    ensures
        r@ == spec_final_content(parsed_content@, n_calls as int, raw_content@, finish_reason@),
{
    let pv = chars_of(parsed_content);
    let rv = chars_of(raw_content);
    if pv.len() > 0 || n_calls > 0 {
        return string_from_chars(pv.as_slice());
    }
    if rv.len() > 0 {
        let mut out = chars_of("[Response truncated - the model's output was cut off mid-tool-call]\n\n");
        if rv.len() > 500 {
            let excerpt = crate::text::slice_range_to_vec(rv.as_slice(), 0, 500);
            append_chars(&mut out, excerpt.as_slice());
        } else {
            append_chars(&mut out, rv.as_slice());
        }
        return string_from_chars(out.as_slice());
    }
    let mut out = chars_of("[Empty response from API - the model returned nothing");
    let fv = chars_of(finish_reason);
    if fv.len() > 0 {
        let mid = chars_of(" (finish_reason: ");
        append_chars(&mut out, mid.as_slice());
        append_chars(&mut out, fv.as_slice());
        let close = chars_of(")");
        append_chars(&mut out, close.as_slice());
    }
    let bracket = chars_of("]");
    append_chars(&mut out, bracket.as_slice());
    proof {
        if fv@.len() == 0 {
            assert(out@ =~= "[Empty response from API - the model returned nothing"@
                + Seq::<char>::empty() + "]"@);
        } else {
            assert(out@ =~= "[Empty response from API - the model returned nothing"@
                + (" (finish_reason: "@ + finish_reason@ + ")"@) + "]"@);
        }
    }
    string_from_chars(out.as_slice())
}

// ── Sanitizing persisted tool calls ──────────────────────────────────────

/// Copies of the calls with any argument text that is not valid JSON
/// replaced by an empty object, so history only ever holds parseable
/// arguments.
pub fn sanitize_tool_calls(calls: &Vec<AccumulatedToolCall>) -> (r: Vec<AccumulatedToolCall>)
    ensures
        r@.len() == calls@.len(),
        forall|k: int|
            0 <= k < r@.len() ==> {
                &&& (#[trigger] r@[k])@.id == calls@[k]@.id
                &&& r@[k]@.name == calls@[k]@.name
                &&& (json_parses(calls@[k]@.args) ==> r@[k]@.args == calls@[k]@.args)
                &&& (!json_parses(calls@[k]@.args) ==> r@[k]@.args == "{}"@)
            },
{
    let mut r: Vec<AccumulatedToolCall> = Vec::new();
    let mut i: usize = 0;
    while i < calls.len()
        invariant
            0 <= i <= calls@.len(),
            r@.len() == i,
            forall|k: int|
                0 <= k < i ==> {
                    &&& (#[trigger] r@[k])@.id == calls@[k]@.id
                    &&& r@[k]@.name == calls@[k]@.name
                    &&& (json_parses(calls@[k]@.args) ==> r@[k]@.args == calls@[k]@.args)
                    &&& (!json_parses(calls@[k]@.args) ==> r@[k]@.args == "{}"@)
                },
        decreases calls@.len() - i,
    {
        let tc = &calls[i];
        let ok = json_parse(tc.function.arguments.as_str());
        let args: String = match ok {
            Some(_) => tc.function.arguments.clone(),
            None => string_from_chars(chars_of("{}").as_slice()),
        };
        r.push(
            AccumulatedToolCall {
                id: tc.id.clone(),
                call_type: tc.call_type.clone(),
                function: ToolCallFunction { name: tc.function.name.clone(), arguments: args },
            },
        );
        i += 1;
    }
    r
}

// ── Classifying tool calls ───────────────────────────────────────────────

/// How a tool call is resolved: blocking on the user, replacing the task
/// list, routed to a provider, or executed as a regular tool.
#[derive(Debug, Clone, Copy, PartialEq, Eq, Structural)]
pub enum ToolCallKind {
    Interactive,
    TaskList,
    Provider,
    Regular,
}

/// The resolution rule by name: `ask_user` blocks on the user, `todo_write`
/// replaces the task list, a `mcp__` prefix routes to a provider, and
/// everything else runs as a regular tool.
pub open spec fn spec_tool_kind(name: Seq<char>) -> ToolCallKind {
    if name == "ask_user"@ {
        ToolCallKind::Interactive
    } else if name == "todo_write"@ {
        ToolCallKind::TaskList
    } else if crate::toolkit::spec_is_mcp_name(name) {
        ToolCallKind::Provider
    } else {
        ToolCallKind::Regular
    }
}

/// Classify one tool call by name.
pub fn classify_tool_call(name: &str) -> (r: ToolCallKind)
    ensures
        r == spec_tool_kind(name@),
{
    if str_eq(name, "ask_user") {
        ToolCallKind::Interactive
    } else if str_eq(name, "todo_write") {
        ToolCallKind::TaskList
    } else if crate::toolkit::is_mcp_name(name) {
        ToolCallKind::Provider
    } else {
        ToolCallKind::Regular
    }
}

// ── Ordering tool results ────────────────────────────────────────────────

/// Position-indexed slots that collect concurrently computed tool results,
/// so that history commits them in original call order whatever order they
/// complete in.
pub struct ResultSlots {
    pub slots: Vec<Option<(String, String, ToolExecutionResult)>>,
}

impl ResultSlots {
    /// One empty slot per pending call.
    pub fn new(n: usize) -> (r: ResultSlots)
        ensures
            r.slots@.len() == n,
            forall|k: int| 0 <= k < n ==> r.slots@[k] is None,
    {
        let mut slots: Vec<Option<(String, String, ToolExecutionResult)>> = Vec::new();
        let mut i: usize = 0;
        while i < n
            invariant
                0 <= i <= n,
                slots@.len() == i,
                forall|k: int| 0 <= k < i ==> slots@[k] is None,
            decreases n - i,
        {
            slots.push(None);
            i += 1;
        }
        ResultSlots { slots }
    }

    /// Record the result of the call at position `i`; every other slot is
    /// untouched, so the fill order never matters.
    pub fn fill(&mut self, i: usize, id: String, name: String, result: ToolExecutionResult)
        requires
            i < old(self).slots@.len(),
        ensures
            final(self).slots@.len() == old(self).slots@.len(),
            final(self).slots@[i as int] matches Some(entry) && entry.0 == id && entry.1 == name
                && entry.2 == result,
            forall|k: int|
                0 <= k < old(self).slots@.len() && k != i ==> final(self).slots@[k] == old(
                    self,
                ).slots@[k],
    {
        self.slots.set(i, Some((id, name, result)));
    }

    /// Hand the results out strictly in original call order; a slot whose
    /// unit never reported gets a missing-result error under its call's id
    /// and name.
    pub fn take_ordered(&self, calls: &Vec<AccumulatedToolCall>) -> (r: Vec<
        (String, String, ToolExecutionResult),
    >)
        requires
            calls@.len() == self.slots@.len(),
        ensures
            r@.len() == self.slots@.len(),
            forall|k: int|
                0 <= k < r@.len() ==> match self.slots@[k] {
                    Some(entry) => #[trigger] r@[k] == entry,
                    None => r@[k].0@ == calls@[k]@.id && r@[k].1@ == calls@[k]@.name
                        && r@[k].2.result@ == "Error: tool result missing"@,
                },
    {
        let mut r: Vec<(String, String, ToolExecutionResult)> = Vec::new();
        let mut i: usize = 0;
        while i < self.slots.len()
            invariant
                0 <= i <= self.slots@.len(),
                calls@.len() == self.slots@.len(),
                r@.len() == i,
                forall|k: int|
                    0 <= k < i ==> match self.slots@[k] {
                        Some(entry) => #[trigger] r@[k] == entry,
                        None => r@[k].0@ == calls@[k]@.id && r@[k].1@ == calls@[k]@.name
                            && r@[k].2.result@ == "Error: tool result missing"@,
                    },
            decreases self.slots@.len() - i,
        {
            match &self.slots[i] {
                Some(entry) => {
                    r.push((entry.0.clone(), entry.1.clone(), entry.2.duplicate()));
                },
                None => {
                    let tc = &calls[i];
                    r.push(
                        (
                            tc.id.clone(),
                            tc.function.name.clone(),
                            ToolExecutionResult::text(
                                string_from_chars(chars_of("Error: tool result missing").as_slice()),
                            ),
                        ),
                    );
                },
            }
            i += 1;
        }
        r
    }
}

/// Filling two different slots commutes: the collected results depend only
/// on call positions, never on the order units complete in.
pub proof fn lemma_fill_order_irrelevant<T>(s: Seq<Option<T>>, i: int, j: int, a: T, b: T)
    requires
        0 <= i < s.len(),
        0 <= j < s.len(),
        i != j,
    ensures
        s.update(i, Some(a)).update(j, Some(b)) == s.update(j, Some(b)).update(i, Some(a)),
{
    assert(s.update(i, Some(a)).update(j, Some(b)) =~= s.update(j, Some(b)).update(i, Some(a)));
}

// ── The interactive-question tool ────────────────────────────────────────

/// The text an interactive question resolves to: the user's answer when the
/// reply channel delivered one, a no-response sentinel when it was dropped,
/// and a cancellation sentinel when the turn was cancelled while waiting.
pub open spec fn spec_question_answer(reply: Option<Seq<char>>, cancelled: bool) -> Seq<char> {
    if cancelled {
        "Cancelled by user"@
    } else {
        match reply {
            Some(a) => a,
            None => "No response (cancelled)"@,
        }
    }
}

/// Resolve what a question's reply channel yielded into an answer text.
pub fn question_answer(reply: Option<String>, cancelled: bool) -> (r: String)
    ensures
        r@ == spec_question_answer(
            match reply {
                Some(a) => Some(a@),
                None => None,
            },
            cancelled,
        ),
{
    if cancelled {
        string_from_chars(chars_of("Cancelled by user").as_slice())
    } else {
        match reply {
            Some(a) => a,
            None => string_from_chars(chars_of("No response (cancelled)").as_slice()),
        }
    }
}

/// The tool-role history text for an answered question.
pub fn ask_user_history_text(answer: &str) -> (r: String)
    ensures
        r@ == "User responded: "@ + answer@,
{
    let mut out = chars_of("User responded: ");
    let av = chars_of(answer);
    append_chars(&mut out, av.as_slice());
    string_from_chars(out.as_slice())
}

/// The tool-role history entry for one tool result.
pub fn tool_result_message(tool_call_id: &str, content: &str) -> (r: HistoryMessage)
    ensures
        r@.role == "tool"@,
        r@.content == content@,
        r@.tool_call_id == Some(tool_call_id@),
{
    let mut m = HistoryMessage::plain("tool", content);
    m.tool_call_id = Some(string_from_chars(chars_of(tool_call_id).as_slice()));
    m
}

/// Read the interactive-question payload out of tool arguments: a batch
/// under `questions`, or the one legacy single question; absent fields fall
/// back to a generic question with custom answers allowed.
pub fn parse_question_args(args: &serde_json::Value) -> (r: AgentQuestionBatch) {
    let mut questions: Vec<AgentQuestion> = Vec::new();
    match jget(args, "questions") {
        Some(qs) => {
            match jarr(qs) {
                Some(items) => {
                    let mut i: usize = 0;
                    while i < items.len()
                        decreases items@.len() - i,
                    {
                        questions.push(parse_one_question(&items[i]));
                        i += 1;
                    }
                },
                None => {},
            }
        },
        None => {},
    }
    if questions.len() == 0 {
        questions.push(parse_one_question(args));
    }
    AgentQuestionBatch { questions }
}

/// Read one question object.
fn parse_one_question(v: &serde_json::Value) -> AgentQuestion {
    let header = match jget(v, "header") {
        Some(h) => match jstr(h) {
            Some(s) => s,
            None => string_from_chars(chars_of("Question").as_slice()),
        },
        None => string_from_chars(chars_of("Question").as_slice()),
    };
    let question = match jget(v, "question") {
        Some(q) => match jstr(q) {
            Some(s) => s,
            None => string_from_chars(chars_of("What would you like to do?").as_slice()),
        },
        None => string_from_chars(chars_of("What would you like to do?").as_slice()),
    };
    let mut options: Vec<String> = Vec::new();
    match jget(v, "options") {
        Some(os) => {
            match jarr(os) {
                Some(items) => {
                    let mut i: usize = 0;
                    while i < items.len()
                        decreases items@.len() - i,
                    {
                        match jstr(&items[i]) {
                            Some(s) => options.push(s),
                            None => {},
                        }
                        i += 1;
                    }
                },
                None => {},
            }
        },
        None => {},
    }
    let allow_custom = match jget(v, "allow_custom") {
        Some(ac) => match jbool(ac) {
            Some(b) => b,
            None => true,
        },
        None => true,
    };
    AgentQuestion { header, question, options, allow_custom }
}

// ── The task-list tool ───────────────────────────────────────────────────

/// The status a stored status word reads as; anything unrecognized is
/// pending.
pub open spec fn spec_status_of(s: Seq<char>) -> TodoStatus {
    if s == "in_progress"@ {
        TodoStatus::InProgress
    } else if s == "completed"@ {
        TodoStatus::Completed
    } else {
        TodoStatus::Pending
    }
}

/// Read a status word.
pub fn status_of_str(s: &str) -> (r: TodoStatus)
    ensures
        r == spec_status_of(s@),
{
    if str_eq(s, "in_progress") {
        TodoStatus::InProgress
    } else if str_eq(s, "completed") {
        TodoStatus::Completed
    } else {
        TodoStatus::Pending
    }
}

/// Read the full replacement task list out of tool arguments; entries
/// without a content text are dropped, and a missing status reads pending.
pub fn parse_todo_args(args: &serde_json::Value) -> (r: Vec<TodoItem>) {
    let mut items: Vec<TodoItem> = Vec::new();
    match jget(args, "todos") {
        Some(ts) => {
            match jarr(ts) {
                Some(list) => {
                    let mut i: usize = 0;
                    while i < list.len()
                        decreases list@.len() - i,
                    {
                        let item = &list[i];
                        match jget(item, "content") {
                            Some(c) => {
                                match jstr(c) {
                                    Some(content) => {
                                        let status = match jget(item, "status") {
                                            Some(sv) => match jstr(sv) {
                                                Some(s) => status_of_str(s.as_str()),
                                                None => TodoStatus::Pending,
                                            },
                                            None => TodoStatus::Pending,
                                        };
                                        items.push(TodoItem { content, status });
                                    },
                                    None => {},
                                }
                            },
                            None => {},
                        }
                        i += 1;
                    }
                },
                None => {},
            }
        },
        None => {},
    }
    items
}

/// How many items of the list are completed.
pub open spec fn spec_count_completed(items: Seq<TodoItem>) -> int
    decreases items.len(),
{
    if items.len() == 0 {
        0
    } else {
        spec_count_completed(items.drop_last()) + (if items.last().status is Completed {
            1int
        } else {
            0int
        })
    }
}

/// Count the completed items.
pub fn count_completed(items: &Vec<TodoItem>) -> (r: usize)
    ensures
        r == spec_count_completed(items@),
        r <= items@.len(),
{
    let mut count: usize = 0;
    let mut i: usize = 0;
    while i < items.len()
        invariant
            0 <= i <= items@.len(),
            count == spec_count_completed(items@.take(i as int)),
            count <= i,
        decreases items@.len() - i,
    {
        proof {
            assert(items@.take(i + 1).drop_last() =~= items@.take(i as int));
            assert(items@.take(i + 1).last() == items@[i as int]);
        }
        match items[i].status {
            TodoStatus::Completed => {
                count += 1;
            },
            _ => {},
        }
        i += 1;
    }
    proof {
        assert(items@.take(items@.len() as int) =~= items@);
    }
    count
}

/// The immediate status text the task-list tool returns.
pub fn todo_result_text(completed: usize, total: usize) -> (r: String)
    ensures
        r@ == "Todo list updated ("@ + spec_u64_dec(completed as int) + "/"@ + spec_u64_dec(
            total as int,
        ) + " completed)"@,
{
    let mut out = chars_of("Todo list updated (");
    let cd = u64_to_dec(completed as u64);
    append_chars(&mut out, cd.as_slice());
    let slash = chars_of("/");
    append_chars(&mut out, slash.as_slice());
    let td = u64_to_dec(total as u64);
    append_chars(&mut out, td.as_slice());
    let tail = chars_of(" completed)");
    append_chars(&mut out, tail.as_slice());
    string_from_chars(out.as_slice())
}

// ── Reasoning and the user message ───────────────────────────────────────

/// Concatenation of all structured reasoning fragments.
pub open spec fn spec_concat_all(ss: Seq<Seq<char>>) -> Seq<char>
    decreases ss.len(),
{
    if ss.len() == 0 {
        Seq::empty()
    } else {
        spec_concat_all(ss.drop_last()) + ss.last()
    }
}

/// Combine the structured reasoning with the fallback-parsed reasoning:
/// whichever is empty gives way, and both join with a newline.
pub open spec fn spec_combined_reasoning(structured: Seq<char>, parsed: Seq<char>) -> Seq<char> {
    if structured.len() == 0 {
        parsed
    } else if parsed.len() == 0 {
        structured
    } else {
        structured + "\n"@ + parsed
    }
}

/// Combine structured reasoning fragments and the fallback parse.
pub fn combined_reasoning(details: &Vec<String>, parsed_reasoning: &str) -> (r: String)
    ensures
        r@ == spec_combined_reasoning(
            spec_concat_all(details@.map_values(|s: String| s@)),
            parsed_reasoning@,
        ),
{
    let ghost dv = details@.map_values(|s: String| s@);
    let mut acc: Vec<char> = Vec::new();
    let mut i: usize = 0;
    while i < details.len()
        invariant
            0 <= i <= details@.len(),
            dv == details@.map_values(|s: String| s@),
            dv.len() == details@.len(),
            acc@ == spec_concat_all(dv.take(i as int)),
        decreases details@.len() - i,
    {
        let sv = chars_of(details[i].as_str());
        append_chars(&mut acc, sv.as_slice());
        proof {
            assert(dv.take(i + 1).drop_last() =~= dv.take(i as int));
            assert(dv.take(i + 1).last() == dv[i as int]);
        }
        i += 1;
    }
    proof {
        assert(dv.take(dv.len() as int) =~= dv);
    }
    let pv = chars_of(parsed_reasoning);
    if acc.len() == 0 {
        return string_from_chars(pv.as_slice());
    }
    if pv.len() == 0 {
        return string_from_chars(acc.as_slice());
    }
    let nl = chars_of("\n");
    append_chars(&mut acc, nl.as_slice());
    append_chars(&mut acc, pv.as_slice());
    string_from_chars(acc.as_slice())
}

/// The content of an outgoing user message: the inline file context first,
/// then the user's own text under a request marker.
pub open spec fn spec_user_content(input: Seq<char>, file_context: Option<Seq<char>>) -> Seq<
    char,
> {
    match file_context {
        Some(ctx) => ctx + "\n\nUser request: "@ + input,
        None => input,
    }
}

/// Build the outgoing user message content.
pub fn user_message_content(input: &str, file_context: Option<&str>) -> (r: String)
    ensures
        r@ == spec_user_content(
            input@,
            match file_context {
                Some(c) => Some(c@),
                None => None,
            },
        ),
{
    match file_context {
        Some(ctx) => {
            let mut out = chars_of(ctx);
            let mid = chars_of("\n\nUser request: ");
            append_chars(&mut out, mid.as_slice());
            let iv = chars_of(input);
            append_chars(&mut out, iv.as_slice());
            string_from_chars(out.as_slice())
        },
        None => string_from_chars(chars_of(input).as_slice()),
    }
}

/// The assistant history entry for a finished turn: the raw unparsed
/// content plus the sanitized tool calls.
pub fn assistant_history_message(
    raw_content: &str,
    reasoning_details: &Vec<String>,
    sanitized_calls: Vec<AccumulatedToolCall>,
) -> (r: HistoryMessage)
    ensures
        r@.role == "assistant"@,
        r@.content == raw_content@,
        r.reasoning@ == reasoning_details@,
        r.tool_calls@ == sanitized_calls@,
        r@.tool_call_id is None,
{
    let mut m = HistoryMessage::plain("assistant", raw_content);
    m.reasoning = crate::stream::clone_strings(reasoning_details);
    m.tool_calls = sanitized_calls;
    m
}

// ── The system prompt ────────────────────────────────────────────────────

/// Opening of the read-only-mode system prompt, before the working
/// directory.
pub open spec fn spec_plan_prompt_head() -> Seq<char> {
    "You are a coding assistant in a terminal (READ-ONLY mode).\nWorking directory: "@
}

/// Rest of the read-only-mode system prompt.
pub open spec fn spec_plan_prompt_tail() -> Seq<char> {
    "\n\nAvailable tools: read_file, glob, grep, list_directory, web_search (read-only), ask_user, todo_write.\nYou CANNOT write, edit, or run commands. Tell the user to switch to BUILDER mode (Tab) for modifications.\nFocus on: analysis, planning, explaining code, suggesting strategies.\nUse ask_user to ask the user clarifying questions when you need more information to proceed.\nUse todo_write to create a task list when you have a plan ready, tracking progress on multi-step work."@
}

/// Opening of the full-access-mode system prompt.
pub open spec fn spec_builder_prompt_head() -> Seq<char> {
    "You are a coding assistant in a terminal.\nWorking directory: "@
}

/// Rest of the full-access-mode system prompt.
pub open spec fn spec_builder_prompt_tail() -> Seq<char> {
    "\n\nTOOL USAGE:\n- Read before editing: always use read_file before edit_file to see current content\n- Use edit_file for modifications to existing files, write_file only for new files\n- Use glob/grep to find files before reading them\n- Use bash for git, npm, and other CLI operations\n- Use web_search for current information, docs, or answers not in local files\n- Use ask_user when you need user clarification, confirmation, or to let the user choose between alternatives\n- Use todo_write to create and update a task list when working on multi-step tasks\n- Execute one logical step at a time, verify results, then proceed\n\nBe concise. Show relevant code, skip obvious explanations."@
}

/// The system prompt: the mode's instruction text around the working
/// directory, with the project instruction file appended when present.
pub open spec fn spec_system_prompt(mode: Mode, cwd: Seq<char>, agent_md: Option<Seq<char>>) -> Seq<
    char,
> {
    let base = match mode {
        Mode::Plan => spec_plan_prompt_head() + cwd + spec_plan_prompt_tail(),
        Mode::Builder => spec_builder_prompt_head() + cwd + spec_builder_prompt_tail(),
    };
    match agent_md {
        Some(extra) => base + "\n\n--- agent.md ---\n"@ + extra,
        None => base,
    }
}

/// Build the system prompt for the mode, working directory, and optional
/// project instruction file.
pub fn system_prompt_text(mode: Mode, cwd: &str, agent_md: Option<&str>) -> (r: String)
    ensures
        r@ == spec_system_prompt(
            mode,
            cwd@,
            match agent_md {
                Some(c) => Some(c@),
                None => None,
            },
        ),
{
    let mut out: Vec<char>;
    match mode {
        Mode::Plan => {
            out = chars_of(
                "You are a coding assistant in a terminal (READ-ONLY mode).\nWorking directory: ",
            );
            let cv = chars_of(cwd);
            append_chars(&mut out, cv.as_slice());
            let tail = chars_of(
                "\n\nAvailable tools: read_file, glob, grep, list_directory, web_search (read-only), ask_user, todo_write.\nYou CANNOT write, edit, or run commands. Tell the user to switch to BUILDER mode (Tab) for modifications.\nFocus on: analysis, planning, explaining code, suggesting strategies.\nUse ask_user to ask the user clarifying questions when you need more information to proceed.\nUse todo_write to create a task list when you have a plan ready, tracking progress on multi-step work.",
            );
            append_chars(&mut out, tail.as_slice());
        },
        Mode::Builder => {
            out = chars_of("You are a coding assistant in a terminal.\nWorking directory: ");
            let cv = chars_of(cwd);
            append_chars(&mut out, cv.as_slice());
            let tail = chars_of(
                "\n\nTOOL USAGE:\n- Read before editing: always use read_file before edit_file to see current content\n- Use edit_file for modifications to existing files, write_file only for new files\n- Use glob/grep to find files before reading them\n- Use bash for git, npm, and other CLI operations\n- Use web_search for current information, docs, or answers not in local files\n- Use ask_user when you need user clarification, confirmation, or to let the user choose between alternatives\n- Use todo_write to create and update a task list when working on multi-step tasks\n- Execute one logical step at a time, verify results, then proceed\n\nBe concise. Show relevant code, skip obvious explanations.",
            );
            append_chars(&mut out, tail.as_slice());
        },
    }
    match agent_md {
        Some(extra) => {
            let sep = chars_of("\n\n--- agent.md ---\n");
            append_chars(&mut out, sep.as_slice());
            let ev = chars_of(extra);
            append_chars(&mut out, ev.as_slice());
        },
        None => {},
    }
    string_from_chars(out.as_slice())
}

} // verus!

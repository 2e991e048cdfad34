//! Conversation history: token estimation, periodic compression of older
//! turns into a summary pair, and the always-applied per-request trimming.

use vstd::prelude::*;

use crate::stream::{AccumulatedToolCall, TcView};
use crate::text::{
    append_chars, chars_of, slice_range_to_vec, spec_join_sep, spec_u64_dec, string_from_chars,
    u64_to_dec,
};

verus! {

/// Estimated token budget above which older turns are summarized.
pub const COMPRESSION_THRESHOLD: u64 = 100_000;

/// How many of the most recent messages compression keeps verbatim.
pub const MESSAGES_TO_KEEP: usize = 10;

/// How many of the most recent messages the per-request trim leaves intact.
pub const RECENT_WINDOW: usize = 6;

/// One message of the conversation history.
#[derive(Debug, Clone)]
pub struct HistoryMessage {
    pub role: String,
    pub content: String,
    pub reasoning: Vec<String>,
    pub tool_calls: Vec<AccumulatedToolCall>,
    pub tool_call_id: Option<String>,
}

/// Spec-level shape of a history message.
pub ghost struct MsgView {
    pub role: Seq<char>,
    pub content: Seq<char>,
    pub reasoning: Seq<Seq<char>>,
    pub tool_calls: Seq<TcView>,
    pub tool_call_id: Option<Seq<char>>,
}

impl View for HistoryMessage {
    type V = MsgView;

    open spec fn view(&self) -> MsgView {
        MsgView {
            role: self.role@,
            content: self.content@,
            reasoning: self.reasoning@.map_values(|s: String| s@),
            tool_calls: self.tool_calls@.map_values(|tc: AccumulatedToolCall| tc@),
            tool_call_id: match self.tool_call_id {
                Some(ref s) => Some(s@),
                None => None,
            },
        }
    }
}

impl HistoryMessage {
    /// A plain message: a role and text, nothing else.
    pub fn plain(role: &str, content: &str) -> (r: HistoryMessage)
        ensures
            r@.role == role@,
            r@.content == content@,
            r@.reasoning.len() == 0,
            r@.tool_calls.len() == 0,
            r@.tool_call_id is None,
    {
        let r = HistoryMessage {
            role: string_from_chars(chars_of(role).as_slice()),
            content: string_from_chars(chars_of(content).as_slice()),
            reasoning: Vec::new(),
            tool_calls: Vec::new(),
            tool_call_id: None,
        };
        proof {
            assert(r@.reasoning =~= Seq::<Seq<char>>::empty());
            assert(r@.tool_calls =~= Seq::<TcView>::empty());
        }
        r
    }
}

/// Saturating addition on the token scale.
pub open spec fn sat_add(a: int, b: int) -> int {
    if a + b > u64::MAX {
        u64::MAX as int
    } else {
        a + b
    }
}

/// How many characters one character takes inside a serialized JSON string:
/// quotes and backslashes escape to two, the short control escapes to two,
/// other control characters to a six-character escape, everything else to
/// itself.
pub open spec fn json_escaped_len(c: char) -> int {
    if c == '"' || c == '\\' {
        2
    } else if c == '\u{8}' || c == '\t' || c == '\n' || c == '\u{c}' || c == '\r' {
        2
    } else if (c as u32) < 32 {
        6
    } else {
        1
    }
}

/// The serialized length of a JSON string: its characters escaped, between
/// two quotes.
pub open spec fn json_string_len(s: Seq<char>) -> int
    decreases s.len(),
{
    if s.len() == 0 {
        2
    } else {
        sat_add(json_string_len(s.drop_last()), json_escaped_len(s.last()))
    }
}

/// The serialized length of the reasoning fragments, in the wire shape the
/// history stores: one text-keyed object per fragment, inside one array.
/// Absent reasoning serializes to nothing.
pub open spec fn reasoning_items_len(rs: Seq<Seq<char>>) -> int
    decreases rs.len(),
{
    if rs.len() == 0 {
        0
    } else {
        sat_add(reasoning_items_len(rs.drop_last()), sat_add(10, json_string_len(rs.last())))
    }
}

pub open spec fn reasoning_ser_len(rs: Seq<Seq<char>>) -> int {
    if rs.len() == 0 {
        0
    } else {
        sat_add(1, reasoning_items_len(rs))
    }
}

/// The serialized length of the tool calls, in the wire shape the history
/// stores: per call a function object holding arguments and name, the id,
/// and the fixed function type, inside one array. Absent calls serialize to
/// nothing.
pub open spec fn call_items_len(cs: Seq<TcView>) -> int
    decreases cs.len(),
{
    if cs.len() == 0 {
        0
    } else {
        sat_add(
            call_items_len(cs.drop_last()),
            sat_add(
                60,
                sat_add(
                    json_string_len(cs.last().id),
                    sat_add(json_string_len(cs.last().name), json_string_len(cs.last().args)),
                ),
            ),
        )
    }
}

pub open spec fn calls_ser_len(cs: Seq<TcView>) -> int {
    if cs.len() == 0 {
        0
    } else {
        sat_add(1, call_items_len(cs))
    }
}

/// The token estimate of one message: its content characters plus the
/// serialized lengths of its reasoning and tool calls, at four characters
/// per token.
pub open spec fn msg_tokens(m: MsgView) -> int {
    sat_add(
        sat_add(m.content.len() as int, reasoning_ser_len(m.reasoning)),
        calls_ser_len(m.tool_calls),
    ) / 4
}

/// The token estimate of a history: the per-message estimates summed.
pub open spec fn history_tokens(h: Seq<MsgView>) -> int
    decreases h.len(),
{
    if h.len() == 0 {
        0
    } else {
        sat_add(history_tokens(h.drop_last()), msg_tokens(h.last()))
    }
}

/// Saturating add on `u64`.
fn sat_add_u64(a: u64, b: u64) -> (r: u64)
    ensures
        r as int == sat_add(a as int, b as int),
{
    if a > u64::MAX - b {
        u64::MAX
    } else {
        a + b
    }
}

/// The serialized length of one string value.
fn json_string_weight(s: &String) -> (r: u64)
    ensures
        r as int == json_string_len(s@),
{
    let v = chars_of(s.as_str());
    let mut total: u64 = 2;
    let mut i: usize = 0;
    while i < v.len()
        invariant
            0 <= i <= v@.len(),
            v@ == s@,
            total as int == json_string_len(s@.take(i as int)),
        decreases v@.len() - i,
    {
        let c = v[i];
        let cl: u64 = if c == '"' || c == '\\' {
            2
        } else if c == '\u{8}' || c == '\t' || c == '\n' || c == '\u{c}' || c == '\r' {
            2
        } else if (c as u32) < 32 {
            6
        } else {
            1
        };
        proof {
            assert(s@.take(i + 1).drop_last() =~= s@.take(i as int));
            assert(s@.take(i + 1).last() == s@[i as int]);
            assert(cl as int == json_escaped_len(s@[i as int]));
        }
        total = sat_add_u64(total, cl);
        i += 1;
    }
    proof {
        assert(s@.take(s@.len() as int) =~= s@);
    }
    total
}

/// Estimate the token count of the whole history: per message, the content
/// characters plus the wire lengths of the serialized reasoning and
/// tool-call structures, divided by four, summed.
pub fn estimate_history_tokens(history: &Vec<HistoryMessage>) -> (r: u64)
    ensures
        r as int == history_tokens(history@.map_values(|m: HistoryMessage| m@)),
{
    let ghost hv = history@.map_values(|m: HistoryMessage| m@);
    let mut total: u64 = 0;
    let mut i: usize = 0;
    while i < history.len()
        invariant
            0 <= i <= history@.len(),
            hv == history@.map_values(|m: HistoryMessage| m@),
            hv.len() == history@.len(),
            total as int == history_tokens(hv.take(i as int)),
        decreases history@.len() - i,
    {
        let m = &history[i];
        let content_chars = chars_of(m.content.as_str());
        let mut w: u64 = content_chars.len() as u64;
        let ghost rv = m@.reasoning;
        let mut j: usize = 0;
        let mut ritems: u64 = 0;
        while j < m.reasoning.len()
            invariant
                0 <= j <= m.reasoning@.len(),
                rv == m@.reasoning,
                rv.len() == m.reasoning@.len(),
                forall|k: int| 0 <= k < rv.len() ==> rv[k] == m.reasoning@[k]@,
                ritems as int == reasoning_items_len(rv.take(j as int)),
            decreases m.reasoning@.len() - j,
        {
            let jsl = json_string_weight(&m.reasoning[j]);
            proof {
                assert(rv.take(j + 1).drop_last() =~= rv.take(j as int));
                assert(rv.take(j + 1).last() == rv[j as int]);
            }
            ritems = sat_add_u64(ritems, sat_add_u64(10, jsl));
            j += 1;
        }
        proof {
            assert(rv.take(rv.len() as int) =~= rv);
        }
        let rlen: u64 = if m.reasoning.len() == 0 {
            0
        } else {
            sat_add_u64(1, ritems)
        };
        let ghost cv = m@.tool_calls;
        let mut k: usize = 0;
        let mut citems: u64 = 0;
        while k < m.tool_calls.len()
            invariant
                0 <= k <= m.tool_calls@.len(),
                cv == m@.tool_calls,
                cv.len() == m.tool_calls@.len(),
                forall|x: int| 0 <= x < cv.len() ==> cv[x] == m.tool_calls@[x]@,
                citems as int == call_items_len(cv.take(k as int)),
            decreases m.tool_calls@.len() - k,
        {
            let tc = &m.tool_calls[k];
            let idw = json_string_weight(&tc.id);
            let namew = json_string_weight(&tc.function.name);
            let argsw = json_string_weight(&tc.function.arguments);
            proof {
                assert(cv.take(k + 1).drop_last() =~= cv.take(k as int));
                assert(cv.take(k + 1).last() == cv[k as int]);
            }
            let one = sat_add_u64(60, sat_add_u64(idw, sat_add_u64(namew, argsw)));
            citems = sat_add_u64(citems, one);
            k += 1;
        }
        proof {
            assert(cv.take(cv.len() as int) =~= cv);
        }
        let clen: u64 = if m.tool_calls.len() == 0 {
            0
        } else {
            sat_add_u64(1, citems)
        };
        w = sat_add_u64(w, rlen);
        w = sat_add_u64(w, clen);
        let mt = w / 4;
        proof {
            assert(hv.take(i + 1).drop_last() =~= hv.take(i as int));
            assert(hv.take(i + 1).last() == hv[i as int]);
            assert(mt as int == msg_tokens(hv[i as int]));
        }
        total = sat_add_u64(total, mt);
        i += 1;
    }
    proof {
        assert(hv.take(hv.len() as int) =~= hv);
    }
    total
}

/// Where compression cuts the history: everything before the cut is
/// summarized, the rest stays. Histories whose estimate is under the
/// threshold, and histories that are nothing but the keep window, are left
/// alone.
pub open spec fn spec_compression_cut(h: Seq<MsgView>) -> Option<int> {
    if history_tokens(h) < COMPRESSION_THRESHOLD {
        None
    } else {
        let keep = if h.len() < MESSAGES_TO_KEEP {
            h.len() as int
        } else {
            MESSAGES_TO_KEEP as int
        };
        if h.len() - keep == 0 {
            None
        } else {
            Some(h.len() - keep)
        }
    }
}

/// Decide whether and where to compress.
pub fn compression_cut(history: &Vec<HistoryMessage>) -> (r: Option<usize>)
    ensures
        ({
            let hv = history@.map_values(|m: HistoryMessage| m@);
            match r {
                Some(sp) => spec_compression_cut(hv) == Some(sp as int),
                None => spec_compression_cut(hv) is None,
            }
        }),
{
    let est = estimate_history_tokens(history);
    if est < COMPRESSION_THRESHOLD {
        return None;
    }
    let keep: usize = if history.len() < MESSAGES_TO_KEEP {
        history.len()
    } else {
        MESSAGES_TO_KEEP
    };
    let sp = history.len() - keep;
    if sp == 0 {
        None
    } else {
        Some(sp)
    }
}

/// One transcript line of the summarization prompt: `[role]: ` and the
/// message text capped at 500 characters.
pub open spec fn spec_transcript_line(m: MsgView) -> Seq<char> {
    let capped = if m.content.len() > 500 {
        m.content.take(500)
    } else {
        m.content
    };
    "["@ + m.role + "]: "@ + capped
}

/// The condensed transcript of the messages before the cut, one line each.
pub fn summary_transcript(history: &Vec<HistoryMessage>, split_point: usize) -> (r: String)
    requires
        split_point <= history@.len(),
    ensures
        ({
            let hv = history@.map_values(|m: HistoryMessage| m@);
            r@ == spec_join_sep(
                hv.take(split_point as int).map_values(|m: MsgView| spec_transcript_line(m)),
                "\n"@,
            )
        }),
{
    let ghost hv = history@.map_values(|m: HistoryMessage| m@);
    let ghost lines = hv.take(split_point as int).map_values(
        |m: MsgView| spec_transcript_line(m),
    );
    let mut acc: Vec<char> = Vec::new();
    let mut i: usize = 0;
    while i < split_point
        invariant
            0 <= i <= split_point <= history@.len(),
            hv == history@.map_values(|m: HistoryMessage| m@),
            hv.len() == history@.len(),
            lines == hv.take(split_point as int).map_values(
                |m: MsgView| spec_transcript_line(m),
            ),
            lines.len() == split_point,
            acc@ == spec_join_sep(lines.take(i as int), "\n"@),
        decreases split_point - i,
    {
        if i > 0 {
            acc.push('\n');
        }
        let m = &history[i];
        let open = chars_of("[");
        append_chars(&mut acc, open.as_slice());
        let role = chars_of(m.role.as_str());
        append_chars(&mut acc, role.as_slice());
        let mid = chars_of("]: ");
        append_chars(&mut acc, mid.as_slice());
        let content = chars_of(m.content.as_str());
        if content.len() > 500 {
            let capped = slice_range_to_vec(content.as_slice(), 0, 500);
            append_chars(&mut acc, capped.as_slice());
        } else {
            append_chars(&mut acc, content.as_slice());
        }
        proof {
            reveal_strlit("\n");
            assert(seq!['\n'] =~= "\n"@);
            assert(lines[i as int] == spec_transcript_line(hv[i as int]));
            assert(lines.take(i + 1).drop_last() =~= lines.take(i as int));
            assert(lines.take(i + 1).last() == lines[i as int]);
            assert(acc@ =~= spec_join_sep(lines.take(i + 1), "\n"@));
        }
        i += 1;
    }
    proof {
        assert(lines.take(split_point as int) =~= lines);
    }
    string_from_chars(acc.as_slice())
}

/// The fixed summarization instruction, with the transcript appended.
pub fn summary_prompt(transcript: &str) -> (r: String)
    ensures
        r@ == spec_summary_prompt_head() + transcript@,
{
    let mut out = chars_of(
        "Summarize this coding assistant conversation history concisely. Preserve:\n- Key decisions and context\n- Files that were read or modified and their purposes\n- Current task state and progress\n- Important code patterns or bugs found\n\nConversation:\n",
    );
    let tv = chars_of(transcript);
    append_chars(&mut out, tv.as_slice());
    string_from_chars(out.as_slice())
}

/// The instruction text of the summarization prompt.
pub open spec fn spec_summary_prompt_head() -> Seq<char> {
    "Summarize this coding assistant conversation history concisely. Preserve:\n- Key decisions and context\n- Files that were read or modified and their purposes\n- Current task state and progress\n- Important code patterns or bugs found\n\nConversation:\n"@
}

/// Replace everything before the cut with a two-message summary pair: a
/// user-role message holding the summary and an assistant acknowledgment,
/// followed by the kept recent messages unchanged. The compressed history
/// holds exactly 2 + (len - cut) messages and none of the replaced ones.
pub fn apply_compression(history: &Vec<HistoryMessage>, split_point: usize, summary: &str) -> (r:
    Vec<HistoryMessage>)
    requires
        split_point <= history@.len(),
    ensures
        r@.len() == 2 + history@.len() - split_point as int,
        r@[0]@.role == "user"@,
        r@[0]@.content == "[Previous conversation summary]\n"@ + summary@,
        r@[1]@.role == "assistant"@,
        r@[1]@.content
            == "Understood. I have the context from our previous conversation. Let me continue."@,
        forall|k: int|
            0 <= k < history@.len() - split_point as int ==> #[trigger] r@[k + 2]@ == history@[
                split_point + k]@,
{
    let mut out: Vec<HistoryMessage> = Vec::new();
    let mut first_content = chars_of("[Previous conversation summary]\n");
    let sv = chars_of(summary);
    append_chars(&mut first_content, sv.as_slice());
    let first = HistoryMessage {
        role: string_from_chars(chars_of("user").as_slice()),
        content: string_from_chars(first_content.as_slice()),
        reasoning: Vec::new(),
        tool_calls: Vec::new(),
        tool_call_id: None,
    };
    out.push(first);
    let second = HistoryMessage::plain(
        "assistant",
        "Understood. I have the context from our previous conversation. Let me continue.",
    );
    out.push(second);
    let mut i: usize = split_point;
    while i < history.len()
        invariant
            split_point <= i <= history@.len(),
            out@.len() == 2 + i - split_point,
            out@[0]@.role == "user"@,
            out@[0]@.content == "[Previous conversation summary]\n"@ + summary@,
            out@[1]@.role == "assistant"@,
            out@[1]@.content
                == "Understood. I have the context from our previous conversation. Let me continue."@,
            forall|k: int|
                0 <= k < i - split_point ==> #[trigger] out@[k + 2]@ == history@[split_point
                    + k]@,
        decreases history@.len() - i,
    {
        out.push(history[i].duplicate());
        i += 1;
    }
    out
}

impl HistoryMessage {
    /// A field-for-field copy.
    pub fn duplicate(&self) -> (r: HistoryMessage)
        ensures
            r@ == self@,
            r.role@ == self.role@,
            r.content@ == self.content@,
            r.reasoning@ == self.reasoning@,
            r.tool_calls@ == self.tool_calls@,
            r.tool_call_id == self.tool_call_id,
    {
        let mut calls: Vec<AccumulatedToolCall> = Vec::new();
        let mut i: usize = 0;
        while i < self.tool_calls.len()
            invariant
                0 <= i <= self.tool_calls@.len(),
                calls@ == self.tool_calls@.take(i as int),
            decreases self.tool_calls@.len() - i,
        {
            calls.push(self.tool_calls[i].duplicate());
            proof {
                assert(calls@ =~= self.tool_calls@.take(i + 1));
            }
            i += 1;
        }
        proof {
            assert(self.tool_calls@.take(self.tool_calls@.len() as int) =~= self.tool_calls@);
        }
        let r = HistoryMessage {
            role: self.role.clone(),
            content: self.content.clone(),
            reasoning: crate::stream::clone_strings(&self.reasoning),
            tool_calls: calls,
            tool_call_id: match self.tool_call_id {
                Some(ref s) => Some(s.clone()),
                None => None,
            },
        };
        proof {
            assert(r.reasoning@ =~= self.reasoning@);
            assert(r.tool_calls@ =~= self.tool_calls@);
        }
        r
    }
}

/// The per-request trim of one message: an old assistant message loses its
/// reasoning; an old tool result longer than 2000 characters is cut to its
/// first 500 characters plus a truncation marker; recent messages and all
/// others pass unchanged.
pub open spec fn spec_trim_message(m: MsgView, is_old: bool) -> MsgView {
    if is_old && m.role == "assistant"@ {
        MsgView {
            role: m.role,
            content: m.content,
            reasoning: Seq::empty(),
            tool_calls: m.tool_calls,
            tool_call_id: m.tool_call_id,
        }
    } else if is_old && m.role == "tool"@ && m.content.len() > 2000 {
        MsgView {
            role: m.role,
            content: m.content.take(500) + "...\n[truncated, originally "@ + spec_u64_dec(
                m.content.len() as int,
            ) + " chars]"@,
            reasoning: m.reasoning,
            tool_calls: m.tool_calls,
            tool_call_id: m.tool_call_id,
        }
    } else {
        m
    }
}

/// Build the outgoing request messages: the system prompt first, then every
/// history message, with messages older than the recent window trimmed per
/// `spec_trim_message`.
pub fn build_request_messages(system_prompt: &str, history: &Vec<HistoryMessage>) -> (r: Vec<
    HistoryMessage,
>)
    ensures
        ({
            let hv = history@.map_values(|m: HistoryMessage| m@);
            let cutoff = if hv.len() >= RECENT_WINDOW {
                hv.len() - RECENT_WINDOW as int
            } else {
                0
            };
            &&& r@.len() == 1 + hv.len()
            &&& r@[0]@.role == "system"@
            &&& r@[0]@.content == system_prompt@
            &&& forall|k: int|
                0 <= k < hv.len() ==> r@[k + 1]@ == spec_trim_message(hv[k], k < cutoff)
        }),
{
    let ghost hv = history@.map_values(|m: HistoryMessage| m@);
    let mut out: Vec<HistoryMessage> = Vec::new();
    out.push(HistoryMessage::plain("system", system_prompt));
    let cutoff: usize = if history.len() >= RECENT_WINDOW {
        history.len() - RECENT_WINDOW
    } else {
        0
    };
    let mut i: usize = 0;
    while i < history.len()
        invariant
            0 <= i <= history@.len(),
            hv == history@.map_values(|m: HistoryMessage| m@),
            hv.len() == history@.len(),
            cutoff as int == (if hv.len() >= RECENT_WINDOW {
                hv.len() - RECENT_WINDOW as int
            } else {
                0int
            }),
            out@.len() == 1 + i,
            out@[0]@.role == "system"@,
            out@[0]@.content == system_prompt@,
            forall|k: int| 0 <= k < i ==> out@[k + 1]@ == spec_trim_message(hv[k], k < cutoff),
        decreases history@.len() - i,
    {
        let m = &history[i];
        let is_old = i < cutoff;
        let trimmed: HistoryMessage;
        if is_old && crate::text::str_eq(m.role.as_str(), "assistant") {
            let mut t = m.duplicate();
            t.reasoning = Vec::new();
            proof {
                assert(t@.reasoning =~= Seq::<Seq<char>>::empty());
            }
            trimmed = t;
        } else if is_old && crate::text::str_eq(m.role.as_str(), "tool") {
            let cv = chars_of(m.content.as_str());
            if cv.len() > 2000 {
                let mut t = m.duplicate();
                let mut newc = slice_range_to_vec(cv.as_slice(), 0, 500);
                let marker = chars_of("...\n[truncated, originally ");
                append_chars(&mut newc, marker.as_slice());
                let digits = u64_to_dec(cv.len() as u64);
                append_chars(&mut newc, digits.as_slice());
                let tailmark = chars_of(" chars]");
                append_chars(&mut newc, tailmark.as_slice());
                t.content = string_from_chars(newc.as_slice());
                proof {
                    assert(t@.content =~= hv[i as int].content.take(500)
                        + "...\n[truncated, originally "@ + spec_u64_dec(
                        hv[i as int].content.len() as int,
                    ) + " chars]"@);
                }
                trimmed = t;
            } else {
                trimmed = m.duplicate();
            }
        } else {
            trimmed = m.duplicate();
        }
        out.push(trimmed);
        i += 1;
    }
    out
}

} // verus!

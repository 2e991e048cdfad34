//! Tool execution results and the mode policy for the built-in tools.

use vstd::prelude::*;

use crate::text::{append_chars, chars_of, string_from_chars, str_eq};
use crate::Mode;

verus! {

/// Metadata about a tool execution result, used for rich rendering.
#[derive(Debug, Clone)]
pub enum ToolResultMeta {
    EditFile { path: String, old_str: String, new_str: String },
    WriteFile { path: String, content: String, is_new: bool },
}

/// Result from executing a tool.
#[derive(Debug, Clone)]
pub struct ToolExecutionResult {
    pub result: String,
    pub meta: Option<ToolResultMeta>,
}

impl ToolExecutionResult {
    /// A plain text result.
    pub fn text(result: String) -> (r: ToolExecutionResult)
        ensures
            r.result == result,
            r.meta is None,
    {
        ToolExecutionResult { result, meta: None }
    }

    /// A text result with rendering metadata.
    pub fn with_meta(result: String, meta: ToolResultMeta) -> (r: ToolExecutionResult)
        ensures
            r.result == result,
            r.meta is Some,
    {
        ToolExecutionResult { result, meta: Some(meta) }
    }

    /// A field-for-field copy.
    pub fn duplicate(&self) -> (r: ToolExecutionResult)
        ensures
            r == *self,
    {
        ToolExecutionResult {
            result: self.result.clone(),
            meta: match self.meta {
                Some(ref m) => Some(m.duplicate()),
                None => None,
            },
        }
    }
}

impl ToolResultMeta {
    /// A field-for-field copy.
    pub fn duplicate(&self) -> (r: ToolResultMeta)
        ensures
            r == *self,
    {
        match self {
            ToolResultMeta::EditFile { path, old_str, new_str } => ToolResultMeta::EditFile {
                path: path.clone(),
                old_str: old_str.clone(),
                new_str: new_str.clone(),
            },
            ToolResultMeta::WriteFile { path, content, is_new } => ToolResultMeta::WriteFile {
                path: path.clone(),
                content: content.clone(),
                is_new: *is_new,
            },
        }
    }
}

/// The tools allowed in the read-only mode.
pub open spec fn spec_is_read_only_tool(name: Seq<char>) -> bool {
    ||| name == "read_file"@
    ||| name == "glob"@
    ||| name == "grep"@
    ||| name == "list_directory"@
    ||| name == "web_search"@
    ||| name == "ask_user"@
}

/// Whether the named tool is allowed in the read-only mode.
pub fn is_read_only_tool(name: &str) -> (r: bool)
    ensures
        r == spec_is_read_only_tool(name@),
{
    str_eq(name, "read_file") || str_eq(name, "glob") || str_eq(name, "grep") || str_eq(
        name,
        "list_directory",
    ) || str_eq(name, "web_search") || str_eq(name, "ask_user")
}

/// Whether a call name routes to an external provider tool.
pub open spec fn spec_is_mcp_name(name: Seq<char>) -> bool {
    crate::text::contains_at(name, 0, "mcp__"@)
}

/// Whether a call name carries the provider prefix.
pub fn is_mcp_name(name: &str) -> (r: bool)
    ensures
        r == spec_is_mcp_name(name@),
{
    let nv = chars_of(name);
    let prefix = chars_of("mcp__");
    proof {
        reveal_strlit("mcp__");
        assert(prefix@.len() == 5);
    }
    if nv.len() < 5 {
        proof {
            assert(!crate::text::contains_at(name@, 0, "mcp__"@));
        }
        return false;
    }
    crate::text::eq_at(nv.as_slice(), 0, prefix.as_slice())
}

/// The rejection text for a write-capable tool asked for in the read-only
/// mode; provider tools and read-only tools always pass.
pub fn plan_mode_rejection(name: &str, mode: Mode) -> (r: Option<String>)
    ensures
        mode is Builder ==> r is None,
        mode is Plan && (spec_is_read_only_tool(name@) || spec_is_mcp_name(name@)) ==> r is None,
        mode is Plan && !spec_is_read_only_tool(name@) && !spec_is_mcp_name(name@) ==> (r matches
            Some(m) && m@ == "Error: Tool \""@ + name@
            + "\" is not available in PLAN mode. Switch to BUILDER mode (Tab) to use it."@),
{
    match mode {
        Mode::Builder => None,
        Mode::Plan => {
            if is_read_only_tool(name) || is_mcp_name(name) {
                None
            } else {
                let mut out = chars_of("Error: Tool \"");
                let nv = chars_of(name);
                append_chars(&mut out, nv.as_slice());
                let tail = chars_of(
                    "\" is not available in PLAN mode. Switch to BUILDER mode (Tab) to use it.",
                );
                append_chars(&mut out, tail.as_slice());
                Some(string_from_chars(out.as_slice()))
            }
        },
    }
}

/// One stored conversation session.
#[derive(Debug, Clone)]
pub struct Session {
    pub id: String,
    pub name: String,
    pub model: String,
    pub created_at: String,
    pub updated_at: String,
}

/// One persisted message of a session.
#[derive(Debug, Clone)]
pub struct StoredMessage {
    pub id: i64,
    pub session_id: String,
    pub role: String,
    pub content: String,
    pub tool_calls: Option<String>,
    pub tool_call_id: Option<String>,
    pub name: Option<String>,
    pub created_at: String,
}

} // verus!

//! External tool providers: deterministic tool-name prefixing, the tool
//! registry, and the length-prefixed message framing of the stdio protocol.

use vstd::prelude::*;
use vstd::string::StringSliceAdditionalSpecFns;

use crate::jsonval::{
    jarr, jget, jstr, ju64, json_clone, json_object, json_string, json_to_string_pretty, json_u64,
};
use crate::text::{
    append_chars, chars_of, contains_at, join_with, parse_u64, slice_range_to_vec, spec_trim,
    spec_u64_dec, str_eq, string_from_chars, trim_chars, u64_to_dec,
};

verus! {

/// One discovered provider tool.
#[derive(Debug)]
pub struct McpToolInfo {
    pub server_name: String,
    pub tool_name: String,
    pub description: String,
    pub input_schema: serde_json::Value,
}

/// The deterministic prefixed name a provider tool registers under.
pub open spec fn spec_prefixed_name(server: Seq<char>, tool: Seq<char>) -> Seq<char> {
    "mcp__"@ + server + "__"@ + tool
}

/// Build the prefixed name `mcp__{server}__{tool}`.
pub fn prefixed_tool_name(server: &str, tool: &str) -> (r: String)
    ensures
        r@ == spec_prefixed_name(server@, tool@),
{
    let mut out = chars_of("mcp__");
    let sv = chars_of(server);
    append_chars(&mut out, sv.as_slice());
    let us = chars_of("__");
    append_chars(&mut out, us.as_slice());
    let tv = chars_of(tool);
    append_chars(&mut out, tv.as_slice());
    string_from_chars(out.as_slice())
}

/// Two providers exposing a same-named tool never collide: equal prefixed
/// names force equal server names.
pub proof fn lemma_prefixed_names_collision_free(a: Seq<char>, b: Seq<char>, tool: Seq<char>)
    requires
        spec_prefixed_name(a, tool) == spec_prefixed_name(b, tool),
    ensures
        a == b,
{
    reveal_strlit("mcp__");
    reveal_strlit("__");
    let pa = spec_prefixed_name(a, tool);
    let pb = spec_prefixed_name(b, tool);
    assert(pa.len() == 5 + a.len() + 2 + tool.len());
    assert(pb.len() == 5 + b.len() + 2 + tool.len());
    assert(a.len() == b.len());
    assert forall|j: int| 0 <= j < a.len() implies a[j] == b[j] by {
        assert(pa[5 + j] == a[j]);
        assert(pb[5 + j] == b[j]);
    }
    assert(a =~= b);
}

/// Whether a name is registered.
pub open spec fn spec_has_key(s: Seq<(String, McpToolInfo)>, name: Seq<char>) -> bool {
    exists|k: int| 0 <= k < s.len() && s[k].0@ == name
}

/// The registered info under a name: the first entry that carries it.
pub open spec fn spec_reg_lookup(s: Seq<(String, McpToolInfo)>, name: Seq<char>) -> Option<
    McpToolInfo,
>
    decreases s.len(),
{
    if s.len() == 0 {
        None
    } else if s[0].0@ == name {
        Some(s[0].1)
    } else {
        spec_reg_lookup(s.drop_first(), name)
    }
}

/// A lookup succeeds exactly on registered names.
pub proof fn lemma_reg_lookup_has_key(s: Seq<(String, McpToolInfo)>, name: Seq<char>)
    ensures
        spec_reg_lookup(s, name) is Some <==> spec_has_key(s, name),
    decreases s.len(),
{
    if s.len() > 0 {
        lemma_reg_lookup_has_key(s.drop_first(), name);
        if s[0].0@ == name {
        } else {
            assert forall|k: int| 0 <= k < s.len() && s[k].0@ == name implies spec_has_key(
                s.drop_first(),
                name,
            ) by {
                assert(s.drop_first()[k - 1].0@ == name);
            }
        }
    }
}

/// The registry of all discovered provider tools, keyed by prefixed name.
pub struct McpToolRegistry {
    pub tools: Vec<(String, McpToolInfo)>,
}

impl McpToolRegistry {
    /// An empty registry.
    pub fn new() -> (r: McpToolRegistry)
        ensures
            r.tools@.len() == 0,
    {
        McpToolRegistry { tools: Vec::new() }
    }

    /// How many tools are registered.
    pub fn len(&self) -> (r: usize)
        ensures
            r == self.tools@.len(),
    {
        self.tools.len()
    }

    /// Register one discovered tool under its prefixed name. The name must
    /// not be taken; names are collision-free across providers.
    pub fn register(
        &mut self,
        server_name: &str,
        tool_name: &str,
        description: String,
        input_schema: serde_json::Value,
    ) -> (r: String)
        requires
            !spec_has_key(old(self).tools@, spec_prefixed_name(server_name@, tool_name@)),
        ensures
            r@ == spec_prefixed_name(server_name@, tool_name@),
            final(self).tools@.len() == old(self).tools@.len() + 1,
            spec_reg_lookup(final(self).tools@, r@) matches Some(info) && info.server_name@
                == server_name@ && info.tool_name@ == tool_name@,
            forall|n: Seq<char>|
                n != spec_prefixed_name(server_name@, tool_name@) ==> spec_reg_lookup(
                    final(self).tools@,
                    n,
                ) == spec_reg_lookup(old(self).tools@, n),
    {
        let pname = prefixed_tool_name(server_name, tool_name);
        let info = McpToolInfo {
            server_name: string_from_chars(chars_of(server_name).as_slice()),
            tool_name: string_from_chars(chars_of(tool_name).as_slice()),
            description,
            input_schema,
        };
        let key = pname.clone();
        self.tools.insert(0, (key, info));
        proof {
            assert(self.tools@.drop_first() =~= old(self).tools@);
            assert(self.tools@[0].0@ == spec_prefixed_name(server_name@, tool_name@));
        }
        pname
    }

    /// Whether a call name belongs to a registered provider tool.
    pub fn is_mcp_tool(&self, name: &str) -> (r: bool)
        ensures
            r == spec_has_key(self.tools@, name@),
    {
        proof {
            lemma_reg_lookup_has_key(self.tools@, name@);
        }
        let mut i: usize = 0;
        while i < self.tools.len()
            invariant
                0 <= i <= self.tools@.len(),
                forall|k: int| 0 <= k < i ==> self.tools@[k].0@ != name@,
            decreases self.tools@.len() - i,
        {
            if str_eq(self.tools[i].0.as_str(), name) {
                return true;
            }
            i += 1;
        }
        proof {
            if spec_has_key(self.tools@, name@) {
                let k = choose|k: int| 0 <= k < self.tools@.len() && self.tools@[k].0@ == name@;
            }
        }
        false
    }

    /// The provider and provider-side tool name a registered call name
    /// routes to.
    pub fn route(&self, name: &str) -> (r: Option<(String, String)>)
        ensures
            r is Some <==> spec_has_key(self.tools@, name@),
            r matches Some(p) ==> (spec_reg_lookup(self.tools@, name@) matches Some(info)
                && p.0@ == info.server_name@ && p.1@ == info.tool_name@),
    {
        proof {
            lemma_reg_lookup_has_key(self.tools@, name@);
            assert(self.tools@.skip(0) =~= self.tools@);
        }
        let mut i: usize = 0;
        while i < self.tools.len()
            invariant
                0 <= i <= self.tools@.len(),
                forall|k: int| 0 <= k < i ==> self.tools@[k].0@ != name@,
                spec_reg_lookup(self.tools@, name@) == spec_reg_lookup(
                    self.tools@.skip(i as int),
                    name@,
                ),
            decreases self.tools@.len() - i,
        {
            proof {
                assert(self.tools@.skip(i as int)[0] == self.tools@[i as int]);
                assert(self.tools@.skip(i as int).drop_first() =~= self.tools@.skip(i + 1));
            }
            if str_eq(self.tools[i].0.as_str(), name) {
                let entry = &self.tools[i].1;
                return Some((entry.server_name.clone(), entry.tool_name.clone()));
            }
            i += 1;
        }
        proof {
            assert(self.tools@.skip(self.tools@.len() as int) =~= Seq::<
                (String, McpToolInfo),
            >::empty());
        }
        None
    }

    /// Tool definitions in the wire shape the model expects, one per
    /// registered tool: name, provider-prefixed description, and the
    /// provider's input schema.
    pub fn tool_definitions(&self) -> (r: Vec<serde_json::Value>)
        ensures
            r@.len() == self.tools@.len(),
    {
        let mut defs: Vec<serde_json::Value> = Vec::new();
        let mut i: usize = 0;
        while i < self.tools.len()
            invariant
                0 <= i <= self.tools@.len(),
                defs@.len() == i,
            decreases self.tools@.len() - i,
        {
            let entry = &self.tools[i];
            let desc = mcp_description(entry.1.server_name.as_str(), entry.1.description.as_str());
            let def = make_tool_definition(
                entry.0.as_str(),
                desc.as_str(),
                json_clone(&entry.1.input_schema),
            );
            defs.push(def);
            i += 1;
        }
        defs
    }
}

/// The provider-prefixed description `[MCP:{server}] {description}`.
pub fn mcp_description(server: &str, description: &str) -> (r: String)
    ensures
        r@ == "[MCP:"@ + server@ + "] "@ + description@,
{
    let mut out = chars_of("[MCP:");
    let sv = chars_of(server);
    append_chars(&mut out, sv.as_slice());
    let sep = chars_of("] ");
    append_chars(&mut out, sep.as_slice());
    let dv = chars_of(description);
    append_chars(&mut out, dv.as_slice());
    string_from_chars(out.as_slice())
}

/// Assemble one function-style tool definition from its parts.
pub fn make_tool_definition(name: &str, description: &str, parameters: serde_json::Value) -> (r:
    serde_json::Value) {
    let mut func: Vec<(String, serde_json::Value)> = Vec::new();
    func.push((string_from_chars(chars_of("name").as_slice()), json_string(name)));
    func.push((string_from_chars(chars_of("description").as_slice()), json_string(description)));
    func.push((string_from_chars(chars_of("parameters").as_slice()), parameters));
    let mut top: Vec<(String, serde_json::Value)> = Vec::new();
    top.push((
        string_from_chars(chars_of("type").as_slice()),
        json_string("function"),
    ));
    top.push((string_from_chars(chars_of("function").as_slice()), json_object(func)));
    json_object(top)
}

// ── Message framing ──────────────────────────────────────────────────────

/// Frame a payload for the stdio protocol: a byte-length header line, a
/// blank separator line, then the payload itself.
pub fn encode_frame(payload: &str) -> (r: String)
    ensures
        r@ == "Content-Length: "@ + spec_u64_dec((payload.spec_bytes().len() as usize) as int)
            + "\r\n\r\n"@ + payload@,
{
    let byte_len: usize = payload.len();
    let mut out = chars_of("Content-Length: ");
    let digits = u64_to_dec(byte_len as u64);
    append_chars(&mut out, digits.as_slice());
    let sep = chars_of("\r\n\r\n");
    append_chars(&mut out, sep.as_slice());
    let pv = chars_of(payload);
    append_chars(&mut out, pv.as_slice());
    proof {
        assert(out@ =~= "Content-Length: "@ + spec_u64_dec(
            (payload.spec_bytes().len() as usize) as int,
        ) + "\r\n\r\n"@ + payload@);
    }
    string_from_chars(out.as_slice())
}

/// The byte count a header line announces: the value of the digits after
/// `Content-Length:`, ignoring surrounding blanks.
pub open spec fn spec_content_length(l: Seq<char>) -> Option<int> {
    if !contains_at(l, 0, "Content-Length:"@) {
        None
    } else {
        let rest = spec_trim(l.skip(15));
        if rest.len() > 0 && crate::text::all_digits(rest) && crate::text::dec_value(rest)
            <= u64::MAX {
            Some(crate::text::dec_value(rest))
        } else {
            None
        }
    }
}

/// Read the announced byte count out of a header line, if it is one.
pub fn parse_content_length(line: &str) -> (r: Option<u64>)
    ensures
        r is Some <==> spec_content_length(line@) is Some,
        r matches Some(n) ==> spec_content_length(line@) == Some(n as int),
{
    let l = chars_of(line);
    let prefix = chars_of("Content-Length:");
    proof {
        reveal_strlit("Content-Length:");
        assert(prefix@.len() == 15);
    }
    let n = l.len();
    if n < 15 {
        proof {
            assert(!contains_at(line@, 0, "Content-Length:"@));
        }
        return None;
    }
    if !crate::text::eq_at(l.as_slice(), 0, prefix.as_slice()) {
        return None;
    }
    let rest = slice_range_to_vec(l.as_slice(), 15, n);
    proof {
        assert(rest@ =~= line@.skip(15));
    }
    let trimmed = trim_chars(rest.as_slice());
    parse_u64(trimmed.as_slice())
}

// ── Requests and responses ───────────────────────────────────────────────

/// Assemble one request of the provider protocol.
pub fn make_rpc_request(id: u64, method: &str, params: Option<serde_json::Value>) -> (r:
    serde_json::Value) {
    let mut fields: Vec<(String, serde_json::Value)> = Vec::new();
    fields.push((string_from_chars(chars_of("jsonrpc").as_slice()), json_string("2.0")));
    fields.push((string_from_chars(chars_of("id").as_slice()), json_u64(id)));
    fields.push((string_from_chars(chars_of("method").as_slice()), json_string(method)));
    match params {
        Some(p) => {
            fields.push((string_from_chars(chars_of("params").as_slice()), p));
        },
        None => {},
    }
    json_object(fields)
}

/// Assemble one notification: a request without an id, expecting no reply.
pub fn make_rpc_notification(method: &str, params: Option<serde_json::Value>) -> (r:
    serde_json::Value) {
    let mut fields: Vec<(String, serde_json::Value)> = Vec::new();
    fields.push((string_from_chars(chars_of("jsonrpc").as_slice()), json_string("2.0")));
    fields.push((string_from_chars(chars_of("method").as_slice()), json_string(method)));
    match params {
        Some(p) => {
            fields.push((string_from_chars(chars_of("params").as_slice()), p));
        },
        None => {},
    }
    json_object(fields)
}

/// The parts of a provider reply this engine reads.
pub struct RpcReply {
    pub id: Option<u64>,
    pub result: Option<serde_json::Value>,
    pub error: Option<String>,
}

/// Split a decoded reply value into id, result and error message.
pub fn decode_rpc_reply(v: &serde_json::Value) -> (r: RpcReply) {
    let id = match jget(v, "id") {
        Some(x) => ju64(x),
        None => None,
    };
    let result = match jget(v, "result") {
        Some(x) => Some(json_clone(x)),
        None => None,
    };
    let error = match jget(v, "error") {
        Some(e) => Some(
            match jget(e, "message") {
                Some(m) => match jstr(m) {
                    Some(s) => s,
                    None => string_from_chars(chars_of("unknown error").as_slice()),
                },
                None => string_from_chars(chars_of("unknown error").as_slice()),
            },
        ),
        None => None,
    };
    RpcReply { id, result, error }
}

/// Join the text-typed content blocks of a call result with newlines; when
/// none are present, fall back to the whole result, rendered indented.
pub fn call_result_text(result: &serde_json::Value) -> (r: String) {
    match jget(result, "content") {
        Some(content) => {
            match jarr(content) {
                Some(items) => {
                    let mut texts: Vec<String> = Vec::new();
                    let mut i: usize = 0;
                    while i < items.len()
                        decreases items@.len() - i,
                    {
                        let item = &items[i];
                        let is_text = match jget(item, "type") {
                            Some(t) => match jstr(t) {
                                Some(s) => str_eq(s.as_str(), "text"),
                                None => false,
                            },
                            None => false,
                        };
                        if is_text {
                            match jget(item, "text") {
                                Some(tx) => match jstr(tx) {
                                    Some(s) => texts.push(s),
                                    None => {},
                                },
                                None => {},
                            }
                        }
                        i += 1;
                    }
                    if texts.len() > 0 {
                        join_with(&texts, "\n")
                    } else {
                        json_to_string_pretty(result)
                    }
                },
                None => json_to_string_pretty(result),
            }
        },
        None => json_to_string_pretty(result),
    }
}

} // verus!

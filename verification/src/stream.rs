//! Streamed completion handling: accumulation of content, reasoning and
//! fragmented tool calls across chunks, and the event-stream line protocol.

use vstd::prelude::*;

use crate::jsonval::{jarr, jget, jstr, ju64, json_parse};
use crate::text::{
    chars_of, slice_range_to_vec, spec_trim, string_from_chars, trim_chars,
};

verus! {

/// The function a tool call names, with its JSON-encoded arguments.
#[derive(Debug, Clone, PartialEq)]
pub struct ToolCallFunction {
    pub name: String,
    pub arguments: String,
}

/// One tool call accumulated from streamed fragments.
#[derive(Debug, Clone, PartialEq)]
pub struct AccumulatedToolCall {
    pub id: String,
    pub call_type: String,
    pub function: ToolCallFunction,
}

impl AccumulatedToolCall {
    /// An empty accumulation cell for a fresh index.
    pub fn empty() -> (r: AccumulatedToolCall)
        ensures
            r.id@ == Seq::<char>::empty(),
            r.call_type@ == "function"@,
            r.function.name@ == Seq::<char>::empty(),
            r.function.arguments@ == Seq::<char>::empty(),
    {
        AccumulatedToolCall {
            id: String::new(),
            call_type: crate::text::string_from_chars(chars_of("function").as_slice()),
            function: ToolCallFunction { name: String::new(), arguments: String::new() },
        }
    }

    /// A field-for-field copy.
    pub fn duplicate(&self) -> (r: AccumulatedToolCall)
        ensures
            r == *self,
    {
        AccumulatedToolCall {
            id: self.id.clone(),
            call_type: self.call_type.clone(),
            function: ToolCallFunction {
                name: self.function.name.clone(),
                arguments: self.function.arguments.clone(),
            },
        }
    }
}

/// Token usage of a completion, cumulative across the stream.
#[derive(Debug, Clone, PartialEq)]
pub struct Usage {
    pub prompt_tokens: u64,
    pub completion_tokens: u64,
    pub total_tokens: u64,
}

impl Usage {
    /// All counters zero.
    pub fn zero() -> (r: Usage)
        ensures
            r.prompt_tokens == 0 && r.completion_tokens == 0 && r.total_tokens == 0,
    {
        Usage { prompt_tokens: 0, completion_tokens: 0, total_tokens: 0 }
    }
}

impl Default for Usage {
    /// All counters zero.
    fn default() -> (r: Usage)
        ensures
            r.prompt_tokens == 0 && r.completion_tokens == 0 && r.total_tokens == 0,
    {
        Usage::zero()
    }
}

/// The final accumulated result of one streamed completion.
#[derive(Debug, Clone)]
pub struct StreamResult {
    pub content: String,
    pub reasoning_details: Vec<String>,
    pub tool_calls: Vec<AccumulatedToolCall>,
    pub usage: Usage,
    pub finish_reason: String,
}

/// Events emitted while a completion streams.
#[derive(Debug, Clone)]
pub enum StreamEvent {
    ReasoningChunk(String),
    ContentChunk(String),
    ToolCallDelta(Vec<AccumulatedToolCall>),
    Done(Usage),
    Error(String),
}

/// Remaining-quota numbers of the account.
#[derive(Debug, Clone, PartialEq)]
pub struct QuotaInfo {
    pub used: u64,
    pub total: u64,
    pub remaining: u64,
    pub reset_minutes: u64,
}

/// One tool-call fragment of a streamed chunk.
#[derive(Debug, Clone)]
pub struct ToolCallDelta {
    pub index: usize,
    pub id: Option<String>,
    pub name: Option<String>,
    pub arguments: Option<String>,
}

/// Spec-level shape of an accumulation cell.
pub ghost struct TcView {
    pub id: Seq<char>,
    pub name: Seq<char>,
    pub args: Seq<char>,
}

impl View for AccumulatedToolCall {
    type V = TcView;

    open spec fn view(&self) -> TcView {
        TcView { id: self.id@, name: self.function.name@, args: self.function.arguments@ }
    }
}

/// Spec-level shape of a fragment.
pub ghost struct DeltaView {
    pub index: int,
    pub id: Option<Seq<char>>,
    pub name: Option<Seq<char>>,
    pub args: Option<Seq<char>>,
}

impl View for ToolCallDelta {
    type V = DeltaView;

    open spec fn view(&self) -> DeltaView {
        DeltaView {
            index: self.index as int,
            id: match self.id {
                Some(ref s) => Some(s@),
                None => None,
            },
            name: match self.name {
                Some(ref s) => Some(s@),
                None => None,
            },
            args: match self.arguments {
                Some(ref s) => Some(s@),
                None => None,
            },
        }
    }
}

/// A field kept once set: the current value when it is nonempty, else the
/// fragment's value if present.
pub open spec fn keep_first(cur: Seq<char>, new: Option<Seq<char>>) -> Seq<char> {
    if cur.len() > 0 {
        cur
    } else {
        match new {
            Some(s) => s,
            None => cur,
        }
    }
}

/// One fragment applied to the accumulation map: `arguments` concatenates,
/// `id` and `name` keep their first nonempty value.
pub open spec fn apply_delta_spec(m: Map<int, TcView>, d: DeltaView) -> Map<int, TcView> {
    let cur = if m.dom().contains(d.index) {
        m[d.index]
    } else {
        TcView { id: Seq::empty(), name: Seq::empty(), args: Seq::empty() }
    };
    let merged = TcView {
        id: keep_first(cur.id, d.id),
        name: keep_first(cur.name, d.name),
        args: cur.args + (match d.args {
            Some(s) => s,
            None => Seq::empty(),
        }),
    };
    m.insert(d.index, merged)
}

/// The accumulation map an index-keyed entry list stands for.
pub open spec fn calls_map_of(s: Seq<(usize, AccumulatedToolCall)>) -> Map<int, TcView>
    decreases s.len(),
{
    if s.len() == 0 {
        Map::empty()
    } else {
        calls_map_of(s.drop_last()).insert(s.last().0 as int, s.last().1@)
    }
}

/// Entry indices strictly increase.
pub open spec fn calls_sorted(s: Seq<(usize, AccumulatedToolCall)>) -> bool {
    forall|a: int, b: int| 0 <= a < b < s.len() ==> (s[a].0 as int) < (s[b].0 as int)
}

/// The map's domain is exactly the entry indices, and each entry gives its
/// index's value when indices are unique.
proof fn lemma_calls_map_entries(s: Seq<(usize, AccumulatedToolCall)>)
    requires
        forall|a: int, b: int| 0 <= a < b < s.len() ==> (s[a].0 as int) != (s[b].0 as int),
    ensures
        forall|i: int|
            calls_map_of(s).dom().contains(i) <==> exists|k: int|
                0 <= k < s.len() && s[k].0 as int == i,
        forall|k: int| #![trigger s[k]]
            0 <= k < s.len() ==> calls_map_of(s).dom().contains(s[k].0 as int)
                && calls_map_of(s)[s[k].0 as int] == s[k].1@,
    decreases s.len(),
{
    if s.len() > 0 {
        lemma_calls_map_entries(s.drop_last());
        assert(forall|k: int| 0 <= k < s.len() - 1 ==> s.drop_last()[k] == s[k]);
        assert forall|i: int| calls_map_of(s).dom().contains(i) implies exists|k: int|
            0 <= k < s.len() && s[k].0 as int == i by {
            if i != s.last().0 as int {
                assert(calls_map_of(s.drop_last()).dom().contains(i));
                let k = choose|k: int| 0 <= k < s.len() - 1 && s.drop_last()[k].0 as int == i;
                assert(s[k].0 as int == i);
            } else {
                assert(s[s.len() - 1].0 as int == i);
            }
        }
    }
}

/// Updating the entry that holds an index rewrites just that index.
proof fn lemma_calls_map_update(
    s: Seq<(usize, AccumulatedToolCall)>,
    k: int,
    e: (usize, AccumulatedToolCall),
)
    requires
        0 <= k < s.len(),
        e.0 == s[k].0,
        forall|a: int, b: int| 0 <= a < b < s.len() ==> (s[a].0 as int) != (s[b].0 as int),
    ensures
        calls_map_of(s.update(k, e)) == calls_map_of(s).insert(e.0 as int, e.1@),
    decreases s.len(),
{
    let t = s.update(k, e);
    if k == s.len() - 1 {
        assert(t.drop_last() =~= s.drop_last());
        assert(t.last() == e);
        assert(calls_map_of(t) =~= calls_map_of(s).insert(e.0 as int, e.1@));
    } else {
        assert(forall|a: int, b: int|
            0 <= a < b < s.len() - 1 ==> (s.drop_last()[a].0 as int) != (
            s.drop_last()[b].0 as int));
        lemma_calls_map_update(s.drop_last(), k, e);
        assert(t.drop_last() =~= s.drop_last().update(k, e));
        assert(t.last() == s.last());
        assert((s.last().0 as int) != (e.0 as int));
        assert(calls_map_of(t) == calls_map_of(s.drop_last()).insert(e.0 as int, e.1@).insert(
            s.last().0 as int,
            s.last().1@,
        ));
        assert(calls_map_of(s.drop_last()).insert(e.0 as int, e.1@).insert(
            s.last().0 as int,
            s.last().1@,
        ) =~= calls_map_of(s).insert(e.0 as int, e.1@));
    }
}

/// Inserting an entry with a fresh index adds just that index.
proof fn lemma_calls_map_insert(
    s: Seq<(usize, AccumulatedToolCall)>,
    k: int,
    e: (usize, AccumulatedToolCall),
)
    requires
        0 <= k <= s.len(),
        forall|a: int| 0 <= a < s.len() ==> (s[a].0 as int) != (e.0 as int),
    ensures
        calls_map_of(s.insert(k, e)) == calls_map_of(s).insert(e.0 as int, e.1@),
    decreases s.len(),
{
    let t = s.insert(k, e);
    assert(t.len() == s.len() + 1);
    if k == s.len() {
        assert(t.drop_last() =~= s);
        assert(t.last() == e);
    } else {
        assert(t.last() == s.last());
        assert(t.drop_last() =~= s.drop_last().insert(k, e));
        lemma_calls_map_insert(s.drop_last(), k, e);
        assert(calls_map_of(t) == calls_map_of(s.drop_last()).insert(e.0 as int, e.1@).insert(
            s.last().0 as int,
            s.last().1@,
        ));
        assert((s.last().0 as int) != (e.0 as int));
        assert(calls_map_of(s.drop_last()).insert(e.0 as int, e.1@).insert(
            s.last().0 as int,
            s.last().1@,
        ) =~= calls_map_of(s).insert(e.0 as int, e.1@));
    }
}

/// Accumulated state of one streamed completion.
pub struct StreamAccumulator {
    pub content: String,
    pub reasoning_details: Vec<String>,
    pub calls: Vec<(usize, AccumulatedToolCall)>,
    pub usage: Usage,
    pub finish_reason: String,
    pub chunk_count: u64,
}

impl StreamAccumulator {
    /// The entry list is sorted by index and every cell is a function call.
    pub open spec fn wf(&self) -> bool {
        calls_sorted(self.calls@)
    }

    /// The accumulation map of the current entries.
    pub open spec fn calls_map(&self) -> Map<int, TcView> {
        calls_map_of(self.calls@)
    }

    /// Fresh state: nothing accumulated yet.
    pub fn new() -> (r: StreamAccumulator)
        ensures
            r.wf(),
            r.content@ == Seq::<char>::empty(),
            r.reasoning_details@.len() == 0,
            r.calls@.len() == 0,
            r.usage.prompt_tokens == 0 && r.usage.completion_tokens == 0 && r.usage.total_tokens
                == 0,
            r.finish_reason@ == Seq::<char>::empty(),
            r.chunk_count == 0,
    {
        StreamAccumulator {
            content: String::new(),
            reasoning_details: Vec::new(),
            calls: Vec::new(),
            usage: Usage::zero(),
            finish_reason: String::new(),
            chunk_count: 0,
        }
    }

    /// Apply one tool-call fragment: concatenate `arguments`, keep the first
    /// nonempty `id` and `name`, and keep the entries sorted by index.
    pub fn apply_tool_delta(&mut self, d: &ToolCallDelta)
        requires
            old(self).wf(),
        ensures
            final(self).wf(),
            final(self).calls_map() == apply_delta_spec(old(self).calls_map(), d@),
            final(self).content == old(self).content,
            final(self).reasoning_details == old(self).reasoning_details,
            final(self).usage == old(self).usage,
            final(self).finish_reason == old(self).finish_reason,
            final(self).chunk_count == old(self).chunk_count,
    {
        proof {
            assert(forall|a: int, b: int|
                0 <= a < b < self.calls@.len() ==> (self.calls@[a].0 as int) != (
                self.calls@[b].0 as int));
            lemma_calls_map_entries(self.calls@);
        }
        let ghost m0 = calls_map_of(self.calls@);
        // Find the first position whose index is not below the fragment's.
        let mut k: usize = 0;
        while k < self.calls.len() && self.calls[k as usize].0 < d.index
            invariant
                0 <= k <= self.calls@.len(),
                forall|a: int| 0 <= a < k ==> (self.calls@[a].0 as int) < d.index as int,
            decreases self.calls@.len() - k,
        {
            k += 1;
        }
        if k < self.calls.len() && self.calls[k].0 == d.index {
            // Merge into the existing cell.
            let cur = &self.calls[k].1;
            let merged = merge_cell(cur, d);
            let ghost e = (d.index, merged);
            self.calls.set(k, (d.index, merged));
            proof {
                lemma_calls_map_update(old(self).calls@, k as int, self.calls@[k as int]);
                assert(self.calls@ =~= old(self).calls@.update(k as int, self.calls@[k as int]));
                assert(m0[d.index as int] == old(self).calls@[k as int].1@);
                assert(calls_map_of(self.calls@) =~= apply_delta_spec(m0, d@));
            }
        } else {
            // Fresh index: build a cell from nothing and insert in order.
            let base = AccumulatedToolCall::empty();
            let merged = merge_cell(&base, d);
            self.calls.insert(k, (d.index, merged));
            proof {
                assert(forall|a: int|
                    0 <= a < old(self).calls@.len() ==> (old(self).calls@[a].0 as int) != (
                    d.index as int)) by {
                    assert(forall|a: int|
                        k <= a < old(self).calls@.len() ==> (old(self).calls@[a].0 as int) > (
                        d.index as int) || (old(self).calls@[a].0 as int) == (
                        old(self).calls@[k as int].0 as int) && a == k as int);
                }
                lemma_calls_map_insert(old(self).calls@, k as int, self.calls@[k as int]);
                assert(self.calls@ =~= old(self).calls@.insert(k as int, self.calls@[k as int]));
                assert(!m0.dom().contains(d.index as int));
                assert(calls_map_of(self.calls@) =~= apply_delta_spec(m0, d@));
                assert(calls_sorted(self.calls@)) by {
                    assert(forall|a: int|
                        0 <= a < k ==> (self.calls@[a].0 as int) < (d.index as int));
                    assert(forall|b: int|
                        k < b < self.calls@.len() ==> (d.index as int) < (
                        self.calls@[b].0 as int));
                }
            }
        }
    }

    /// The accumulated tool calls, in index order.
    pub fn snapshot_calls(&self) -> (r: Vec<AccumulatedToolCall>)
        ensures
            r@.len() == self.calls@.len(),
            forall|k: int| 0 <= k < r@.len() ==> r@[k] == self.calls@[k].1,
    {
        let mut r: Vec<AccumulatedToolCall> = Vec::new();
        let mut i: usize = 0;
        while i < self.calls.len()
            invariant
                0 <= i <= self.calls@.len(),
                r@.len() == i,
                forall|k: int| 0 <= k < i ==> r@[k] == self.calls@[k].1,
            decreases self.calls@.len() - i,
        {
            r.push(self.calls[i].1.duplicate());
            i += 1;
        }
        r
    }
}

/// Merge a fragment into one cell.
fn merge_cell(cur: &AccumulatedToolCall, d: &ToolCallDelta) -> (r: AccumulatedToolCall)
    ensures
        r@.id == keep_first(cur@.id, d@.id),
        r@.name == keep_first(cur@.name, d@.name),
        r@.args == cur@.args + (match d@.args {
            Some(s) => s,
            None => Seq::<char>::empty(),
        }),
        r.call_type == cur.call_type,
{
    let id = if cur.id.as_str().is_empty() {
        match d.id {
            Some(ref s) => s.clone(),
            None => cur.id.clone(),
        }
    } else {
        cur.id.clone()
    };
    let name = if cur.function.name.as_str().is_empty() {
        match d.name {
            Some(ref s) => s.clone(),
            None => cur.function.name.clone(),
        }
    } else {
        cur.function.name.clone()
    };
    let mut arguments = cur.function.arguments.clone();
    match d.arguments {
        Some(ref s) => {
            arguments.append(s.as_str());
        },
        None => {},
    }
    proof {
        if cur.id@.len() == 0 {
            assert(id@ == keep_first(cur@.id, d@.id));
        }
        if cur.function.name@.len() == 0 {
            assert(name@ == keep_first(cur@.name, d@.name));
        }
    }
    AccumulatedToolCall {
        id,
        call_type: cur.call_type.clone(),
        function: ToolCallFunction { name, arguments },
    }
}

// ── The accumulation law ─────────────────────────────────────────────────

/// A sequence of fragments folded into the accumulation map, first to last.
pub open spec fn fold_deltas(m: Map<int, TcView>, ds: Seq<DeltaView>) -> Map<int, TcView>
    decreases ds.len(),
{
    if ds.len() == 0 {
        m
    } else {
        apply_delta_spec(fold_deltas(m, ds.drop_last()), ds.last())
    }
}

/// Concatenation of all `arguments` fragments for one index, in order.
pub open spec fn frags_for(ds: Seq<DeltaView>, i: int) -> Seq<char>
    decreases ds.len(),
{
    if ds.len() == 0 {
        Seq::empty()
    } else {
        frags_for(ds.drop_last(), i) + (if ds.last().index == i {
            match ds.last().args {
                Some(s) => s,
                None => Seq::<char>::empty(),
            }
        } else {
            Seq::<char>::empty()
        })
    }
}

/// The first nonempty value a field takes for one index.
pub open spec fn first_field(ds: Seq<DeltaView>, i: int, pick_id: bool) -> Option<Seq<char>>
    decreases ds.len(),
{
    if ds.len() == 0 {
        None
    } else {
        let earlier = first_field(ds.drop_last(), i, pick_id);
        if earlier is Some {
            earlier
        } else {
            let f = if pick_id {
                ds.last().id
            } else {
                ds.last().name
            };
            if ds.last().index == i && f is Some && f->Some_0.len() > 0 {
                Some(f->Some_0)
            } else {
                None
            }
        }
    }
}

/// Whether any fragment carries the index.
pub open spec fn has_index(ds: Seq<DeltaView>, i: int) -> bool {
    exists|k: int| 0 <= k < ds.len() && ds[k].index == i
}

/// For any sequence of tool-call fragments folded from an empty start, the
/// accumulated call at each index has `arguments` equal to the concatenation
/// of all fragments seen for that index, and `id` and `name` equal to their
/// first nonempty observed value (empty when never observed).
pub proof fn lemma_accumulation(ds: Seq<DeltaView>, i: int)
    ensures
        fold_deltas(Map::empty(), ds).dom().contains(i) <==> has_index(ds, i),
        !has_index(ds, i) ==> frags_for(ds, i) == Seq::<char>::empty() && first_field(ds, i, true)
            is None && first_field(ds, i, false) is None,
        has_index(ds, i) ==> {
            let cell = fold_deltas(Map::empty(), ds)[i];
            &&& cell.args == frags_for(ds, i)
            &&& cell.id == (match first_field(ds, i, true) {
                Some(s) => s,
                None => Seq::<char>::empty(),
            })
            &&& cell.name == (match first_field(ds, i, false) {
                Some(s) => s,
                None => Seq::<char>::empty(),
            })
        },
    decreases ds.len(),
{
    if ds.len() == 0 {
        assert(!has_index(ds, i));
        assert(frags_for(ds, i) == Seq::<char>::empty());
    } else {
        lemma_accumulation(ds.drop_last(), i);
        let rest = ds.drop_last();
        let prev = fold_deltas(Map::empty(), rest);
        let m = fold_deltas(Map::empty(), ds);
        let d = ds.last();
        assert(m == apply_delta_spec(prev, d));
        if has_index(rest, i) {
            let k = choose|k: int| 0 <= k < rest.len() && rest[k].index == i;
            assert(ds[k].index == i);
            assert(has_index(ds, i));
        }
        if d.index == i {
            assert(ds[ds.len() - 1].index == i);
            assert(has_index(ds, i));
            let cell = m[i];
            let dargs = match d.args {
                Some(s) => s,
                None => Seq::<char>::empty(),
            };
            assert(frags_for(ds, i) == frags_for(rest, i) + dargs);
            if has_index(rest, i) {
                assert(cell.args == prev[i].args + dargs);
            } else {
                assert(!prev.dom().contains(i));
                assert(frags_for(rest, i) == Seq::<char>::empty());
                assert(cell.args =~= frags_for(ds, i));
            }
            assert(cell.id == (match first_field(ds, i, true) {
                Some(s) => s,
                None => Seq::<char>::empty(),
            })) by {
                lemma_first_field_step(ds, i, true);
            }
            assert(cell.name == (match first_field(ds, i, false) {
                Some(s) => s,
                None => Seq::<char>::empty(),
            })) by {
                lemma_first_field_step(ds, i, false);
            }
        } else {
            assert(m.dom().contains(i) <==> prev.dom().contains(i));
            if has_index(ds, i) {
                let k = choose|k: int| 0 <= k < ds.len() && ds[k].index == i;
                assert(k < ds.len() - 1);
                assert(rest[k].index == i);
                assert(has_index(rest, i));
                assert(m[i] == prev[i]);
            }
            assert(frags_for(ds, i) =~= frags_for(rest, i));
            assert(first_field(ds, i, true) == first_field(rest, i, true));
            assert(first_field(ds, i, false) == first_field(rest, i, false));
        }
    }
}

/// A first observed field value is never empty.
proof fn lemma_first_field_nonempty(ds: Seq<DeltaView>, i: int, pick_id: bool)
    ensures
        first_field(ds, i, pick_id) matches Some(s) ==> s.len() > 0,
    decreases ds.len(),
{
    if ds.len() > 0 {
        lemma_first_field_nonempty(ds.drop_last(), i, pick_id);
    }
}

/// Unfolding step for `first_field` at an index the last fragment carries,
/// matched against the merge rule.
proof fn lemma_first_field_step(ds: Seq<DeltaView>, i: int, pick_id: bool)
    requires
        ds.len() > 0,
        ds.last().index == i,
        ({
            let rest = ds.drop_last();
            let prev = fold_deltas(Map::empty(), rest);
            &&& (prev.dom().contains(i) <==> has_index(rest, i))
            &&& (!has_index(rest, i) ==> first_field(rest, i, pick_id) is None)
            &&& (has_index(rest, i) ==> (if pick_id {
                prev[i].id
            } else {
                prev[i].name
            }) == (match first_field(rest, i, pick_id) {
                Some(s) => s,
                None => Seq::<char>::empty(),
            }))
        }),
    ensures
        ({
            let m = fold_deltas(Map::empty(), ds);
            (if pick_id {
                m[i].id
            } else {
                m[i].name
            }) == (match first_field(ds, i, pick_id) {
                Some(s) => s,
                None => Seq::<char>::empty(),
            })
        }),
{
    let rest = ds.drop_last();
    let prev = fold_deltas(Map::empty(), rest);
    let m = fold_deltas(Map::empty(), ds);
    let d = ds.last();
    assert(m == apply_delta_spec(prev, d));
    let cur = if prev.dom().contains(i) {
        prev[i]
    } else {
        TcView { id: Seq::empty(), name: Seq::empty(), args: Seq::empty() }
    };
    let curf = if pick_id {
        cur.id
    } else {
        cur.name
    };
    let f = if pick_id {
        d.id
    } else {
        d.name
    };
    assert((if pick_id {
        m[i].id
    } else {
        m[i].name
    }) == keep_first(curf, f));
    lemma_first_field_nonempty(rest, i, pick_id);
    match first_field(rest, i, pick_id) {
        Some(s) => {
            assert(s.len() > 0);
            assert(curf == s);
            assert(first_field(ds, i, pick_id) == Some(s));
        },
        None => {
            assert(curf =~= Seq::<char>::empty());
            if f is Some && f->Some_0.len() > 0 {
                assert(first_field(ds, i, pick_id) == Some(f->Some_0));
                assert(keep_first(curf, f) == f->Some_0);
            } else {
                assert(first_field(ds, i, pick_id) is None);
                assert(keep_first(curf, f).len() == 0);
                assert(keep_first(curf, f) =~= Seq::<char>::empty());
            }
        },
    }
}

// ── The event-stream line protocol ───────────────────────────────────────

/// `s` with every trailing carriage return removed.
pub open spec fn strip_crs(s: Seq<char>) -> Seq<char>
    decreases s.len(),
{
    if s.len() > 0 && s.last() == '\r' {
        strip_crs(s.drop_last())
    } else {
        s
    }
}

/// Remove trailing carriage returns.
fn strip_crs_exec(s: &[char]) -> (r: Vec<char>)
    ensures
        r@ == strip_crs(s@),
{
    let mut end: usize = s.len();
    proof {
        assert(s@.take(s@.len() as int) =~= s@);
    }
    while end > 0 && s[end - 1] == '\r'
        invariant
            0 <= end <= s@.len(),
            strip_crs(s@) == strip_crs(s@.take(end as int)),
        decreases end,
    {
        proof {
            assert(s@.take(end as int).last() == s@[end - 1]);
            assert(s@.take(end as int).drop_last() =~= s@.take(end - 1));
        }
        end -= 1;
    }
    proof {
        if end > 0 {
            assert(s@.take(end as int).last() == s@[end - 1]);
        }
        assert(strip_crs(s@.take(end as int)) == s@.take(end as int));
    }
    slice_range_to_vec(s, 0, end)
}

/// Extract the complete lines of `s`: every `\n`-terminated piece with its
/// trailing carriage returns removed, and the unterminated remainder.
pub fn take_lines(s: &[char]) -> (r: (Vec<String>, Vec<char>))
    ensures
        ({
            let parts = crate::text::spec_split(s@, '\n');
            &&& r.0@.len() == parts.len() - 1
            &&& forall|k: int| 0 <= k < r.0@.len() ==> r.0@[k]@ == strip_crs(parts[k])
            &&& r.1@ == parts.last()
        }),
    decreases s@.len(),
{
    let nl: [char; 1] = ['\n'];
    proof {
        assert(nl@ =~= seq!['\n']);
    }
    let n = s.len();
    match crate::text::find_from(s, nl.as_slice(), 0) {
        None => {
            let rem = slice_range_to_vec(s, 0, n);
            proof {
                assert(rem@ =~= s@);
            }
            (Vec::new(), rem)
        },
        Some(i) => {
            proof {
                crate::text::lemma_spec_find_props(s@, seq!['\n'], 0);
            }
            let head = slice_range_to_vec(s, 0, i);
            let line = strip_crs_exec(head.as_slice());
            let tail = slice_range_to_vec(s, i + 1, n);
            proof {
                assert(head@ =~= s@.take(i as int));
                assert(tail@ =~= s@.skip(i + 1));
            }
            let (mut rest, rem) = take_lines(tail.as_slice());
            let mut lines: Vec<String> = Vec::new();
            lines.push(string_from_chars(line.as_slice()));
            let ghost rest0 = rest@;
            lines.append(&mut rest);
            proof {
                let parts = crate::text::spec_split(s@, '\n');
                assert(forall|k: int| 0 <= k < rest0.len() ==> lines@[k + 1] == rest0[k]);
                assert(forall|k: int|
                    0 <= k < lines@.len() ==> lines@[k]@ == strip_crs(parts[k]));
            }
            (lines, rem)
        },
    }
}

/// Line buffer that reassembles event-stream lines across network reads.
pub struct SseBuffer {
    pub buf: Vec<char>,
}

impl SseBuffer {
    /// An empty buffer.
    pub fn new() -> (r: SseBuffer)
        ensures
            r.buf@.len() == 0,
    {
        SseBuffer { buf: Vec::new() }
    }

    /// Append newly received text and hand back the lines it completes; the
    /// unterminated tail stays buffered.
    pub fn push_text(&mut self, text: &str) -> (lines: Vec<String>)
        ensures
            ({
                let parts = crate::text::spec_split(old(self).buf@ + text@, '\n');
                &&& lines@.len() == parts.len() - 1
                &&& forall|k: int| 0 <= k < lines@.len() ==> lines@[k]@ == strip_crs(parts[k])
                &&& final(self).buf@ == parts.last()
            }),
    {
        let tv = chars_of(text);
        crate::text::append_chars(&mut self.buf, tv.as_slice());
        let (lines, rem) = take_lines(self.buf.as_slice());
        self.buf = rem;
        lines
    }
}

/// The data payload a protocol line carries: nothing for blank lines,
/// comments, other fields, or the end-of-stream sentinel; otherwise the
/// trimmed text after `data: `.
pub open spec fn spec_sse_payload(l: Seq<char>) -> Option<Seq<char>> {
    if l.len() == 0 || l[0] == ':' {
        None
    } else if !crate::text::contains_at(l, 0, "data: "@) {
        None
    } else {
        let data = spec_trim(l.skip(6));
        if data == "[DONE]"@ {
            None
        } else {
            Some(data)
        }
    }
}

/// Extract the data payload of one protocol line, if any.
pub fn sse_payload(line: &str) -> (r: Option<String>)
    ensures
        r is Some <==> spec_sse_payload(line@) is Some,
        r matches Some(p) ==> spec_sse_payload(line@) == Some(p@),
{
    let l = chars_of(line);
    let n = l.len();
    if n == 0 {
        return None;
    }
    if l[0] == ':' {
        return None;
    }
    let prefix = chars_of("data: ");
    proof {
        reveal_strlit("data: ");
        assert(prefix@.len() == 6);
    }
    if n < 6 {
        proof {
            assert(!crate::text::contains_at(line@, 0, "data: "@));
        }
        return None;
    }
    if !crate::text::eq_at(l.as_slice(), 0, prefix.as_slice()) {
        return None;
    }
    let rest = slice_range_to_vec(l.as_slice(), 6, n);
    proof {
        assert(rest@ =~= line@.skip(6));
    }
    let data = trim_chars(rest.as_slice());
    let done = chars_of("[DONE]");
    if crate::text::chars_eq(data.as_slice(), done.as_slice()) {
        return None;
    }
    Some(string_from_chars(data.as_slice()))
}

// ── Chunk decoding and processing ────────────────────────────────────────

/// The plain fields a streamed chunk carries.
pub struct ChunkData {
    pub usage: Option<Usage>,
    pub error: Option<String>,
    pub finish_reason: Option<String>,
    pub reasoning: Vec<String>,
    pub content: Option<String>,
    pub tool_deltas: Vec<ToolCallDelta>,
}

/// Read the plain fields out of one decoded chunk value. The input is an
/// outside JSON value, so this boundary has no contract of its own; all
/// accumulation logic over the result is in `apply_chunk`.
pub fn decode_chunk(v: &serde_json::Value) -> ChunkData {
    let usage: Option<Usage> = match jget(v, "usage") {
        Some(u) => Some(
            Usage {
                prompt_tokens: opt_u64(jget(u, "prompt_tokens")),
                completion_tokens: opt_u64(jget(u, "completion_tokens")),
                total_tokens: opt_u64(jget(u, "total_tokens")),
            },
        ),
        None => None,
    };
    let error: Option<String> = match jget(v, "error") {
        Some(e) => Some(
            match jget(e, "message") {
                Some(m) => match jstr(m) {
                    Some(s) => s,
                    None => string_from_chars(chars_of("Unknown API error").as_slice()),
                },
                None => string_from_chars(chars_of("Unknown API error").as_slice()),
            },
        ),
        None => None,
    };
    let mut finish_reason: Option<String> = None;
    let mut reasoning: Vec<String> = Vec::new();
    let mut content: Option<String> = None;
    let mut tool_deltas: Vec<ToolCallDelta> = Vec::new();
    let choice: Option<&serde_json::Value> = match jget(v, "choices") {
        Some(cs) => match jarr(cs) {
            Some(arr) => if arr.len() > 0 {
                Some(&arr[0])
            } else {
                None
            },
            None => None,
        },
        None => None,
    };
    if let Some(choice) = choice {
        match jget(choice, "finish_reason") {
            Some(fr) => {
                finish_reason = jstr(fr);
            },
            None => {},
        }
        if let Some(delta) = jget(choice, "delta") {
            match jget(delta, "reasoning_details") {
                Some(rd) => match jarr(rd) {
                    Some(items) => {
                        let mut i: usize = 0;
                        while i < items.len()
                            decreases items@.len() - i,
                        {
                            match jget(&items[i], "text") {
                                Some(t) => match jstr(t) {
                                    Some(s) => reasoning.push(s),
                                    None => {},
                                },
                                None => {},
                            }
                            i += 1;
                        }
                    },
                    None => {},
                },
                None => {},
            }
            match jget(delta, "reasoning_content") {
                Some(rc) => match jstr(rc) {
                    Some(s) => reasoning.push(s),
                    None => {},
                },
                None => {},
            }
            match jget(delta, "content") {
                Some(c) => {
                    content = jstr(c);
                },
                None => {},
            }
            match jget(delta, "tool_calls") {
                Some(tcs) => match jarr(tcs) {
                    Some(items) => {
                        let mut i: usize = 0;
                        while i < items.len()
                            decreases items@.len() - i,
                        {
                            let tc = &items[i];
                            let index_u64 = opt_u64(jget(tc, "index"));
                            let index: usize = if index_u64 > usize::MAX as u64 {
                                usize::MAX
                            } else {
                                index_u64 as usize
                            };
                            let id = match jget(tc, "id") {
                                Some(x) => jstr(x),
                                None => None,
                            };
                            let (name, arguments) = match jget(tc, "function") {
                                Some(f) => (
                                    match jget(f, "name") {
                                        Some(x) => jstr(x),
                                        None => None,
                                    },
                                    match jget(f, "arguments") {
                                        Some(x) => jstr(x),
                                        None => None,
                                    },
                                ),
                                None => (None, None),
                            };
                            tool_deltas.push(ToolCallDelta { index, id, name, arguments });
                            i += 1;
                        }
                    },
                    None => {},
                },
                None => {},
            }
        }
    }
    ChunkData { usage, error, finish_reason, reasoning, content, tool_deltas }
}

/// The reasoning and content events one decoded chunk produces.
pub open spec fn spec_chunk_base_events(c: ChunkData) -> Seq<StreamEvent> {
    c.reasoning@.map_values(|s: String| StreamEvent::ReasoningChunk(s)) + (match c.content {
        Some(s) => seq![StreamEvent::ContentChunk(s)],
        None => Seq::<StreamEvent>::empty(),
    })
}

/// A `u64` field value, 0 when missing or not a number.
fn opt_u64(v: Option<&serde_json::Value>) -> u64 {
    match v {
        Some(x) => match ju64(x) {
            Some(n) => n,
            None => 0,
        },
        None => 0,
    }
}

impl StreamAccumulator {
    /// Fold one decoded chunk into the state. Usage always updates; a chunk
    /// carrying an error leaves everything else alone and yields one error
    /// event; otherwise content and reasoning append, the finish reason
    /// updates when given, the tool-call fragments fold in, and the events
    /// are the reasoning chunks, the content chunk, and, when fragments
    /// arrived, one snapshot of all accumulated calls in index order.
    pub fn apply_chunk(&mut self, c: &ChunkData) -> (evs: Vec<StreamEvent>)
        requires
            old(self).wf(),
        ensures
            final(self).wf(),
            final(self).usage == (match c.usage {
                Some(u) => u,
                None => old(self).usage,
            }),
            final(self).chunk_count == old(self).chunk_count,
            c.error matches Some(m) ==> ({
                &&& final(self).content == old(self).content
                &&& final(self).reasoning_details == old(self).reasoning_details
                &&& final(self).calls == old(self).calls
                &&& final(self).finish_reason == old(self).finish_reason
                &&& evs@.len() == 1
                &&& (evs@[0] matches StreamEvent::Error(e) && e@ == "API error: "@ + m@)
            }),
            c.error is None ==> ({
                let base = spec_chunk_base_events(*c);
                &&& final(self).finish_reason == (match c.finish_reason {
                    Some(f) => f,
                    None => old(self).finish_reason,
                })
                &&& final(self).reasoning_details@ == old(self).reasoning_details@ + c.reasoning@
                &&& final(self).content@ == old(self).content@ + (match c.content {
                    Some(s) => s@,
                    None => Seq::<char>::empty(),
                })
                &&& final(self).calls_map() == fold_deltas(
                    old(self).calls_map(),
                    c.tool_deltas@.map_values(|d: ToolCallDelta| d@),
                )
                &&& evs@.len() == base.len() + (if c.tool_deltas@.len() > 0 {
                    1int
                } else {
                    0int
                })
                &&& evs@.take(base.len() as int) == base
                &&& (c.tool_deltas@.len() > 0 ==> (evs@.last() matches StreamEvent::ToolCallDelta(
                    v,
                ) && v@.len() == final(self).calls@.len() && (forall|k: int|
                    0 <= k < v@.len() ==> v@[k] == final(self).calls@[k].1)))
            }),
    {
        match c.usage {
            Some(ref u) => {
                self.usage = Usage {
                    prompt_tokens: u.prompt_tokens,
                    completion_tokens: u.completion_tokens,
                    total_tokens: u.total_tokens,
                };
            },
            None => {},
        }
        match c.error {
            Some(ref m) => {
                let mut msg = chars_of("API error: ");
                proof {
                    reveal_strlit("API error: ");
                }
                let mv = chars_of(m.as_str());
                crate::text::append_chars(&mut msg, mv.as_slice());
                let mut evs: Vec<StreamEvent> = Vec::new();
                evs.push(StreamEvent::Error(string_from_chars(msg.as_slice())));
                return evs;
            },
            None => {},
        }
        match c.finish_reason {
            Some(ref f) => {
                self.finish_reason = f.clone();
            },
            None => {},
        }
        let mut evs: Vec<StreamEvent> = Vec::new();
        let ghost base = spec_chunk_base_events(*c);
        let mut i: usize = 0;
        let ghost rd0 = self.reasoning_details@;
        let ghost usage1 = self.usage;
        let ghost fr1 = self.finish_reason;
        while i < c.reasoning.len()
            invariant
                0 <= i <= c.reasoning@.len(),
                self.reasoning_details@ == rd0 + c.reasoning@.take(i as int),
                evs@ == c.reasoning@.take(i as int).map_values(
                    |s: String| StreamEvent::ReasoningChunk(s),
                ),
                self.content == old(self).content,
                self.calls == old(self).calls,
                self.usage == usage1,
                self.finish_reason == fr1,
                self.chunk_count == old(self).chunk_count,
            decreases c.reasoning@.len() - i,
        {
            self.reasoning_details.push(c.reasoning[i].clone());
            evs.push(StreamEvent::ReasoningChunk(c.reasoning[i].clone()));
            proof {
                assert(c.reasoning@.take(i + 1) =~= c.reasoning@.take(i as int).push(
                    c.reasoning@[i as int],
                ));
                assert(self.reasoning_details@ =~= rd0 + c.reasoning@.take(i + 1));
                assert(evs@ =~= c.reasoning@.take(i + 1).map_values(
                    |s: String| StreamEvent::ReasoningChunk(s),
                ));
            }
            i += 1;
        }
        proof {
            assert(c.reasoning@.take(c.reasoning@.len() as int) =~= c.reasoning@);
        }
        match c.content {
            Some(ref s) => {
                self.content.append(s.as_str());
                evs.push(StreamEvent::ContentChunk(s.clone()));
            },
            None => {},
        }
        proof {
            assert(evs@ =~= base);
        }
        let ghost m0 = calls_map_of(self.calls@);
        let ghost dviews = c.tool_deltas@.map_values(|d: ToolCallDelta| d@);
        let ghost content1 = self.content;
        let ghost rd1 = self.reasoning_details;
        let mut k: usize = 0;
        while k < c.tool_deltas.len()
            invariant
                0 <= k <= c.tool_deltas@.len(),
                dviews == c.tool_deltas@.map_values(|d: ToolCallDelta| d@),
                dviews.len() == c.tool_deltas@.len(),
                calls_sorted(self.calls@),
                calls_map_of(self.calls@) == fold_deltas(m0, dviews.take(k as int)),
                evs@ == base,
                self.reasoning_details == rd1,
                self.content == content1,
                self.usage == usage1,
                self.finish_reason == fr1,
                self.chunk_count == old(self).chunk_count,
            decreases c.tool_deltas@.len() - k,
        {
            self.apply_tool_delta(&c.tool_deltas[k]);
            proof {
                assert(dviews.take(k + 1).drop_last() =~= dviews.take(k as int));
                assert(dviews.take(k + 1).last() == dviews[k as int]);
            }
            k += 1;
        }
        proof {
            assert(dviews.take(c.tool_deltas@.len() as int) =~= dviews);
        }
        if c.tool_deltas.len() > 0 {
            let snap = self.snapshot_calls();
            evs.push(StreamEvent::ToolCallDelta(snap));
        }
        evs
    }

    /// Decode one JSON chunk and fold it in, counting the chunk. Whatever
    /// the chunk holds, already accumulated content and reasoning survive as
    /// prefixes of the new state.
    pub fn process_chunk(&mut self, v: &serde_json::Value) -> (evs: Vec<StreamEvent>)
        requires
            old(self).wf(),
        ensures
            final(self).wf(),
            final(self).chunk_count as int == (if old(self).chunk_count < u64::MAX {
                old(self).chunk_count + 1
            } else {
                old(self).chunk_count as int
            }),
            old(self).content@.is_prefix_of(final(self).content@),
            old(self).reasoning_details@.is_prefix_of(final(self).reasoning_details@),
    {
        if self.chunk_count < u64::MAX {
            self.chunk_count = self.chunk_count + 1;
        }
        let c = decode_chunk(v);
        let evs = self.apply_chunk(&c);
        proof {
            assert(self.content@.subrange(0, old(self).content@.len() as int) =~= old(self).content@);
            assert(self.reasoning_details@.subrange(0, old(self).reasoning_details@.len() as int)
                =~= old(self).reasoning_details@);
        }
        evs
    }

    /// The completed lines of buffered text: every newline-terminated piece,
    /// with its trailing carriage returns removed.
    pub open spec fn spec_completed_lines(b: Seq<char>) -> Seq<Seq<char>> {
        let parts = crate::text::spec_split(b, '\n');
        Seq::new((parts.len() - 1) as nat, |k: int| strip_crs(parts[k]))
    }

    /// How many of the lines carry a data payload that parses as JSON: the
    /// chunks the protocol asks to be folded in.
    pub open spec fn spec_chunk_lines(lines: Seq<Seq<char>>) -> int
        decreases lines.len(),
    {
        if lines.len() == 0 {
            0
        } else {
            Self::spec_chunk_lines(lines.drop_last()) + (match spec_sse_payload(lines.last()) {
                Some(payload) => if crate::jsonval::json_parses(payload) {
                    1int
                } else {
                    0int
                },
                None => 0int,
            })
        }
    }

    /// Feed newly received stream text. The unterminated tail stays in the
    /// buffer; every completed line whose data payload parses as JSON is
    /// folded in and counted; already accumulated content and reasoning
    /// survive as prefixes; text that completes no parseable payload changes
    /// nothing and yields no events.
    pub fn feed_text(&mut self, sse: &mut SseBuffer, text: &str) -> (evs: Vec<StreamEvent>)
        requires
            old(self).wf(),
        ensures
            final(self).wf(),
            final(sse).buf@ == crate::text::spec_split(old(sse).buf@ + text@, '\n').last(),
            ({
                let done = StreamAccumulator::spec_completed_lines(old(sse).buf@ + text@);
                let n = Self::spec_chunk_lines(done);
                &&& final(self).chunk_count as int == (if old(self).chunk_count + n > u64::MAX {
                    u64::MAX as int
                } else {
                    old(self).chunk_count + n
                })
                &&& old(self).content@.is_prefix_of(final(self).content@)
                &&& old(self).reasoning_details@.is_prefix_of(final(self).reasoning_details@)
                &&& (n == 0 ==> final(self).content == old(self).content && final(self).reasoning_details@ == old(self).reasoning_details@ && final(self).calls@ == old(self).calls@ && final(self).usage == old(self).usage && final(self).finish_reason
                    == old(self).finish_reason && evs@.len() == 0)
            }),
    {
        let lines = sse.push_text(text);
        let ghost done = StreamAccumulator::spec_completed_lines(old(sse).buf@ + text@);
        proof {
            assert(lines@.map_values(|l: String| l@) =~= done);
        }
        let mut evs: Vec<StreamEvent> = Vec::new();
        let mut i: usize = 0;
        proof {
            assert(done.take(0) =~= Seq::<Seq<char>>::empty());
            assert(Self::spec_chunk_lines(Seq::<Seq<char>>::empty()) == 0);
        }
        while i < lines.len()
            invariant
                self.wf(),
                0 <= i <= lines@.len(),
                lines@.map_values(|l: String| l@) == done,
                done.len() == lines@.len(),
                0 <= Self::spec_chunk_lines(done.take(i as int)),
                self.chunk_count as int == (if old(self).chunk_count + Self::spec_chunk_lines(
                    done.take(i as int),
                ) > u64::MAX {
                    u64::MAX as int
                } else {
                    old(self).chunk_count + Self::spec_chunk_lines(done.take(i as int))
                }),
                old(self).content@.is_prefix_of(self.content@),
                old(self).reasoning_details@.is_prefix_of(self.reasoning_details@),
                Self::spec_chunk_lines(done.take(i as int)) == 0 ==> self.content == old(self).content
                    && self.reasoning_details@ == old(self).reasoning_details@ && self.calls@
                    == old(self).calls@ && self.usage == old(self).usage && self.finish_reason
                    == old(self).finish_reason && evs@.len() == 0,
            decreases lines@.len() - i,
        {
            proof {
                assert(done.take(i + 1).drop_last() =~= done.take(i as int));
                assert(done.take(i + 1).last() == done[i as int]);
                assert(lines@[i as int]@ == done[i as int]);
            }
            match sse_payload(lines[i].as_str()) {
                Some(payload) => {
                    match json_parse(payload.as_str()) {
                        Some(v) => {
                            let ghost content_before = self.content@;
                            let ghost reasoning_before = self.reasoning_details@;
                            let mut more = self.process_chunk(&v);
                            proof {
                                crate::text::lemma_prefix_transitive(
                                    old(self).content@,
                                    content_before,
                                    self.content@,
                                );
                                crate::text::lemma_prefix_transitive(
                                    old(self).reasoning_details@,
                                    reasoning_before,
                                    self.reasoning_details@,
                                );
                            }
                            evs.append(&mut more);
                        },
                        None => {},
                    }
                },
                None => {},
            }
            i += 1;
        }
        proof {
            assert(done.take(done.len() as int) =~= done);
        }
        evs
    }

    /// Whether the wire succeeded but nothing at all came back.
    pub fn is_empty_response(&self) -> (r: bool)
        ensures
            r == (self.chunk_count == 0 && self.content@.len() == 0 && self.calls@.len() == 0),
    {
        self.chunk_count == 0 && self.content.as_str().is_empty() && self.calls.len() == 0
    }

    /// The final accumulated result: content, reasoning, the calls in index
    /// order, usage and finish reason as accumulated.
    pub fn result(&self) -> (r: StreamResult)
        ensures
            r.content == self.content,
            r.reasoning_details@ == self.reasoning_details@,
            r.tool_calls@.len() == self.calls@.len(),
            forall|k: int| 0 <= k < r.tool_calls@.len() ==> r.tool_calls@[k] == self.calls@[k].1,
            r.usage == self.usage,
            r.finish_reason == self.finish_reason,
    {
        StreamResult {
            content: self.content.clone(),
            reasoning_details: clone_strings(&self.reasoning_details),
            tool_calls: self.snapshot_calls(),
            usage: Usage {
                prompt_tokens: self.usage.prompt_tokens,
                completion_tokens: self.usage.completion_tokens,
                total_tokens: self.usage.total_tokens,
            },
            finish_reason: self.finish_reason.clone(),
        }
    }
}

/// An element-for-element copy of a string list.
pub fn clone_strings(v: &Vec<String>) -> (r: Vec<String>)
    ensures
        r@ == v@,
{
    let mut r: Vec<String> = Vec::new();
    let mut i: usize = 0;
    while i < v.len()
        invariant
            0 <= i <= v@.len(),
            r@ == v@.take(i as int),
        decreases v@.len() - i,
    {
        r.push(v[i].clone());
        proof {
            assert(r@ =~= v@.take(i + 1));
        }
        i += 1;
    }
    proof {
        assert(v@.take(v@.len() as int) =~= v@);
    }
    r
}

} // verus!

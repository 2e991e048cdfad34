//! Parser for raw model output: inline reasoning blocks, an XML-like
//! tool-invocation grammar, and detection of partially streamed tags.

use vstd::prelude::*;

use crate::text::{
    append_chars, chars_of, contains_at, contains_seq, find_from, is_ws, lemma_spec_find_props,
    seq_contains, slice_range_to_vec, spec_find, spec_trim, string_from_chars, trim_chars,
};

verus! {

/// Opening marker of a reasoning block.
pub open spec fn think_open() -> Seq<char> {
    "<think>"@
}

/// Closing marker of a reasoning block.
pub open spec fn think_close() -> Seq<char> {
    "</think>"@
}

/// Opening marker of a tool-call container.
pub open spec fn call_open() -> Seq<char> {
    "<minimax:tool_call>"@
}

/// Closing marker of a tool-call container.
pub open spec fn call_close() -> Seq<char> {
    "</minimax:tool_call>"@
}

/// The four markers have their literal lengths and first characters.
pub proof fn lemma_tag_lens()
    ensures
        think_open().len() == 7,
        think_close().len() == 8,
        call_open().len() == 19,
        call_close().len() == 20,
        think_open()[0] == '<',
        call_open()[0] == '<',
{
    reveal_strlit("<think>");
    reveal_strlit("</think>");
    reveal_strlit("<minimax:tool_call>");
    reveal_strlit("</minimax:tool_call>");
}

/// All completed `open .. close` blocks of `s`, scanned left to right without
/// overlap, together with `s` stripped of those blocks (markers included).
pub open spec fn spec_blocks(s: Seq<char>, open: Seq<char>, close: Seq<char>) -> (
    Seq<Seq<char>>,
    Seq<char>,
)
    decreases s.len(),
    when open.len() > 0 && close.len() > 0
    via spec_blocks_decreases
{
    match spec_find(s, open, 0) {
        None => (Seq::empty(), s),
        Some(i) => match spec_find(s, close, i + open.len()) {
            None => (Seq::empty(), s),
            Some(j) => {
                let rest = spec_blocks(s.skip(j + close.len()), open, close);
                (seq![s.subrange(i + open.len(), j)] + rest.0, s.subrange(0, i) + rest.1)
            },
        },
    }
}

#[via_fn]
proof fn spec_blocks_decreases(s: Seq<char>, open: Seq<char>, close: Seq<char>) {
    match spec_find(s, open, 0) {
        None => {},
        Some(i) => {
            lemma_spec_find_props(s, open, 0);
            match spec_find(s, close, i + open.len()) {
                None => {},
                Some(j) => {
                    lemma_spec_find_props(s, close, i + open.len());
                },
            }
        },
    }
}

/// Extract all completed blocks between `open` and `close` and remove them.
pub fn extract_blocks(s: &[char], open: &[char], close: &[char]) -> (r: (Vec<Vec<char>>, Vec<
    char,
>))
    requires
        open@.len() > 0,
        close@.len() > 0,
    ensures
        r.0@.len() == spec_blocks(s@, open@, close@).0.len(),
        forall|k: int| 0 <= k < r.0@.len() ==> r.0@[k]@ == spec_blocks(s@, open@, close@).0[k],
        r.1@ == spec_blocks(s@, open@, close@).1,
    decreases s@.len(),
{
    let n = s.len();
    match find_from(s, open, 0) {
        None => (Vec::new(), slice_range_to_vec(s, 0, n)),
        Some(i) => {
            match find_from(s, close, i + open.len()) {
                None => (Vec::new(), slice_range_to_vec(s, 0, n)),
                Some(j) => {
                    proof {
                        lemma_spec_find_props(s@, open@, 0);
                        lemma_spec_find_props(s@, close@, i + open@.len());
                    }
                    let inner = slice_range_to_vec(s, i + open.len(), j);
                    let suffix = slice_range_to_vec(s, j + close.len(), n);
                    proof {
                        assert(suffix@ =~= s@.skip(j + close@.len()));
                    }
                    let (mut blocks_rest, rem_rest) = extract_blocks(
                        suffix.as_slice(),
                        open,
                        close,
                    );
                    let mut blocks: Vec<Vec<char>> = Vec::new();
                    blocks.push(inner);
                    let ghost brest0 = blocks_rest@;
                    blocks.append(&mut blocks_rest);
                    let mut rem = slice_range_to_vec(s, 0, i);
                    append_chars(&mut rem, rem_rest.as_slice());
                    proof {
                        let sp = spec_blocks(s@, open@, close@);
                        assert(forall|k: int|
                            0 <= k < brest0.len() ==> blocks@[k + 1] == brest0[k]);
                        assert(forall|k: int|
                            0 <= k < blocks@.len() ==> blocks@[k]@ == sp.0[k]);
                    }
                    (blocks, rem)
                },
            }
        },
    }
}

/// Joining rule for reasoning fragments: trim the new part, skip it when it
/// is empty, otherwise separate it from earlier text with a newline.
pub open spec fn spec_add_part(acc: Seq<char>, part: Seq<char>) -> Seq<char> {
    let t = spec_trim(part);
    if t.len() == 0 {
        acc
    } else if acc.len() == 0 {
        t
    } else {
        acc + seq!['\n'] + t
    }
}

/// All parts joined onto `acc`, in order.
pub open spec fn spec_join_parts(parts: Seq<Seq<char>>, acc: Seq<char>) -> Seq<char>
    decreases parts.len(),
{
    if parts.len() == 0 {
        acc
    } else {
        spec_join_parts(parts.drop_first(), spec_add_part(acc, parts[0]))
    }
}

/// Joining one more part at the end folds onto the joined prefix.
pub proof fn lemma_join_snoc(parts: Seq<Seq<char>>, p: Seq<char>, acc: Seq<char>)
    ensures
        spec_join_parts(parts.push(p), acc) == spec_add_part(spec_join_parts(parts, acc), p),
    decreases parts.len(),
{
    let q = parts.push(p);
    assert(q.len() == parts.len() + 1);
    assert(q[0] == if parts.len() == 0 {
        p
    } else {
        parts[0]
    });
    assert(spec_join_parts(q, acc) == spec_join_parts(q.drop_first(), spec_add_part(acc, q[0])));
    if parts.len() == 0 {
        assert(q.drop_first() =~= Seq::<Seq<char>>::empty());
        assert(spec_join_parts(q.drop_first(), spec_add_part(acc, p)) == spec_add_part(acc, p));
        assert(spec_join_parts(parts, acc) == acc);
    } else {
        lemma_join_snoc(parts.drop_first(), p, spec_add_part(acc, parts[0]));
        assert(q.drop_first() =~= parts.drop_first().push(p));
        assert(spec_join_parts(parts, acc) == spec_join_parts(
            parts.drop_first(),
            spec_add_part(acc, parts[0]),
        ));
    }
}

/// Append one reasoning part to the accumulator under the joining rule.
pub fn add_part(acc: &mut Vec<char>, part: &[char])
    ensures
        final(acc)@ == spec_add_part(old(acc)@, part@),
{
    let t = trim_chars(part);
    if t.len() == 0 {
        return ;
    }
    if acc.len() == 0 {
        append_chars(acc, t.as_slice());
        proof {
            assert(acc@ =~= spec_trim(part@));
        }
        return ;
    }
    acc.push('\n');
    append_chars(acc, t.as_slice());
    proof {
        assert(acc@ =~= old(acc)@ + seq!['\n'] + spec_trim(part@));
    }
}

/// Join all parts under the joining rule.
pub fn join_parts(parts: &Vec<Vec<char>>) -> (r: Vec<char>)
    ensures
        r@ == spec_join_parts(parts@.map_values(|v: Vec<char>| v@), Seq::empty()),
{
    let ghost pviews = parts@.map_values(|v: Vec<char>| v@);
    let mut acc: Vec<char> = Vec::new();
    let mut i: usize = 0;
    while i < parts.len()
        invariant
            0 <= i <= parts@.len(),
            pviews == parts@.map_values(|v: Vec<char>| v@),
            pviews.len() == parts@.len(),
            acc@ == spec_join_parts(pviews.take(i as int), Seq::empty()),
        decreases parts@.len() - i,
    {
        add_part(&mut acc, parts[i].as_slice());
        proof {
            lemma_join_snoc(pviews.take(i as int), pviews[i as int], Seq::empty());
            assert(pviews.take(i + 1) =~= pviews.take(i as int).push(pviews[i as int]));
        }
        i += 1;
    }
    proof {
        assert(pviews.take(parts@.len() as int) =~= pviews);
    }
    acc
}

/// ASCII letter.
pub open spec fn is_alpha(c: char) -> bool {
    ('a' as u32 <= c as u32 && c as u32 <= 'z' as u32) || ('A' as u32 <= c as u32 && c as u32
        <= 'Z' as u32)
}

fn is_alpha_char(c: char) -> (r: bool)
    ensures
        r == is_alpha(c),
{
    let u = c as u32;
    ('a' as u32 <= u && u <= 'z' as u32) || ('A' as u32 <= u && u <= 'Z' as u32)
}

/// A quote character of the attribute grammar.
pub open spec fn is_quote(c: char) -> bool {
    c == '"' || c == '\''
}

/// A character allowed inside an attribute name value.
pub open spec fn is_name_char(c: char) -> bool {
    !is_quote(c) && c != '>' && !is_ws(c)
}

/// Length of the run of whitespace starting at `p`.
pub open spec fn ws_run(s: Seq<char>, p: int) -> int
    decreases s.len() - p,
    when p >= 0
{
    if p >= s.len() || !is_ws(s[p]) {
        0
    } else {
        1 + ws_run(s, p + 1)
    }
}

/// Length of the run of name characters starting at `p`.
pub open spec fn name_run(s: Seq<char>, p: int) -> int
    decreases s.len() - p,
    when p >= 0
{
    if p >= s.len() || !is_name_char(s[p]) {
        0
    } else {
        1 + name_run(s, p + 1)
    }
}

pub proof fn lemma_ws_run(s: Seq<char>, p: int)
    requires
        0 <= p <= s.len(),
    ensures
        0 <= ws_run(s, p),
        p + ws_run(s, p) <= s.len(),
    decreases s.len() - p,
{
    if p < s.len() && is_ws(s[p]) {
        lemma_ws_run(s, p + 1);
    }
}

pub proof fn lemma_name_run(s: Seq<char>, p: int)
    requires
        0 <= p <= s.len(),
    ensures
        0 <= name_run(s, p),
        p + name_run(s, p) <= s.len(),
    decreases s.len() - p,
{
    if p < s.len() && is_name_char(s[p]) {
        lemma_name_run(s, p + 1);
    }
}

/// Count whitespace characters from position `p`.
fn ws_run_exec(s: &[char], p: usize) -> (r: usize)
    requires
        p <= s@.len(),
    ensures
        r == ws_run(s@, p as int),
        p + r <= s@.len(),
{
    proof {
        lemma_ws_run(s@, p as int);
    }
    let mut q = p;
    while q < s.len() && is_ws_char2(s[q])
        invariant
            p <= q <= s@.len(),
            ws_run(s@, p as int) == (q - p) + ws_run(s@, q as int),
        decreases s@.len() - q,
    {
        q += 1;
    }
    proof {
        assert(ws_run(s@, q as int) == 0);
    }
    q - p
}

fn is_ws_char2(c: char) -> (r: bool)
    ensures
        r == is_ws(c),
{
    c == ' ' || c == '\t' || c == '\n' || c == '\r'
}

/// Count name characters from position `p`.
fn name_run_exec(s: &[char], p: usize) -> (r: usize)
    requires
        p <= s@.len(),
    ensures
        r == name_run(s@, p as int),
        p + r <= s@.len(),
{
    proof {
        lemma_name_run(s@, p as int);
    }
    let mut q = p;
    while q < s.len() && is_name_char_exec(s[q])
        invariant
            p <= q <= s@.len(),
            name_run(s@, p as int) == (q - p) + name_run(s@, q as int),
        decreases s@.len() - q,
    {
        q += 1;
    }
    proof {
        assert(name_run(s@, q as int) == 0);
    }
    q - p
}

fn is_name_char_exec(c: char) -> (r: bool)
    ensures
        r == is_name_char(c),
{
    !(c == '"' || c == '\'') && c != '>' && !is_ws_char2(c)
}

/// Attribute recognition for an element opened at `i` whose tag word has
/// length `tag_len`: at least one whitespace character, then `name=`, an
/// optionally quoted nonempty name, optional whitespace, and `>`. Yields
/// (name start, name end, body start).
pub open spec fn spec_attrs(s: Seq<char>, i: int, tag_len: int) -> Option<(int, int, int)> {
    let p0 = i + tag_len;
    if p0 < 0 {
        None
    } else {
        let w = ws_run(s, p0);
        if w == 0 {
            None
        } else {
            let p1 = p0 + w;
            if !contains_at(s, p1, "name="@) {
                None
            } else {
                let p2 = p1 + 5;
                let p3 = if p2 < s.len() && is_quote(s[p2]) {
                    p2 + 1
                } else {
                    p2
                };
                let n = name_run(s, p3);
                if n == 0 {
                    None
                } else {
                    let p4 = p3 + n;
                    let p5 = if p4 < s.len() && is_quote(s[p4]) {
                        p4 + 1
                    } else {
                        p4
                    };
                    let p6 = p5 + ws_run(s, p5);
                    if p6 < s.len() && s[p6] == '>' {
                        Some((p3, p4, p6 + 1))
                    } else {
                        None
                    }
                }
            }
        }
    }
}

/// Recognized attributes lie inside the string, after the tag word.
pub proof fn lemma_spec_attrs_bounds(s: Seq<char>, i: int, tag_len: int)
    requires
        0 <= i,
        0 <= tag_len,
        spec_attrs(s, i, tag_len) is Some,
    ensures
        ({
            let (ns, ne, bs) = spec_attrs(s, i, tag_len)->Some_0;
            i + tag_len < ns < ne < bs <= s.len()
        }),
{
    let p0 = i + tag_len;
    lemma_ws_run(s, if p0 <= s.len() {
        p0
    } else {
        s.len() as int
    });
    if p0 > s.len() {
        assert(ws_run(s, p0) == 0);
    } else {
        lemma_ws_run(s, p0);
        let w = ws_run(s, p0);
        let p1 = p0 + w;
        let p2 = p1 + 5;
        let p3 = if p2 < s.len() && is_quote(s[p2]) {
            p2 + 1
        } else {
            p2
        };
        if 0 <= p3 <= s.len() {
            lemma_name_run(s, p3);
            let p4 = p3 + name_run(s, p3);
            let p5 = if p4 < s.len() && is_quote(s[p4]) {
                p4 + 1
            } else {
                p4
            };
            if 0 <= p5 <= s.len() {
                lemma_ws_run(s, p5);
            }
        }
    }
}

/// Evaluate the attribute grammar at element start `i`.
fn attrs_exec(s: &[char], i: usize, tag_len: usize) -> (r: Option<(usize, usize, usize)>)
    requires
        i + tag_len <= s@.len(),
    ensures
        r is Some <==> spec_attrs(s@, i as int, tag_len as int) is Some,
        r matches Some((ns, ne, bs)) ==> spec_attrs(s@, i as int, tag_len as int) == Some(
            (ns as int, ne as int, bs as int),
        ),
{
    let n = s.len();
    let p0 = i + tag_len;
    let w = ws_run_exec(s, p0);
    if w == 0 {
        return None;
    }
    let p1 = p0 + w;
    let name_eq = chars_of("name=");
    proof {
        reveal_strlit("name=");
        assert(name_eq@.len() == 5);
    }
    if n - p1 < 5 {
        proof {
            assert(!contains_at(s@, p1 as int, "name="@));
        }
        return None;
    }
    let has_name = crate::text::eq_at(s, p1, name_eq.as_slice());
    if !has_name {
        return None;
    }
    let p2 = p1 + 5;
    let p3 = if p2 < s.len() && is_quote_exec(s[p2]) {
        p2 + 1
    } else {
        p2
    };
    let n = name_run_exec(s, p3);
    if n == 0 {
        return None;
    }
    let p4 = p3 + n;
    let p5 = if p4 < s.len() && is_quote_exec(s[p4]) {
        p4 + 1
    } else {
        p4
    };
    let w2 = ws_run_exec(s, p5);
    let p6 = p5 + w2;
    if p6 < s.len() && s[p6] == '>' {
        Some((p3, p4, p6 + 1))
    } else {
        None
    }
}

fn is_quote_exec(c: char) -> (r: bool)
    ensures
        r == is_quote(c),
{
    c == '"' || c == '\''
}

/// One parsed `invoke` element: its name attribute and raw body.
pub ghost struct InvokeView {
    pub name: Seq<char>,
    pub body: Seq<char>,
}

/// All `invoke` elements of `s` at or after `from`: an opening `<invoke`
/// whose attributes parse and whose body is closed by `</invoke>`; an
/// opening that does not complete is skipped.
pub open spec fn spec_invokes(s: Seq<char>, from: int) -> Seq<InvokeView>
    decreases s.len() - from,
    when 0 <= from
    via spec_invokes_decreases
{
    match spec_find(s, "<invoke"@, from) {
        None => Seq::empty(),
        Some(i) => match spec_attrs(s, i, 7) {
            None => spec_invokes(s, i + 1),
            Some((ns, ne, bs)) => match spec_find(s, "</invoke>"@, bs) {
                None => spec_invokes(s, i + 1),
                Some(j) => seq![
                    InvokeView { name: s.subrange(ns, ne), body: s.subrange(bs, j) },
                ] + spec_invokes(s, j + 9),
            },
        },
    }
}

#[via_fn]
proof fn spec_invokes_decreases(s: Seq<char>, from: int) {
    reveal_strlit("<invoke");
    reveal_strlit("</invoke>");
    match spec_find(s, "<invoke"@, from) {
        None => {},
        Some(i) => {
            lemma_spec_find_props(s, "<invoke"@, from);
            match spec_attrs(s, i, 7) {
                None => {},
                Some((ns, ne, bs)) => {
                    lemma_spec_attrs_bounds(s, i, 7);
                    match spec_find(s, "</invoke>"@, bs) {
                        None => {},
                        Some(j) => {
                            lemma_spec_find_props(s, "</invoke>"@, bs);
                        },
                    }
                },
            }
        },
    }
}

/// Scan all complete `invoke` elements from `from` on.
fn scan_invokes(s: &[char], from: usize) -> (r: Vec<(Vec<char>, Vec<char>)>)
    ensures
        r@.len() == spec_invokes(s@, from as int).len(),
        forall|k: int|
            0 <= k < r@.len() ==> r@[k].0@ == spec_invokes(s@, from as int)[k].name && r@[k].1@
                == spec_invokes(s@, from as int)[k].body,
    decreases s@.len() - from,
{
    let n = s.len();
    let open_pat = chars_of("<invoke");
    let close_pat = chars_of("</invoke>");
    proof {
        reveal_strlit("<invoke");
        reveal_strlit("</invoke>");
        assert(open_pat@.len() == 7);
        assert(close_pat@.len() == 9);
    }
    match find_from(s, open_pat.as_slice(), from) {
        None => Vec::new(),
        Some(i) => {
            proof {
                lemma_spec_find_props(s@, "<invoke"@, from as int);
            }
            match attrs_exec(s, i, 7) {
                None => scan_invokes(s, i + 1),
                Some((ns, ne, bs)) => {
                    proof {
                        lemma_spec_attrs_bounds(s@, i as int, 7);
                    }
                    match find_from(s, close_pat.as_slice(), bs) {
                        None => scan_invokes(s, i + 1),
                        Some(j) => {
                            proof {
                                lemma_spec_find_props(s@, "</invoke>"@, bs as int);
                            }
                            let name = slice_range_to_vec(s, ns, ne);
                            let body = slice_range_to_vec(s, bs, j);
                            let mut rest = scan_invokes(s, j + 9);
                            let mut r: Vec<(Vec<char>, Vec<char>)> = Vec::new();
                            r.push((name, body));
                            let ghost rest0 = rest@;
                            r.append(&mut rest);
                            proof {
                                let sp = spec_invokes(s@, from as int);
                                assert(forall|k: int|
                                    0 <= k < rest0.len() ==> r@[k + 1] == rest0[k]);
                                assert(forall|k: int|
                                    0 <= k < r@.len() ==> r@[k].0@ == sp[k].name && r@[k].1@
                                        == sp[k].body);
                            }
                            r
                        },
                    }
                },
            }
        },
    }
}

/// All `parameter` elements of `s` at or after `from`, as (name, trimmed
/// value) pairs, in order of appearance.
pub open spec fn spec_params(s: Seq<char>, from: int) -> Seq<(Seq<char>, Seq<char>)>
    decreases s.len() - from,
    when 0 <= from
    via spec_params_decreases
{
    match spec_find(s, "<parameter"@, from) {
        None => Seq::empty(),
        Some(i) => match spec_attrs(s, i, 10) {
            None => spec_params(s, i + 1),
            Some((ns, ne, bs)) => match spec_find(s, "</parameter>"@, bs) {
                None => spec_params(s, i + 1),
                Some(j) => seq![(s.subrange(ns, ne), spec_trim(s.subrange(bs, j)))] + spec_params(
                    s,
                    j + 12,
                ),
            },
        },
    }
}

#[via_fn]
proof fn spec_params_decreases(s: Seq<char>, from: int) {
    reveal_strlit("<parameter");
    reveal_strlit("</parameter>");
    match spec_find(s, "<parameter"@, from) {
        None => {},
        Some(i) => {
            lemma_spec_find_props(s, "<parameter"@, from);
            match spec_attrs(s, i, 10) {
                None => {},
                Some((ns, ne, bs)) => {
                    lemma_spec_attrs_bounds(s, i, 10);
                    match spec_find(s, "</parameter>"@, bs) {
                        None => {},
                        Some(j) => {
                            lemma_spec_find_props(s, "</parameter>"@, bs);
                        },
                    }
                },
            }
        },
    }
}

/// Scan all complete `parameter` elements from `from` on.
pub(crate) fn scan_params(s: &[char], from: usize) -> (r: Vec<(Vec<char>, Vec<char>)>)
    ensures
        r@.len() == spec_params(s@, from as int).len(),
        forall|k: int|
            0 <= k < r@.len() ==> r@[k].0@ == spec_params(s@, from as int)[k].0 && r@[k].1@
                == spec_params(s@, from as int)[k].1,
    decreases s@.len() - from,
{
    let n = s.len();
    let open_pat = chars_of("<parameter");
    let close_pat = chars_of("</parameter>");
    proof {
        reveal_strlit("<parameter");
        reveal_strlit("</parameter>");
        assert(open_pat@.len() == 10);
        assert(close_pat@.len() == 12);
    }
    match find_from(s, open_pat.as_slice(), from) {
        None => Vec::new(),
        Some(i) => {
            proof {
                lemma_spec_find_props(s@, "<parameter"@, from as int);
            }
            match attrs_exec(s, i, 10) {
                None => scan_params(s, i + 1),
                Some((ns, ne, bs)) => {
                    proof {
                        lemma_spec_attrs_bounds(s@, i as int, 10);
                    }
                    match find_from(s, close_pat.as_slice(), bs) {
                        None => scan_params(s, i + 1),
                        Some(j) => {
                            proof {
                                lemma_spec_find_props(s@, "</parameter>"@, bs as int);
                            }
                            let name = slice_range_to_vec(s, ns, ne);
                            let raw_value = slice_range_to_vec(s, bs, j);
                            let value = trim_chars(raw_value.as_slice());
                            let mut rest = scan_params(s, j + 12);
                            let mut r: Vec<(Vec<char>, Vec<char>)> = Vec::new();
                            r.push((name, value));
                            let ghost rest0 = rest@;
                            r.append(&mut rest);
                            proof {
                                let sp = spec_params(s@, from as int);
                                assert(forall|k: int|
                                    0 <= k < rest0.len() ==> r@[k + 1] == rest0[k]);
                                assert(forall|k: int|
                                    0 <= k < r@.len() ==> r@[k].0@ == sp[k].0 && r@[k].1@
                                        == sp[k].1);
                            }
                            r
                        },
                    }
                },
            }
        },
    }
}

/// A tool call parsed from the fallback grammar.
#[derive(Debug, Clone, PartialEq)]
pub struct ParsedToolCall {
    pub name: String,
    pub arguments: Vec<(String, String)>,
}

/// Spec-level shape of a parsed tool call.
pub ghost struct ToolCallView {
    pub name: Seq<char>,
    pub args: Seq<(Seq<char>, Seq<char>)>,
}

impl View for ParsedToolCall {
    type V = ToolCallView;

    open spec fn view(&self) -> ToolCallView {
        ToolCallView {
            name: self.name@,
            args: self.arguments@.map_values(|p: (String, String)| (p.0@, p.1@)),
        }
    }
}

/// Value of the last argument with the given name.
pub open spec fn spec_get_arg(args: Seq<(Seq<char>, Seq<char>)>, name: Seq<char>) -> Option<
    Seq<char>,
>
    decreases args.len(),
{
    if args.len() == 0 {
        None
    } else if args.last().0 == name {
        Some(args.last().1)
    } else {
        spec_get_arg(args.drop_last(), name)
    }
}

impl ParsedToolCall {
    /// Look an argument up by name; on repeats the latest wins.
    pub fn get_arg(&self, name: &str) -> (r: Option<&String>)
        ensures
            match r {
                Some(v) => spec_get_arg(self@.args, name@) == Some(v@),
                None => spec_get_arg(self@.args, name@) is None,
            },
    {
        let ghost args = self@.args;
        let mut i: usize = self.arguments.len();
        proof {
            assert(args.take(self.arguments@.len() as int) =~= args);
        }
        while i > 0
            invariant
                0 <= i <= self.arguments@.len(),
                args == self@.args,
                args.len() == self.arguments@.len(),
                forall|k: int| 0 <= k < args.len() ==> args[k].0 == self.arguments@[k].0@
                    && args[k].1 == self.arguments@[k].1@,
                spec_get_arg(args, name@) == spec_get_arg(args.take(i as int), name@),
            decreases i,
        {
            i -= 1;
            if crate::text::str_eq(self.arguments[i].0.as_str(), name) {
                proof {
                    assert(args.take(i + 1).last() == args[i as int]);
                    assert(spec_get_arg(args.take(i + 1), name@) == Some(args[i as int].1));
                }
                return Some(&self.arguments[i].1);
            }
            proof {
                assert(args.take(i + 1).last() == args[i as int]);
                assert(args.take(i + 1).drop_last() =~= args.take(i as int));
            }
        }
        proof {
            assert(args.take(0) =~= Seq::<(Seq<char>, Seq<char>)>::empty());
        }
        None
    }
}

/// The tool calls of one container block: its complete `invoke` elements,
/// each with its parsed parameters.
pub open spec fn spec_block_calls(b: Seq<char>) -> Seq<ToolCallView> {
    spec_invokes(b, 0).map_values(
        |iv: InvokeView| ToolCallView { name: iv.name, args: spec_params(iv.body, 0) },
    )
}

/// Convert one scanned (name, body) pair into a `ParsedToolCall`.
fn build_call(name: &[char], body: &[char]) -> (r: ParsedToolCall)
    ensures
        r@.name == name@,
        r@.args == spec_params(body@, 0),
{
    let params = scan_params(body, 0);
    let mut arguments: Vec<(String, String)> = Vec::new();
    let ghost sp = spec_params(body@, 0);
    let mut i: usize = 0;
    while i < params.len()
        invariant
            0 <= i <= params@.len(),
            params@.len() == sp.len(),
            forall|k: int| 0 <= k < sp.len() ==> params@[k].0@ == sp[k].0 && params@[k].1@
                == sp[k].1,
            arguments@.len() == i,
            forall|k: int| 0 <= k < i ==> arguments@[k].0@ == sp[k].0 && arguments@[k].1@
                == sp[k].1,
        decreases params@.len() - i,
    {
        let pname = string_from_chars(params[i].0.as_slice());
        let pval = string_from_chars(params[i].1.as_slice());
        arguments.push((pname, pval));
        i += 1;
    }
    let r = ParsedToolCall { name: string_from_chars(name), arguments };
    proof {
        assert(r@.args =~= sp);
    }
    r
}

/// Parse the inside of one tool-call container into its tool calls.
pub fn parse_tool_call_block(block: &str) -> (r: Vec<ParsedToolCall>)
    ensures
        r@.map_values(|tc: ParsedToolCall| tc@) == spec_block_calls(block@),
{
    let chars = chars_of(block);
    parse_block_chars(chars.as_slice())
}

fn parse_block_chars(chars: &[char]) -> (r: Vec<ParsedToolCall>)
    ensures
        r@.map_values(|tc: ParsedToolCall| tc@) == spec_block_calls(chars@),
{
    let invokes = scan_invokes(chars, 0);
    let ghost iv = spec_invokes(chars@, 0);
    let mut r: Vec<ParsedToolCall> = Vec::new();
    let mut i: usize = 0;
    while i < invokes.len()
        invariant
            0 <= i <= invokes@.len(),
            invokes@.len() == iv.len(),
            forall|k: int| 0 <= k < iv.len() ==> invokes@[k].0@ == iv[k].name && invokes@[k].1@
                == iv[k].body,
            r@.len() == i,
            forall|k: int| 0 <= k < i ==> r@[k]@.name == iv[k].name && r@[k]@.args == spec_params(
                iv[k].body,
                0,
            ),
        decreases invokes@.len() - i,
    {
        let call = build_call(invokes[i].0.as_slice(), invokes[i].1.as_slice());
        r.push(call);
        i += 1;
    }
    proof {
        assert(r@.map_values(|tc: ParsedToolCall| tc@) =~= spec_block_calls(chars@));
    }
    r
}

/// Tool calls of all container blocks, in order.
pub open spec fn spec_all_calls(blocks: Seq<Seq<char>>) -> Seq<ToolCallView>
    decreases blocks.len(),
{
    if blocks.len() == 0 {
        Seq::empty()
    } else {
        spec_block_calls(blocks[0]) + spec_all_calls(blocks.drop_first())
    }
}

/// Block lists concatenate under `spec_all_calls`.
pub proof fn lemma_all_calls_snoc(blocks: Seq<Seq<char>>, b: Seq<char>)
    ensures
        spec_all_calls(blocks.push(b)) == spec_all_calls(blocks) + spec_block_calls(b),
    decreases blocks.len(),
{
    let q = blocks.push(b);
    if blocks.len() == 0 {
        assert(q.drop_first() =~= Seq::<Seq<char>>::empty());
        assert(q[0] == b);
        assert(spec_all_calls(q.drop_first()) == spec_all_calls(Seq::<Seq<char>>::empty()));
        assert(spec_all_calls(Seq::<Seq<char>>::empty()) =~= Seq::<ToolCallView>::empty());
        assert(spec_all_calls(q) =~= spec_block_calls(b));
        assert(spec_all_calls(blocks) + spec_block_calls(b) =~= spec_block_calls(b));
    } else {
        lemma_all_calls_snoc(blocks.drop_first(), b);
        assert(q.drop_first() =~= blocks.drop_first().push(b));
        assert(q[0] == blocks[0]);
        assert(spec_all_calls(q) =~= spec_all_calls(blocks) + spec_block_calls(b));
    }
}

// ── Partial trailing tags ────────────────────────────────────────────────

/// A trailing fragment at `m` that looks like the start of a tag: `<`, an
/// optional `/`, a letter, and no `>` anywhere to the end.
pub open spec fn partial_tag_shape(s: Seq<char>, m: int) -> bool {
    &&& 0 <= m < s.len()
    &&& s[m] == '<'
    &&& forall|k: int| m < k < s.len() ==> s[k] != '>'
    &&& m + 1 < s.len()
    &&& (is_alpha(s[m + 1]) || (s[m + 1] == '/' && m + 2 < s.len() && is_alpha(s[m + 2])))
}

/// Leftmost trailing-tag fragment at or after `from`.
pub open spec fn spec_first_partial(s: Seq<char>, from: int) -> Option<int>
    decreases s.len() - from,
    when 0 <= from
{
    if from >= s.len() {
        None
    } else if partial_tag_shape(s, from) {
        Some(from)
    } else {
        spec_first_partial(s, from + 1)
    }
}

/// Case-blind match of `c` against a lowercase reference character.
pub open spec fn lower_eq(c: char, d: char) -> bool {
    c == d || ('A' as u32 <= c as u32 <= 'Z' as u32 && c as u32 + 32 == d as u32)
}

fn lower_eq_exec(c: char, d: char) -> (r: bool)
    ensures
        r == lower_eq(c, d),
{
    let cu = c as u32;
    let du = d as u32;
    c == d || ('A' as u32 <= cu && cu <= 'Z' as u32 && cu + 32 == du)
}

/// Whether `p`, folded to lowercase, is a prefix of `tag`.
pub open spec fn is_ci_prefix(p: Seq<char>, tag: Seq<char>) -> bool {
    p.len() <= tag.len() && forall|j: int| 0 <= j < p.len() ==> lower_eq(p[j], tag[j])
}

fn ci_prefix_exec(p: &[char], tag: &[char]) -> (r: bool)
    ensures
        r == is_ci_prefix(p@, tag@),
{
    if p.len() > tag.len() {
        return false;
    }
    let mut j: usize = 0;
    while j < p.len()
        invariant
            p@.len() <= tag@.len(),
            0 <= j <= p@.len(),
            forall|k: int| 0 <= k < j ==> lower_eq(p@[k], tag@[k]),
        decreases p@.len() - j,
    {
        if !lower_eq_exec(p[j], tag[j]) {
            return false;
        }
        j += 1;
    }
    true
}

/// Whether the fragment is a case-blind prefix of a recognized marker.
pub open spec fn known_partial(p: Seq<char>) -> bool {
    ||| is_ci_prefix(p, think_open())
    ||| is_ci_prefix(p, think_close())
    ||| is_ci_prefix(p, call_open())
    ||| is_ci_prefix(p, call_close())
}

fn known_partial_exec(p: &[char]) -> (r: bool)
    ensures
        r == known_partial(p@),
{
    let t_open = chars_of("<think>");
    let t_close = chars_of("</think>");
    let c_open = chars_of("<minimax:tool_call>");
    let c_close = chars_of("</minimax:tool_call>");
    ci_prefix_exec(p, t_open.as_slice()) || ci_prefix_exec(p, t_close.as_slice())
        || ci_prefix_exec(p, c_open.as_slice()) || ci_prefix_exec(p, c_close.as_slice())
}

/// Where the content must be cut because its tail looks like the start of a
/// recognized marker: the leftmost trailing-tag fragment, if recognized.
pub open spec fn spec_partial_cut(s: Seq<char>) -> Option<int> {
    match spec_first_partial(s, 0) {
        Some(m) => if known_partial(s.skip(m)) {
            Some(m)
        } else {
            None
        },
        None => None,
    }
}

/// Find the cut position for a trailing partial marker, if any.
fn find_partial_cut(s: &[char]) -> (r: Option<usize>)
    ensures
        r is Some <==> spec_partial_cut(s@) is Some,
        r matches Some(m) ==> spec_partial_cut(s@) == Some(m as int) && m <= s@.len(),
{
    let n = s.len();
    let mut m: usize = 0;
    loop
        invariant
            0 <= m <= n,
            n == s@.len(),
            spec_first_partial(s@, 0) == spec_first_partial(s@, m as int),
        decreases n - m,
    {
        if m >= n {
            proof {
                assert(spec_first_partial(s@, m as int) is None);
            }
            return None;
        }
        if check_shape(s, m) {
            proof {
                assert(spec_first_partial(s@, m as int) == Some(m as int));
            }
            let frag = slice_range_to_vec(s, m, n);
            proof {
                assert(frag@ =~= s@.skip(m as int));
            }
            if known_partial_exec(frag.as_slice()) {
                return Some(m);
            } else {
                return None;
            }
        }
        m += 1;
    }
}

/// Evaluate `partial_tag_shape` at `m`.
fn check_shape(s: &[char], m: usize) -> (r: bool)
    requires
        m < s@.len(),
    ensures
        r == partial_tag_shape(s@, m as int),
{
    let n = s.len();
    if s[m] != '<' {
        return false;
    }
    let mut k: usize = m + 1;
    while k < n
        invariant
            m < k <= n,
            n == s@.len(),
            forall|j: int| m < j < k ==> s@[j] != '>',
        decreases n - k,
    {
        if s[k] == '>' {
            return false;
        }
        k += 1;
    }
    if m + 1 >= n {
        return false;
    }
    if is_alpha_char(s[m + 1]) {
        return true;
    }
    if s[m + 1] == '/' && m + 2 < n && is_alpha_char(s[m + 2]) {
        return true;
    }
    false
}

// ── The full parse ───────────────────────────────────────────────────────

/// Result of parsing raw model output.
#[derive(Debug, Clone)]
pub struct ParsedOutput {
    pub reasoning: String,
    pub content: String,
    pub tool_calls: Vec<ParsedToolCall>,
    /// True if the text ends inside an unclosed or partially streamed tag.
    pub pending: bool,
}

/// Spec-level shape of a parse result.
pub ghost struct ParsedView {
    pub reasoning: Seq<char>,
    pub content: Seq<char>,
    pub calls: Seq<ToolCallView>,
    pub pending: bool,
}

impl View for ParsedOutput {
    type V = ParsedView;

    open spec fn view(&self) -> ParsedView {
        ParsedView {
            reasoning: self.reasoning@,
            content: self.content@,
            calls: self.tool_calls@.map_values(|tc: ParsedToolCall| tc@),
            pending: self.pending,
        }
    }
}

/// What `parse_model_output` returns for a given raw text.
pub open spec fn spec_parse_output(raw: Seq<char>) -> ParsedView {
    let u_think = seq_contains(raw, think_open()) && !seq_contains(raw, think_close());
    let u_call = seq_contains(raw, call_open()) && !seq_contains(raw, call_close());
    let tb = spec_blocks(raw, think_open(), think_close());
    let reas0 = spec_join_parts(tb.0, Seq::empty());
    let w1 = tb.1;
    let reas = if u_think {
        match spec_find(w1, think_open(), 0) {
            Some(i) => spec_add_part(reas0, w1.skip(i + 7)),
            None => reas0,
        }
    } else {
        reas0
    };
    let w2 = if u_think {
        match spec_find(w1, think_open(), 0) {
            Some(i) => w1.take(i),
            None => w1,
        }
    } else {
        w1
    };
    let cb = spec_blocks(w2, call_open(), call_close());
    let calls = spec_all_calls(cb.0);
    let w3 = cb.1;
    let w4 = if u_call {
        match spec_find(w3, call_open(), 0) {
            Some(i) => w3.take(i),
            None => w3,
        }
    } else {
        w3
    };
    let cut = spec_partial_cut(w4);
    let w5 = match cut {
        Some(m) => w4.take(m),
        None => w4,
    };
    ParsedView {
        reasoning: reas,
        content: spec_trim(w5),
        calls: calls,
        pending: u_think || u_call || cut is Some,
    }
}

/// Parse raw model output that may contain reasoning blocks and tool-call
/// containers; safe to call repeatedly on a growing streamed prefix.
pub fn parse_model_output(raw: &str) -> (out: ParsedOutput)
    ensures
        out@ == spec_parse_output(raw@),
{
    let rv = chars_of(raw);
    let t_open = chars_of("<think>");
    let t_close = chars_of("</think>");
    let c_open = chars_of("<minimax:tool_call>");
    let c_close = chars_of("</minimax:tool_call>");
    proof {
        lemma_tag_lens();
    }
    let u_think = contains_seq(rv.as_slice(), t_open.as_slice()) && !contains_seq(
        rv.as_slice(),
        t_close.as_slice(),
    );
    let u_call = contains_seq(rv.as_slice(), c_open.as_slice()) && !contains_seq(
        rv.as_slice(),
        c_close.as_slice(),
    );
    let (tblocks, w1) = extract_blocks(rv.as_slice(), t_open.as_slice(), t_close.as_slice());
    let ghost tb = spec_blocks(raw@, think_open(), think_close());
    proof {
        assert(tblocks@.map_values(|v: Vec<char>| v@) =~= tb.0);
    }
    let mut reasoning = join_parts(&tblocks);
    let w2: Vec<char>;
    if u_think {
        match find_from(w1.as_slice(), t_open.as_slice(), 0) {
            Some(idx) => {
                let partial = slice_range_to_vec(w1.as_slice(), idx + 7, w1.len());
                proof {
                    assert(partial@ =~= w1@.skip(idx + 7));
                }
                add_part(&mut reasoning, partial.as_slice());
                w2 = slice_range_to_vec(w1.as_slice(), 0, idx);
                proof {
                    assert(w2@ =~= w1@.take(idx as int));
                }
            },
            None => {
                w2 = w1;
            },
        }
    } else {
        w2 = w1;
    }
    let (cblocks, w3) = extract_blocks(w2.as_slice(), c_open.as_slice(), c_close.as_slice());
    let ghost cb = spec_blocks(w2@, call_open(), call_close());
    proof {
        assert(cblocks@.map_values(|v: Vec<char>| v@) =~= cb.0);
    }
    let mut tool_calls: Vec<ParsedToolCall> = Vec::new();
    let mut bi: usize = 0;
    let ghost cviews = cblocks@.map_values(|v: Vec<char>| v@);
    while bi < cblocks.len()
        invariant
            0 <= bi <= cblocks@.len(),
            cviews == cblocks@.map_values(|v: Vec<char>| v@),
            cviews.len() == cblocks@.len(),
            tool_calls@.map_values(|tc: ParsedToolCall| tc@) == spec_all_calls(
                cviews.take(bi as int),
            ),
        decreases cblocks@.len() - bi,
    {
        let calls_b = parse_block_chars(cblocks[bi].as_slice());
        let ghost before = tool_calls@;
        let mut tmp = calls_b;
        let ghost tmp0 = tmp@;
        tool_calls.append(&mut tmp);
        proof {
            lemma_all_calls_snoc(cviews.take(bi as int), cviews[bi as int]);
            assert(cviews.take(bi + 1) =~= cviews.take(bi as int).push(cviews[bi as int]));
            assert(tool_calls@.map_values(|tc: ParsedToolCall| tc@) =~= before.map_values(
                |tc: ParsedToolCall| tc@,
            ) + tmp0.map_values(|tc: ParsedToolCall| tc@));
        }
        bi += 1;
    }
    proof {
        assert(cviews.take(cblocks@.len() as int) =~= cviews);
    }
    let w4: Vec<char>;
    if u_call {
        match find_from(w3.as_slice(), c_open.as_slice(), 0) {
            Some(idx) => {
                w4 = slice_range_to_vec(w3.as_slice(), 0, idx);
                proof {
                    assert(w4@ =~= w3@.take(idx as int));
                }
            },
            None => {
                w4 = w3;
            },
        }
    } else {
        w4 = w3;
    }
    let cut = find_partial_cut(w4.as_slice());
    let w5: Vec<char> = match cut {
        Some(m) => {
            let v = slice_range_to_vec(w4.as_slice(), 0, m);
            proof {
                assert(v@ =~= w4@.take(m as int));
            }
            v
        },
        None => w4,
    };
    let content = trim_chars(w5.as_slice());
    let pending = u_think || u_call || cut.is_some();
    ParsedOutput {
        reasoning: string_from_chars(reasoning.as_slice()),
        content: string_from_chars(content.as_slice()),
        tool_calls,
        pending,
    }
}

/// Where a pattern occurs nowhere, searching from any position finds nothing.
pub proof fn lemma_find_none_everywhere(s: Seq<char>, pat: Seq<char>, f: int)
    requires
        !seq_contains(s, pat),
        0 <= f,
    ensures
        spec_find(s, pat, f) is None,
{
    lemma_spec_find_props(s, pat, 0);
    lemma_spec_find_props(s, pat, f);
    if spec_find(s, pat, f) is Some {
        let m = spec_find(s, pat, f)->Some_0;
        assert(contains_at(s, m, pat));
    }
}

/// The content of a parse is already trimmed.
pub proof fn lemma_parse_content_trimmed(raw: Seq<char>)
    ensures
        spec_parse_output(raw).content == spec_trim(spec_parse_output(raw).content),
{
    let u_think = seq_contains(raw, think_open()) && !seq_contains(raw, think_close());
    let u_call = seq_contains(raw, call_open()) && !seq_contains(raw, call_close());
    let tb = spec_blocks(raw, think_open(), think_close());
    let w1 = tb.1;
    let w2 = if u_think {
        match spec_find(w1, think_open(), 0) {
            Some(i) => w1.take(i),
            None => w1,
        }
    } else {
        w1
    };
    let cb = spec_blocks(w2, call_open(), call_close());
    let w3 = cb.1;
    let w4 = if u_call {
        match spec_find(w3, call_open(), 0) {
            Some(i) => w3.take(i),
            None => w3,
        }
    } else {
        w3
    };
    let cut = spec_partial_cut(w4);
    let w5 = match cut {
        Some(m) => w4.take(m),
        None => w4,
    };
    assert(spec_parse_output(raw).content == spec_trim(w5));
    crate::text::lemma_trim_idempotent(w5);
}

/// Text that holds no opening marker and no recognized trailing fragment
/// parses to itself: no reasoning, no tool calls, nothing pending, and the
/// content is the text trimmed.
pub proof fn lemma_parse_inert(c: Seq<char>)
    requires
        !seq_contains(c, think_open()),
        !seq_contains(c, call_open()),
        spec_partial_cut(c) is None,
    ensures
        spec_parse_output(c).reasoning == Seq::<char>::empty(),
        spec_parse_output(c).content == spec_trim(c),
        spec_parse_output(c).calls == Seq::<ToolCallView>::empty(),
        !spec_parse_output(c).pending,
{
    lemma_tag_lens();
    lemma_find_none_everywhere(c, think_open(), 0);
    lemma_find_none_everywhere(c, call_open(), 0);
    let tb = spec_blocks(c, think_open(), think_close());
    assert(tb.0 == Seq::<Seq<char>>::empty() && tb.1 == c);
    assert(spec_join_parts(tb.0, Seq::empty()) == Seq::<char>::empty());
    let cb = spec_blocks(c, call_open(), call_close());
    assert(cb.0 == Seq::<Seq<char>>::empty() && cb.1 == c);
    assert(spec_all_calls(cb.0) == Seq::<ToolCallView>::empty());
}

/// Parsing is idempotent on its own content: when the content of a parse
/// holds no opening marker and no recognized trailing fragment, parsing it
/// again returns that same content, with no reasoning, no tool calls, and
/// nothing pending. (Pathological inputs whose block removal splices a new
/// opening marker into the content are excluded by the premises.)
pub proof fn lemma_parse_idempotent(raw: Seq<char>)
    requires
        !seq_contains(spec_parse_output(raw).content, think_open()),
        !seq_contains(spec_parse_output(raw).content, call_open()),
        spec_partial_cut(spec_parse_output(raw).content) is None,
    ensures
        spec_parse_output(spec_parse_output(raw).content).content == spec_parse_output(
            raw,
        ).content,
        spec_parse_output(spec_parse_output(raw).content).reasoning == Seq::<char>::empty(),
        spec_parse_output(spec_parse_output(raw).content).calls == Seq::<ToolCallView>::empty(),
        !spec_parse_output(spec_parse_output(raw).content).pending,
{
    let c = spec_parse_output(raw).content;
    lemma_parse_inert(c);
    lemma_parse_content_trimmed(raw);
}

/// A reasoning block that is never closed marks the parse pending, and the
/// reasoning is the trimmed text after the first opening marker.
pub proof fn lemma_unclosed_reasoning(raw: Seq<char>)
    requires
        seq_contains(raw, think_open()),
        !seq_contains(raw, think_close()),
    ensures
        spec_parse_output(raw).pending,
        spec_find(raw, think_open(), 0) is Some,
        spec_parse_output(raw).reasoning == spec_trim(
            raw.skip(spec_find(raw, think_open(), 0)->Some_0 + 7),
        ),
{
    lemma_tag_lens();
    lemma_spec_find_props(raw, think_open(), 0);
    let i0 = spec_find(raw, think_open(), 0)->Some_0;
    lemma_find_none_everywhere(raw, think_close(), i0 + 7);
    let tb = spec_blocks(raw, think_open(), think_close());
    assert(tb.0 == Seq::<Seq<char>>::empty() && tb.1 == raw);
    assert(spec_join_parts(tb.0, Seq::empty()) == Seq::<char>::empty());
    let part = raw.skip(i0 + 7);
    assert(spec_parse_output(raw).reasoning == spec_add_part(Seq::empty(), part));
    if spec_trim(part).len() == 0 {
        assert(spec_add_part(Seq::empty(), part) =~= spec_trim(part));
    }
}

} // verus!

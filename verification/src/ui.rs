//! Pure interface helpers: status-bar number formatting, panel sizing,
//! key masking, path shortening, preview truncation, and the key-driven
//! state machine of the key-entry prompt.

use vstd::prelude::*;

use crate::jsonval::{jobj_pairs, json_parse, json_to_string, jstr};
use crate::text::{
    append_chars, chars_of, dec_digit, slice_range_to_vec, spec_split, spec_trim, spec_u64_dec,
    split_char, string_from_chars, trim_chars, u64_to_dec,
};

verus! {

/// A count rendered at one decimal against a unit, rounding half up.
pub open spec fn spec_one_decimal(tokens: int, unit: int) -> (int, int) {
    let whole = tokens / unit;
    let tenth = (tokens % unit * 10 + unit / 2) / unit;
    if tenth == 10 {
        (whole + 1, 0)
    } else {
        (whole, tenth)
    }
}

/// The status-bar rendering of a token count: plain under a thousand, `k`
/// at one decimal under a million, `M` at one decimal beyond.
pub open spec fn spec_format_tokens(tokens: int) -> Seq<char> {
    if tokens >= 1_000_000 {
        let p = spec_one_decimal(tokens, 1_000_000);
        spec_u64_dec(p.0) + "."@ + seq![dec_digit(p.1)] + "M"@
    } else if tokens >= 1_000 {
        let p = spec_one_decimal(tokens, 1_000);
        spec_u64_dec(p.0) + "."@ + seq![dec_digit(p.1)] + "k"@
    } else {
        spec_u64_dec(tokens)
    }
}

/// Format a token count for the status bar.
pub fn format_tokens(tokens: u64) -> (r: String)
    ensures
        r@ == spec_format_tokens(tokens as int),
{
    if tokens >= 1_000_000 {
        format_scaled(tokens, 1_000_000, "M")
    } else if tokens >= 1_000 {
        format_scaled(tokens, 1_000, "k")
    } else {
        string_from_chars(u64_to_dec(tokens).as_slice())
    }
}

/// Render `tokens` against `unit` at one decimal with the given suffix.
fn format_scaled(tokens: u64, unit: u64, suffix: &str) -> (r: String)
    requires
        unit == 1_000_000 || unit == 1_000 || unit == 1024 || unit == 1_048_576,
    ensures
        ({
            let p = spec_one_decimal(tokens as int, unit as int);
            r@ == spec_u64_dec(p.0) + "."@ + seq![dec_digit(p.1)] + suffix@
        }),
{
    let mut whole = tokens / unit;
    let rem = tokens % unit;
    let mut tenth = (rem * 10 + unit / 2) / unit;
    if tenth == 10 {
        whole = whole + 1;
        tenth = 0;
    }
    let mut out = u64_to_dec(whole);
    out.push('.');
    let td = u64_to_dec(tenth);
    append_chars(&mut out, td.as_slice());
    let sv = chars_of(suffix);
    append_chars(&mut out, sv.as_slice());
    proof {
        reveal_strlit(".");
        assert(seq!['.'] =~= "."@);
        let p = spec_one_decimal(tokens as int, unit as int);
        assert(tenth < 10);
        assert(spec_u64_dec(tenth as int) =~= seq![dec_digit(tenth as int)]);
        assert(out@ =~= spec_u64_dec(p.0) + "."@ + seq![dec_digit(p.1)] + suffix@);
    }
    string_from_chars(out.as_slice())
}

/// The directory-listing rendering of a byte count: plain bytes under a
/// kibibyte, `KB` at one decimal under a mebibyte, `MB` at one decimal
/// beyond.
pub open spec fn spec_format_size(bytes: int) -> Seq<char> {
    if bytes < 1024 {
        spec_u64_dec(bytes) + "B"@
    } else if bytes < 1_048_576 {
        let p = spec_one_decimal(bytes, 1024);
        spec_u64_dec(p.0) + "."@ + seq![dec_digit(p.1)] + "KB"@
    } else {
        let p = spec_one_decimal(bytes, 1_048_576);
        spec_u64_dec(p.0) + "."@ + seq![dec_digit(p.1)] + "MB"@
    }
}

/// Format a byte count for a directory listing.
pub fn format_size(bytes: u64) -> (r: String)
    ensures
        r@ == spec_format_size(bytes as int),
{
    if bytes < 1024 {
        let mut out = u64_to_dec(bytes);
        out.push('B');
        proof {
            reveal_strlit("B");
            assert(seq!['B'] =~= "B"@);
            assert(out@ =~= spec_u64_dec(bytes as int) + "B"@);
        }
        string_from_chars(out.as_slice())
    } else if bytes < 1_048_576 {
        format_scaled(bytes, 1024, "KB")
    } else {
        format_scaled(bytes, 1_048_576, "MB")
    }
}

/// The status-bar rendering of a reset time: hours and minutes when an hour
/// or more remains, bare minutes otherwise.
pub open spec fn spec_format_reset(minutes: int) -> Seq<char> {
    if minutes / 60 > 0 {
        spec_u64_dec(minutes / 60) + "h "@ + spec_u64_dec(minutes % 60) + "m"@
    } else {
        spec_u64_dec(minutes % 60) + "m"@
    }
}

/// Format a quota reset time.
pub fn format_reset(minutes: u64) -> (r: String)
    ensures
        r@ == spec_format_reset(minutes as int),
{
    let hours = minutes / 60;
    let mins = minutes % 60;
    if hours > 0 {
        let mut out = u64_to_dec(hours);
        let hsep = chars_of("h ");
        append_chars(&mut out, hsep.as_slice());
        let md = u64_to_dec(mins);
        append_chars(&mut out, md.as_slice());
        out.push('m');
        proof {
            reveal_strlit("m");
            assert(seq!['m'] =~= "m"@);
            assert(out@ =~= spec_u64_dec(minutes as int / 60) + "h "@ + spec_u64_dec(
                minutes as int % 60,
            ) + "m"@);
        }
        string_from_chars(out.as_slice())
    } else {
        let mut out = u64_to_dec(mins);
        out.push('m');
        proof {
            reveal_strlit("m");
            assert(seq!['m'] =~= "m"@);
            assert(out@ =~= spec_u64_dec(minutes as int % 60) + "m"@);
        }
        string_from_chars(out.as_slice())
    }
}

/// Most task-list items shown before the panel cuts off.
pub const MAX_VISIBLE_ITEMS: usize = 8;

/// The height of the task panel: the visible items, one more line when the
/// list overflows, and the two border lines.
pub fn panel_height(item_count: usize) -> (r: u16)
    ensures
        item_count <= MAX_VISIBLE_ITEMS ==> r == item_count + 2,
        item_count > MAX_VISIBLE_ITEMS ==> r == MAX_VISIBLE_ITEMS + 3,
{
    let visible: usize = if item_count < MAX_VISIBLE_ITEMS {
        item_count
    } else {
        MAX_VISIBLE_ITEMS
    };
    let extra: usize = if item_count > MAX_VISIBLE_ITEMS {
        1
    } else {
        0
    };
    (visible + extra) as u16 + 2
}

/// The masked rendering of a stored key: a placeholder when unset, all
/// asterisks up to eight characters, else the first and last four around an
/// ellipsis.
pub open spec fn spec_mask_api_key(key: Seq<char>) -> Seq<char> {
    if key.len() == 0 {
        "(not set)"@
    } else if key.len() <= 8 {
        Seq::new(key.len(), |i: int| '*')
    } else {
        key.take(4) + "..."@ + key.skip(key.len() - 4)
    }
}

/// Mask a stored key for display.
pub fn mask_api_key(key: &str) -> (r: String)
    ensures
        r@ == spec_mask_api_key(key@),
{
    let kv = chars_of(key);
    let n = kv.len();
    if n == 0 {
        return string_from_chars(chars_of("(not set)").as_slice());
    }
    if n <= 8 {
        let mut out: Vec<char> = Vec::new();
        let mut i: usize = 0;
        while i < n
            invariant
                0 <= i <= n,
                out@.len() == i,
                forall|k: int| 0 <= k < i ==> out@[k] == '*',
            decreases n - i,
        {
            out.push('*');
            i += 1;
        }
        proof {
            assert(out@ =~= Seq::new(key@.len(), |i: int| '*'));
        }
        return string_from_chars(out.as_slice());
    }
    let mut out = slice_range_to_vec(kv.as_slice(), 0, 4);
    let dots = chars_of("...");
    append_chars(&mut out, dots.as_slice());
    let tail = slice_range_to_vec(kv.as_slice(), n - 4, n);
    append_chars(&mut out, tail.as_slice());
    proof {
        assert(out@ =~= key@.take(4) + "..."@ + key@.skip(key@.len() - 4));
    }
    string_from_chars(out.as_slice())
}

/// The path segments between slashes that hold any text.
pub open spec fn spec_path_parts(parts: Seq<Seq<char>>) -> Seq<Seq<char>>
    decreases parts.len(),
{
    if parts.len() == 0 {
        Seq::empty()
    } else {
        let rest = spec_path_parts(parts.drop_first());
        if parts[0].len() > 0 {
            seq![parts[0]] + rest
        } else {
            rest
        }
    }
}

/// Splitting off a prefix splits the kept segments the same way.
proof fn lemma_path_parts_take(parts: Seq<Seq<char>>, k: int)
    requires
        0 <= k < parts.len(),
    ensures
        spec_path_parts(parts.take(k + 1)) == spec_path_parts(parts.take(k)) + (if parts[k].len()
            > 0 {
            seq![parts[k]]
        } else {
            Seq::<Seq<char>>::empty()
        }),
    decreases k,
{
    reveal_with_fuel(spec_path_parts, 3);
    if k == 0 {
        assert(parts.take(1).drop_first() =~= Seq::<Seq<char>>::empty());
        assert(parts.take(1)[0] == parts[0]);
        assert(parts.take(0) =~= Seq::<Seq<char>>::empty());
        if parts[0].len() > 0 {
            assert(spec_path_parts(parts.take(1)) =~= seq![parts[0]]);
            assert(spec_path_parts(parts.take(0)) + seq![parts[0]] =~= seq![parts[0]]);
        } else {
            assert(spec_path_parts(parts.take(1)) =~= Seq::<Seq<char>>::empty());
        }
    } else {
        lemma_path_parts_take(parts.drop_first(), k - 1);
        assert(parts.take(k + 1).drop_first() =~= parts.drop_first().take(k));
        assert(parts.take(k).drop_first() =~= parts.drop_first().take(k - 1));
        assert(parts.take(k + 1)[0] == parts[0]);
        assert(parts.take(k)[0] == parts[0]);
        assert(parts.drop_first()[k - 1] == parts[k]);
        if parts[0].len() > 0 {
            assert(spec_path_parts(parts.take(k + 1)) =~= spec_path_parts(parts.take(k)) + (
            if parts[k].len() > 0 {
                seq![parts[k]]
            } else {
                Seq::<Seq<char>>::empty()
            }));
        } else {
            assert(spec_path_parts(parts.take(k + 1)) =~= spec_path_parts(parts.take(k)) + (
            if parts[k].len() > 0 {
                seq![parts[k]]
            } else {
                Seq::<Seq<char>>::empty()
            }));
        }
    }
}

/// Shorten a path for the header: with more than two segments, an ellipsis
/// and the last two; otherwise the path unchanged.
pub fn shorten_path(path: &str) -> (r: String)
    ensures
        ({
            let parts = spec_path_parts(spec_split(path@, '/'));
            &&& parts.len() <= 2 ==> r@ == path@
            &&& parts.len() > 2 ==> r@ == ".../"@ + parts[parts.len() - 2] + "/"@ + parts.last()
        }),
{
    let pv = chars_of(path);
    let raw_parts = split_char(pv.as_slice(), '/');
    let ghost all = spec_split(path@, '/');
    let mut parts: Vec<Vec<char>> = Vec::new();
    let mut i: usize = 0;
    while i < raw_parts.len()
        invariant
            0 <= i <= raw_parts@.len(),
            raw_parts@.len() == all.len(),
            forall|k: int| 0 <= k < all.len() ==> raw_parts@[k]@ == all[k],
            parts@.map_values(|v: Vec<char>| v@) == spec_path_parts(all.take(i as int)),
        decreases raw_parts@.len() - i,
    {
        proof {
            lemma_path_parts_take(all, i as int);
        }
        if raw_parts[i].len() > 0 {
            let piece = slice_range_to_vec(raw_parts[i].as_slice(), 0, raw_parts[i].len());
            proof {
                assert(piece@ =~= all[i as int]);
            }
            parts.push(piece);
            proof {
                assert(parts@.map_values(|v: Vec<char>| v@) =~= spec_path_parts(all.take(i + 1)));
            }
        } else {
            proof {
                assert(parts@.map_values(|v: Vec<char>| v@) =~= spec_path_parts(all.take(i + 1)));
            }
        }
        i += 1;
    }
    proof {
        assert(all.take(all.len() as int) =~= all);
    }
    if parts.len() <= 2 {
        return string_from_chars(pv.as_slice());
    }
    let n = parts.len();
    let mut out = chars_of(".../");
    append_chars(&mut out, parts[n - 2].as_slice());
    out.push('/');
    append_chars(&mut out, parts[n - 1].as_slice());
    proof {
        reveal_strlit("/");
        assert(seq!['/'] =~= "/"@);
        let sp = spec_path_parts(all);
        assert(out@ =~= ".../"@ + sp[sp.len() - 2] + "/"@ + sp.last());
    }
    string_from_chars(out.as_slice())
}

/// A text cut to at most `max_chars` characters, with an ellipsis appended
/// when anything was cut.
pub open spec fn spec_truncate_chars(s: Seq<char>, max_chars: int) -> Seq<char> {
    if s.len() <= max_chars {
        s
    } else {
        s.take(max_chars) + seq!['\u{2026}']
    }
}

/// Truncate a preview to a character budget.
pub fn truncate_chars(s: &str, max_chars: usize) -> (r: String)
    ensures
        r@ == spec_truncate_chars(s@, max_chars as int),
{
    let sv = chars_of(s);
    if sv.len() <= max_chars {
        return string_from_chars(sv.as_slice());
    }
    let mut out = slice_range_to_vec(sv.as_slice(), 0, max_chars);
    out.push('\u{2026}');
    proof {
        assert(out@ =~= s@.take(max_chars as int) + seq!['\u{2026}']);
    }
    string_from_chars(out.as_slice())
}

/// Abbreviate a JSON argument object for a one-line preview: `key=value`
/// pairs with long values cut, the whole line held under `max_len`
/// characters; text that is no JSON object shows as itself, cut the same
/// way.
pub fn abbreviate_args(args_json: &str, max_len: usize) -> (r: String) {
    match json_parse(args_json) {
        Some(v) => {
            match jobj_pairs(&v) {
                Some(pairs) => {
                    let mut out: Vec<char> = Vec::new();
                    let mut i: usize = 0;
                    while i < pairs.len()
                        decreases pairs@.len() - i,
                    {
                        if i > 0 {
                            let sep = chars_of(", ");
                            append_chars(&mut out, sep.as_slice());
                        }
                        let kv = chars_of(pairs[i].0.as_str());
                        append_chars(&mut out, kv.as_slice());
                        out.push('=');
                        let vtext: String = match jstr(&pairs[i].1) {
                            Some(s) => {
                                let mut q = chars_of("\"");
                                let body = truncate_if_long(s.as_str(), 30, 27);
                                let bv = chars_of(body.as_str());
                                append_chars(&mut q, bv.as_slice());
                                q.push('"');
                                string_from_chars(q.as_slice())
                            },
                            None => {
                                let rendered = json_to_string(&pairs[i].1);
                                truncate_if_long(rendered.as_str(), 30, 27)
                            },
                        };
                        let vv = chars_of(vtext.as_str());
                        append_chars(&mut out, vv.as_slice());
                        i += 1;
                    }
                    let line = string_from_chars(out.as_slice());
                    truncate_if_long(line.as_str(), max_len, if max_len > 0 {
                        max_len - 1
                    } else {
                        0
                    })
                },
                None => truncate_if_long(args_json, max_len, if max_len > 0 {
                    max_len - 1
                } else {
                    0
                }),
            }
        },
        None => truncate_if_long(args_json, max_len, if max_len > 0 {
            max_len - 1
        } else {
            0
        }),
    }
}

/// The text unchanged when it fits `limit`, else cut to `cut` characters
/// with an ellipsis.
pub fn truncate_if_long(s: &str, limit: usize, cut: usize) -> (r: String)
    ensures
        s@.len() <= limit ==> r@ == s@,
        s@.len() > limit ==> r@ == spec_truncate_chars(s@, cut as int),
{
    let sv = chars_of(s);
    if sv.len() <= limit {
        string_from_chars(sv.as_slice())
    } else {
        truncate_chars(s, cut)
    }
}

// ── The key-entry prompt ─────────────────────────────────────────────────

/// The keys the interface state machines read.
#[derive(Debug, Clone, Copy, PartialEq, Eq, Structural)]
pub enum Key {
    Char(char),
    Enter,
    Esc,
    Backspace,
    Left,
    Right,
    Home,
    End,
    Up,
    Down,
    Tab,
    BackTab,
    Other,
}

/// State of the key-entry prompt: the typed text, the caret position in
/// characters, and the last validation error.
#[derive(Debug, Clone)]
pub struct ApiKeyPromptState {
    pub input: String,
    pub cursor: usize,
    pub error: Option<String>,
}

/// What a key does to the prompt.
#[derive(Debug, Clone, PartialEq)]
pub enum ApiKeyAction {
    Stay,
    Submit(String),
    Quit,
}

impl ApiKeyPromptState {
    /// An empty prompt.
    pub fn new() -> (r: ApiKeyPromptState)
        ensures
            r.input@.len() == 0,
            r.cursor == 0,
            r.error is None,
    {
        ApiKeyPromptState { input: String::new(), cursor: 0, error: None }
    }

    /// An empty prompt showing an error from a failed earlier attempt.
    pub fn with_error(error: String) -> (r: ApiKeyPromptState)
        ensures
            r.input@.len() == 0,
            r.cursor == 0,
            r.error == Some(error),
    {
        ApiKeyPromptState { input: String::new(), cursor: 0, error: Some(error) }
    }

    /// The prompt is well formed: the caret sits inside the text.
    pub open spec fn wf(&self) -> bool {
        self.cursor <= self.input@.len()
    }
}

/// Drive the prompt with one key. Escape quits; enter submits the trimmed
/// key when it has at least ten characters and shows an error otherwise;
/// typing inserts at the caret and clears the error; the remaining keys move
/// the caret or delete before it.
pub fn api_key_prompt_key(state: &mut ApiKeyPromptState, key: Key) -> (r: ApiKeyAction)
    requires
        old(state).wf(),
    ensures
        final(state).wf(),
        key is Esc ==> r == ApiKeyAction::Quit && *final(state) == *old(state),
        key is Enter ==> ({
            let trimmed = spec_trim(old(state).input@);
            &&& trimmed.len() >= 10 ==> (r matches ApiKeyAction::Submit(k) && k@ == trimmed)
            &&& trimmed.len() < 10 ==> r is Stay && final(state).error is Some && final(state).input == old(state).input && final(state).cursor == old(state).cursor
        }),
        key matches Key::Char(c) ==> ({
            &&& r is Stay
            &&& final(state).input@ == old(state).input@.insert(old(state).cursor as int, c)
            &&& final(state).cursor == old(state).cursor + 1
            &&& final(state).error is None
        }),
        key is Backspace ==> ({
            &&& r is Stay
            &&& (old(state).cursor > 0 ==> final(state).input@ == old(state).input@.remove(
                old(state).cursor - 1,
            ) && final(state).cursor == old(state).cursor - 1)
            &&& (old(state).cursor == 0 ==> final(state).input == old(state).input && final(state).cursor == 0)
        }),
        key is Left ==> r is Stay && final(state).cursor as int == (if old(state).cursor > 0 {
            old(state).cursor - 1
        } else {
            0int
        }) && final(state).input == old(state).input,
        key is Right ==> r is Stay && final(state).cursor as int == (if old(state).cursor < old(state).input@.len() {
            old(state).cursor + 1
        } else {
            old(state).cursor as int
        }) && final(state).input == old(state).input,
        key is Home ==> r is Stay && final(state).cursor == 0 && final(state).input == old(state).input,
        key is End ==> r is Stay && final(state).cursor == old(state).input@.len() && final(state).input == old(state).input,
{
    match key {
        Key::Esc => ApiKeyAction::Quit,
        Key::Enter => {
            let iv = chars_of(state.input.as_str());
            let trimmed = trim_chars(iv.as_slice());
            if trimmed.len() < 10 {
                if trimmed.len() == 0 {
                    state.error = Some(
                        string_from_chars(chars_of("API key cannot be empty.").as_slice()),
                    );
                } else {
                    state.error = Some(
                        string_from_chars(
                            chars_of("API key must be at least 10 characters.").as_slice(),
                        ),
                    );
                }
                ApiKeyAction::Stay
            } else {
                ApiKeyAction::Submit(string_from_chars(trimmed.as_slice()))
            }
        },
        Key::Char(c) => {
            let iv = chars_of(state.input.as_str());
            let mut out = slice_range_to_vec(iv.as_slice(), 0, state.cursor);
            out.push(c);
            let tail = slice_range_to_vec(iv.as_slice(), state.cursor, iv.len());
            append_chars(&mut out, tail.as_slice());
            proof {
                assert(out@ =~= old(state).input@.insert(old(state).cursor as int, c));
            }
            let grown = out.len();
            proof {
                assert(old(state).cursor < grown);
            }
            state.input = string_from_chars(out.as_slice());
            state.cursor = state.cursor + 1;
            state.error = None;
            ApiKeyAction::Stay
        },
        Key::Backspace => {
            if state.cursor > 0 {
                let iv = chars_of(state.input.as_str());
                let mut out = slice_range_to_vec(iv.as_slice(), 0, state.cursor - 1);
                let tail = slice_range_to_vec(iv.as_slice(), state.cursor, iv.len());
                append_chars(&mut out, tail.as_slice());
                proof {
                    assert(out@ =~= old(state).input@.remove(old(state).cursor - 1));
                }
                state.input = string_from_chars(out.as_slice());
                state.cursor = state.cursor - 1;
            }
            ApiKeyAction::Stay
        },
        Key::Left => {
            if state.cursor > 0 {
                state.cursor = state.cursor - 1;
            }
            ApiKeyAction::Stay
        },
        Key::Right => {
            let iv = chars_of(state.input.as_str());
            if state.cursor < iv.len() {
                state.cursor = state.cursor + 1;
            }
            ApiKeyAction::Stay
        },
        Key::Home => {
            state.cursor = 0;
            ApiKeyAction::Stay
        },
        Key::End => {
            let iv = chars_of(state.input.as_str());
            state.cursor = iv.len();
            ApiKeyAction::Stay
        },
        _ => ApiKeyAction::Stay,
    }
}

} // verus!

//! Quota lookup: decoding the vendor's remaining-quota payloads, the vendor
//! error-code table, and the outcome of trying a chain of candidate
//! endpoints.

use vstd::prelude::*;

use crate::jsonval::{jarr, jget, jis_number, jis_object, jobj_pairs, jstr, ju64, json_to_string};
use crate::stream::QuotaInfo;
use crate::text::{
    append_chars, chars_of, is_digit, join_with, parse_u64, slice_range_to_vec, spec_join_sep,
    spec_u64_dec, string_from_chars, u64_to_dec,
};

verus! {

/// A reset-time value classified by magnitude: above 100000 it reads as
/// milliseconds, otherwise as seconds; either way it rounds up to whole
/// minutes, and zero stays zero.
pub open spec fn spec_to_minutes(raw: int) -> int {
    if raw == 0 {
        0
    } else if raw > 100_000 {
        raw / 60_000 + (if raw % 60_000 == 0 {
            0int
        } else {
            1int
        })
    } else {
        raw / 60 + (if raw % 60 == 0 {
            0int
        } else {
            1int
        })
    }
}

/// Round a reset-time value up to whole minutes per its magnitude class.
pub fn to_minutes(raw: u64) -> (r: u64)
    ensures
        r as int == spec_to_minutes(raw as int),
{
    if raw == 0 {
        0
    } else if raw > 100_000 {
        let q = raw / 60_000;
        if raw % 60_000 == 0 {
            q
        } else {
            q + 1
        }
    } else {
        let q = raw / 60;
        if raw % 60 == 0 {
            q
        } else {
            q + 1
        }
    }
}

/// The guidance text for a vendor error code, when the table has one.
pub open spec fn spec_error_solution(code: int) -> Option<Seq<char>> {
    if code == 1000 || code == 1001 || code == 1002 || code == 1024 || code == 1033 || code
        == 1039 {
        Some("Please retry your request later."@)
    } else if code == 1004 || code == 2049 {
        Some("Check your API key and make sure it is correct and active."@)
    } else if code == 1008 {
        Some("Check your account balance."@)
    } else if code == 1026 || code == 1027 {
        Some("Change your input content."@)
    } else if code == 1041 {
        Some("Connection limit reached; contact MiniMax if the issue persists."@)
    } else if code == 1042 {
        Some("Check input for invisible or illegal characters."@)
    } else if code == 1043 {
        Some("Check file_id and text_validation."@)
    } else if code == 1044 {
        Some("Check clone prompt audio and prompt words."@)
    } else if code == 2013 {
        Some("Check the request parameters."@)
    } else if code == 20132 {
        Some("Check file_id/voice_id and contact MiniMax if the issue persists."@)
    } else if code == 2037 {
        Some("Adjust the duration of your voice clone file."@)
    } else if code == 2039 {
        Some("Use a non-duplicate voice_id."@)
    } else if code == 2042 {
        Some("Check access permissions for this voice_id."@)
    } else if code == 2045 {
        Some("Avoid sudden spikes/drops in request volume."@)
    } else if code == 2048 {
        Some("Shorten prompt_audio to under 8 seconds."@)
    } else if code == 2056 {
        Some("Usage limit exceeded; wait for the next 5-hour window."@)
    } else {
        None
    }
}

/// Actionable guidance for a vendor error code, from a fixed table.
pub fn minimax_error_solution(code: u64) -> (r: Option<&'static str>)
    ensures
        r is Some <==> spec_error_solution(code as int) is Some,
        r matches Some(s) ==> spec_error_solution(code as int) == Some(s@),
{
    match code {
        1000 | 1001 | 1002 | 1024 | 1033 | 1039 => Some("Please retry your request later."),
        1004 | 2049 => Some("Check your API key and make sure it is correct and active."),
        1008 => Some("Check your account balance."),
        1026 | 1027 => Some("Change your input content."),
        1041 => Some("Connection limit reached; contact MiniMax if the issue persists."),
        1042 => Some("Check input for invisible or illegal characters."),
        1043 => Some("Check file_id and text_validation."),
        1044 => Some("Check clone prompt audio and prompt words."),
        2013 => Some("Check the request parameters."),
        20132 => Some("Check file_id/voice_id and contact MiniMax if the issue persists."),
        2037 => Some("Adjust the duration of your voice clone file."),
        2039 => Some("Use a non-duplicate voice_id."),
        2042 => Some("Check access permissions for this voice_id."),
        2045 => Some("Avoid sudden spikes/drops in request volume."),
        2048 => Some("Shorten prompt_audio to under 8 seconds."),
        2056 => Some("Usage limit exceeded; wait for the next 5-hour window."),
        _ => None,
    }
}

/// The rendered vendor error: code, message, and table guidance when known.
pub open spec fn spec_format_error(code: int, msg: Seq<char>) -> Seq<char> {
    let head = "MiniMax error "@ + spec_u64_dec(code) + ": "@ + msg;
    match spec_error_solution(code) {
        Some(sol) => head + ". "@ + sol,
        None => head,
    }
}

/// Render a vendor error with its guidance.
pub fn format_minimax_error(code: u64, msg: &str) -> (r: String)
    ensures
        r@ == spec_format_error(code as int, msg@),
{
    let mut out = chars_of("MiniMax error ");
    let digits = u64_to_dec(code);
    append_chars(&mut out, digits.as_slice());
    let colon = chars_of(": ");
    append_chars(&mut out, colon.as_slice());
    let mv = chars_of(msg);
    append_chars(&mut out, mv.as_slice());
    match minimax_error_solution(code) {
        Some(sol) => {
            let dot = chars_of(". ");
            append_chars(&mut out, dot.as_slice());
            let sv = chars_of(sol);
            append_chars(&mut out, sv.as_slice());
        },
        None => {},
    }
    string_from_chars(out.as_slice())
}

/// Length of the leading digit run of `s`.
pub open spec fn digit_prefix_len(s: Seq<char>) -> int
    decreases s.len(),
{
    if s.len() == 0 || !is_digit(s[0]) {
        0
    } else {
        1 + digit_prefix_len(s.skip(1))
    }
}

proof fn lemma_digit_prefix_len(s: Seq<char>)
    ensures
        0 <= digit_prefix_len(s) <= s.len(),
        forall|j: int| 0 <= j < digit_prefix_len(s) ==> is_digit(s[j]),
        digit_prefix_len(s) < s.len() ==> !is_digit(s[digit_prefix_len(s)]),
    decreases s.len(),
{
    if s.len() == 0 || !is_digit(s[0]) {
    } else {
        lemma_digit_prefix_len(s.skip(1));
        assert forall|j: int| 0 <= j < digit_prefix_len(s) implies is_digit(s[j]) by {
            if j > 0 {
                assert(s.skip(1)[j - 1] == s[j]);
            }
        }
        if digit_prefix_len(s) < s.len() {
            assert(s.skip(1)[digit_prefix_len(s) - 1] == s[digit_prefix_len(s)]);
        }
    }
}

fn is_digit_char(c: char) -> (r: bool)
    ensures
        r == is_digit(c),
{
    let u = c as u32;
    '0' as u32 <= u && u <= '9' as u32
}

/// The value of the leading digit run of a rendered number, saturated at
/// `u64::MAX`; 0 when the text opens with no digit.
pub fn leading_digits_u64(s: &[char]) -> (r: u64)
    ensures
        r as int == (if digit_prefix_len(s@) == 0 {
            0int
        } else if crate::text::dec_value(s@.take(digit_prefix_len(s@))) > u64::MAX {
            u64::MAX as int
        } else {
            crate::text::dec_value(s@.take(digit_prefix_len(s@)))
        }),
{
    proof {
        lemma_digit_prefix_len(s@);
    }
    let n = s.len();
    let mut end: usize = 0;
    while end < n && is_digit_char(s[end])
        invariant
            0 <= end <= n,
            n == s@.len(),
            end <= digit_prefix_len(s@),
        decreases n - end,
    {
        proof {
            lemma_digit_prefix_len(s@);
            if end + 1 > digit_prefix_len(s@) {
                assert(is_digit(s@[digit_prefix_len(s@)]));
            }
        }
        end += 1;
    }
    proof {
        lemma_digit_prefix_len(s@);
        if end < digit_prefix_len(s@) {
            assert(is_digit(s@[end as int]));
        }
        assert(end == digit_prefix_len(s@));
    }
    let prefix = slice_range_to_vec(s, 0, end);
    proof {
        assert(prefix@ =~= s@.take(digit_prefix_len(s@)));
        assert(crate::text::all_digits(prefix@));
    }
    match parse_u64(prefix.as_slice()) {
        Some(v) => v,
        None => {
            if end == 0 {
                0
            } else {
                u64::MAX
            }
        },
    }
}

/// First position of an exponent marker in a rendered number.
pub open spec fn spec_exp_idx(s: Seq<char>, from: int) -> Option<int>
    decreases s.len() - from,
    when 0 <= from
{
    if from >= s.len() {
        None
    } else if s[from] == 'e' || s[from] == 'E' {
        Some(from)
    } else {
        spec_exp_idx(s, from + 1)
    }
}

/// The truncated count a rendered non-integer number reads as: negatives
/// floor to 0; a positive exponent saturates upward and a negative one
/// floors to 0; otherwise the value of the leading digits.
fn number_text_to_u64(s: &[char]) -> (r: u64)
    ensures
        r as int == (if s@.len() > 0 && s@[0] == '-' {
            0int
        } else {
            match spec_exp_idx(s@, 0) {
                Some(k) => if k + 1 < s@.len() && s@[k + 1] == '-' {
                    0int
                } else {
                    u64::MAX as int
                },
                None => if digit_prefix_len(s@) == 0 {
                    0int
                } else if crate::text::dec_value(s@.take(digit_prefix_len(s@))) > u64::MAX {
                    u64::MAX as int
                } else {
                    crate::text::dec_value(s@.take(digit_prefix_len(s@)))
                },
            }
        }),
{
    let n = s.len();
    if n > 0 && s[0] == '-' {
        return 0;
    }
    let mut k: usize = 0;
    while k < n
        invariant
            0 <= k <= n,
            n == s@.len(),
            !(s@.len() > 0 && s@[0] == '-'),
            spec_exp_idx(s@, 0) == spec_exp_idx(s@, k as int),
        decreases n - k,
    {
        if s[k] == 'e' || s[k] == 'E' {
            proof {
                assert(spec_exp_idx(s@, k as int) == Some(k as int));
            }
            if k + 1 < n && s[k + 1] == '-' {
                return 0;
            }
            return u64::MAX;
        }
        k += 1;
    }
    proof {
        assert(spec_exp_idx(s@, n as int) is None);
    }
    leading_digits_u64(s)
}

/// Read a count out of one JSON value: a whole number directly; any other
/// number by its truncated rendering; a string of digits, with an optional
/// leading plus, by its value.
pub fn value_to_u64(v: &serde_json::Value) -> (r: Option<u64>) {
    match ju64(v) {
        Some(n) => Some(n),
        None => {
            if jis_number(v) {
                let rendered = json_to_string(v);
                let chars = chars_of(rendered.as_str());
                Some(number_text_to_u64(chars.as_slice()))
            } else {
                match jstr(v) {
                    Some(s) => {
                        let chars = chars_of(s.as_str());
                        if chars.len() > 0 && chars[0] == '+' {
                            let digits = slice_range_to_vec(chars.as_slice(), 1, chars.len());
                            parse_u64(digits.as_slice())
                        } else {
                            parse_u64(chars.as_slice())
                        }
                    },
                    None => None,
                }
            }
        },
    }
}

/// The first of the candidate keys whose member reads as a count.
pub fn read_u64_field(v: &serde_json::Value, keys: &[&str]) -> (r: Option<u64>) {
    let mut i: usize = 0;
    while i < keys.len()
        decreases keys@.len() - i,
    {
        match jget(v, keys[i]) {
            Some(field) => {
                match value_to_u64(field) {
                    Some(n) => {
                        return Some(n);
                    },
                    None => {},
                }
            },
            None => {},
        }
        i += 1;
    }
    None
}

/// Derive the used and remaining counts when only one of them was sent:
/// a missing used count reads as `total - remaining` and a missing remaining
/// count as `total - used`, both saturating at zero.
pub fn quota_counts(total: u64, used_opt: Option<u64>, remain_opt: Option<u64>) -> (r: (u64, u64))
    ensures
        ({
            let used = match used_opt {
                Some(u) => u as int,
                None => {
                    let rg = match remain_opt {
                        Some(g) => g as int,
                        None => 0,
                    };
                    if total >= rg {
                        total - rg
                    } else {
                        0
                    }
                },
            };
            let remaining = match remain_opt {
                Some(g) => g as int,
                None => if total >= used {
                    total - used
                } else {
                    0
                },
            };
            r.0 == used && r.1 == remaining
        }),
{
    let used: u64 = match used_opt {
        Some(u) => u,
        None => {
            let rg: u64 = match remain_opt {
                Some(g) => g,
                None => 0,
            };
            if total >= rg {
                total - rg
            } else {
                0
            }
        },
    };
    let remaining: u64 = match remain_opt {
        Some(g) => g,
        None => if total >= used {
            total - used
        } else {
            0
        },
    };
    (used, remaining)
}

/// The position of the last maximum of a nonempty list.
pub open spec fn spec_last_max_idx(totals: Seq<int>) -> int
    decreases totals.len(),
    when totals.len() >= 1
{
    if totals.len() == 1 {
        0
    } else {
        let rest = spec_last_max_idx(totals.drop_last());
        if totals.last() >= totals[rest] {
            totals.len() - 1
        } else {
            rest
        }
    }
}

/// The last maximum lies in the list and dominates it.
pub proof fn lemma_last_max_idx(totals: Seq<int>)
    requires
        totals.len() >= 1,
    ensures
        0 <= spec_last_max_idx(totals) < totals.len(),
        forall|j: int|
            0 <= j < totals.len() ==> #[trigger] totals[j] <= totals[spec_last_max_idx(totals)],
    decreases totals.len(),
{
    if totals.len() > 1 {
        lemma_last_max_idx(totals.drop_last());
        assert(forall|j: int| 0 <= j < totals.len() - 1 ==> totals.drop_last()[j] == totals[j]);
    }
}

/// The position of the last maximum of the list.
pub fn argmax_last(keys: &Vec<u64>) -> (r: Option<usize>)
    ensures
        r is Some <==> keys@.len() > 0,
        r matches Some(b) ==> b as int == spec_last_max_idx(
            keys@.map_values(|u: u64| u as int),
        ) && b < keys@.len() && (forall|j: int|
            0 <= j < keys@.len() ==> keys@[j] <= keys@[b as int]) && (forall|j: int|
            b < j < keys@.len() ==> keys@[j] < keys@[b as int]),
{
    if keys.len() == 0 {
        return None;
    }
    let ghost totals = keys@.map_values(|u: u64| u as int);
    let mut best: usize = 0;
    let mut i: usize = 1;
    proof {
        assert(totals.take(1).len() == 1);
        assert(spec_last_max_idx(totals.take(1)) == 0);
    }
    while i < keys.len()
        invariant
            0 <= best < i <= keys@.len(),
            totals == keys@.map_values(|u: u64| u as int),
            totals.len() == keys@.len(),
            best as int == spec_last_max_idx(totals.take(i as int)),
            forall|j: int| 0 <= j < i ==> keys@[j] <= keys@[best as int],
            forall|j: int| best < j < i ==> keys@[j] < keys@[best as int],
        decreases keys@.len() - i,
    {
        proof {
            assert(totals.take(i + 1).drop_last() =~= totals.take(i as int));
            assert(totals.take(i + 1).last() == totals[i as int]);
        }
        if keys[i] >= keys[best] {
            best = i;
        }
        i += 1;
    }
    proof {
        assert(totals.take(keys@.len() as int) =~= totals);
    }
    Some(best)
}

/// A vendor-error text has the fixed rendered shape for some nonzero code.
pub open spec fn spec_is_vendor_error(m: Seq<char>) -> bool {
    exists|code: int, msg: Seq<char>| 0 < code && m == spec_format_error(code, msg)
}

/// Read the vendor error out of a `base_resp` envelope, when its status code
/// is nonzero.
fn base_resp_error(data: &serde_json::Value) -> (r: Option<String>)
    ensures
        r matches Some(m) ==> spec_is_vendor_error(m@),
{
    match jget(data, "base_resp") {
        Some(base) => {
            let code = match read_u64_field(base, &["status_code", "statusCode"]) {
                Some(c) => c,
                None => 0,
            };
            if code != 0 {
                let msg = first_str_field(base, &["status_msg", "statusMessage"]);
                let msg_text = match msg {
                    Some(m) => m,
                    None => string_from_chars(chars_of("unknown error").as_slice()),
                };
                let rendered = format_minimax_error(code, msg_text.as_str());
                proof {
                    assert(rendered@ == spec_format_error(code as int, msg_text@));
                }
                Some(rendered)
            } else {
                None
            }
        },
        None => None,
    }
}

/// The first of the candidate keys whose member is a string.
fn first_str_field(v: &serde_json::Value, keys: &[&str]) -> Option<String> {
    let mut i: usize = 0;
    while i < keys.len()
        decreases keys@.len() - i,
    {
        match jget(v, keys[i]) {
            Some(field) => {
                match jstr(field) {
                    Some(s) => {
                        return Some(s);
                    },
                    None => {},
                }
            },
            None => {},
        }
        i += 1;
    }
    None
}

// ── Quota entries as plain records ───────────────────────────────────────

/// The candidate keys carrying the interval total.
pub open spec fn spec_total_keys() -> Seq<Seq<char>> {
    seq![
        "current_interval_total_count"@,
        "current_interval_total"@,
        "interval_total_count"@,
        "total"@,
    ]
}

/// The candidate keys carrying the used count.
pub open spec fn spec_used_keys() -> Seq<Seq<char>> {
    seq![
        "current_interval_usage_count"@,
        "current_interval_used_count"@,
        "interval_usage_count"@,
        "used"@,
    ]
}

/// The candidate keys carrying the remaining count.
pub open spec fn spec_remain_keys() -> Seq<Seq<char>> {
    seq![
        "current_interval_remain_count"@,
        "current_interval_remaining_count"@,
        "remaining"@,
    ]
}

/// The candidate keys carrying the reset time.
pub open spec fn spec_time_keys() -> Seq<Seq<char>> {
    seq!["remains_time"@, "remain_time"@, "reset_time"@]
}

/// The count the first matching member of a record carries.
pub open spec fn spec_field_lookup(
    fields: Seq<(Seq<char>, Option<u64>)>,
    key: Seq<char>,
) -> Option<Option<u64>>
    decreases fields.len(),
{
    if fields.len() == 0 {
        None
    } else if fields[0].0 == key {
        Some(fields[0].1)
    } else {
        spec_field_lookup(fields.drop_first(), key)
    }
}

/// The first candidate key whose member reads as a count.
pub open spec fn spec_read_field(
    fields: Seq<(Seq<char>, Option<u64>)>,
    keys: Seq<Seq<char>>,
) -> Option<u64>
    decreases keys.len(),
{
    if keys.len() == 0 {
        None
    } else {
        match spec_field_lookup(fields, keys[0]) {
            Some(Some(n)) => Some(n),
            _ => spec_read_field(fields, keys.drop_first()),
        }
    }
}

/// The record view of one entry.
pub open spec fn spec_fields_view(e: Seq<(String, Option<u64>)>) -> Seq<(Seq<char>, Option<u64>)> {
    e.map_values(|p: (String, Option<u64>)| (p.0@, p.1))
}

/// The count the first member carrying `key` reads as, if any member does.
fn field_lookup(fields: &Vec<(String, Option<u64>)>, key: &str) -> (r: Option<Option<u64>>)
    ensures
        r == spec_field_lookup(spec_fields_view(fields@), key@),
{
    let ghost fv = spec_fields_view(fields@);
    proof {
        assert(fv.skip(0) =~= fv);
    }
    let mut j: usize = 0;
    while j < fields.len()
        invariant
            0 <= j <= fields@.len(),
            fv == spec_fields_view(fields@),
            fv.len() == fields@.len(),
            spec_field_lookup(fv, key@) == spec_field_lookup(fv.skip(j as int), key@),
        decreases fields@.len() - j,
    {
        proof {
            assert(fv.skip(j as int)[0] == fv[j as int]);
            assert(fv.skip(j as int).drop_first() =~= fv.skip(j + 1));
        }
        if crate::text::str_eq(fields[j].0.as_str(), key) {
            return Some(fields[j].1);
        }
        j += 1;
    }
    proof {
        assert(fv.skip(fields@.len() as int) =~= Seq::<(Seq<char>, Option<u64>)>::empty());
    }
    None
}

/// Read a count out of a record: the first candidate key, in order, whose
/// member carries one.
pub fn read_field(fields: &Vec<(String, Option<u64>)>, keys: &[&str]) -> (r: Option<u64>)
    ensures
        r == spec_read_field(spec_fields_view(fields@), keys@.map_values(|k: &str| k@)),
{
    let ghost fv = spec_fields_view(fields@);
    let ghost kv = keys@.map_values(|k: &str| k@);
    proof {
        assert(kv.skip(0) =~= kv);
    }
    let mut i: usize = 0;
    while i < keys.len()
        invariant
            0 <= i <= keys@.len(),
            fv == spec_fields_view(fields@),
            kv == keys@.map_values(|k: &str| k@),
            kv.len() == keys@.len(),
            spec_read_field(fv, kv) == spec_read_field(fv, kv.skip(i as int)),
        decreases keys@.len() - i,
    {
        proof {
            assert(kv.skip(i as int)[0] == kv[i as int]);
            assert(kv.skip(i as int).drop_first() =~= kv.skip(i + 1));
        }
        match field_lookup(fields, keys[i]) {
            Some(Some(n)) => {
                return Some(n);
            },
            _ => {},
        }
        i += 1;
    }
    proof {
        assert(kv.skip(keys@.len() as int) =~= Seq::<Seq<char>>::empty());
    }
    None
}

/// The interval total of a record, 0 when none is readable.
pub open spec fn spec_entry_total(f: Seq<(Seq<char>, Option<u64>)>) -> int {
    match spec_read_field(f, spec_total_keys()) {
        Some(t) => t as int,
        None => 0,
    }
}

/// What one record resolves to: the read counts, the derived used and
/// remaining values, and the reset minutes; a record whose three counts all
/// read zero carries no usable quota.
pub open spec fn spec_entry_quota(f: Seq<(Seq<char>, Option<u64>)>) -> Option<(
    int,
    int,
    int,
    int,
)> {
    let total = spec_entry_total(f);
    let used_opt = spec_read_field(f, spec_used_keys());
    let remain_opt = spec_read_field(f, spec_remain_keys());
    let used = match used_opt {
        Some(u) => u as int,
        None => {
            let rg = match remain_opt {
                Some(g) => g as int,
                None => 0int,
            };
            if total >= rg {
                total - rg
            } else {
                0int
            }
        },
    };
    let remaining = match remain_opt {
        Some(g) => g as int,
        None => if total >= used {
            total - used
        } else {
            0int
        },
    };
    let time = match spec_read_field(f, spec_time_keys()) {
        Some(t) => t as int,
        None => 0int,
    };
    if total == 0 && used == 0 && remaining == 0 {
        None
    } else {
        Some((used, total, remaining, spec_to_minutes(time)))
    }
}

/// Resolve one record to its quota numbers.
pub fn quota_from_entry(fields: &Vec<(String, Option<u64>)>) -> (r: Option<QuotaInfo>)
    ensures
        match r {
            Some(q) => spec_entry_quota(spec_fields_view(fields@)) == Some(
                (q.used as int, q.total as int, q.remaining as int, q.reset_minutes as int),
            ),
            None => spec_entry_quota(spec_fields_view(fields@)) is None,
        },
{
    let ghost fv = spec_fields_view(fields@);
    let total_keys: [&str; 4] = [
        "current_interval_total_count",
        "current_interval_total",
        "interval_total_count",
        "total",
    ];
    let used_keys: [&str; 4] = [
        "current_interval_usage_count",
        "current_interval_used_count",
        "interval_usage_count",
        "used",
    ];
    let remain_keys: [&str; 3] = [
        "current_interval_remain_count",
        "current_interval_remaining_count",
        "remaining",
    ];
    let time_keys: [&str; 3] = ["remains_time", "remain_time", "reset_time"];
    proof {
        assert(total_keys@.map_values(|k: &str| k@) =~= spec_total_keys());
        assert(used_keys@.map_values(|k: &str| k@) =~= spec_used_keys());
        assert(remain_keys@.map_values(|k: &str| k@) =~= spec_remain_keys());
        assert(time_keys@.map_values(|k: &str| k@) =~= spec_time_keys());
    }
    let total = match read_field(fields, total_keys.as_slice()) {
        Some(t) => t,
        None => 0,
    };
    let used_opt = read_field(fields, used_keys.as_slice());
    let remain_opt = read_field(fields, remain_keys.as_slice());
    let (used, remaining) = quota_counts(total, used_opt, remain_opt);
    let remains_time = match read_field(fields, time_keys.as_slice()) {
        Some(t) => t,
        None => 0,
    };
    if total == 0 && used == 0 && remaining == 0 {
        None
    } else {
        Some(QuotaInfo { used, total, remaining, reset_minutes: to_minutes(remains_time) })
    }
}

/// Read one entry value into a plain record: every member's key with the
/// count it reads as. The input is an outside JSON value, so this boundary
/// has no contract of its own; everything after it is specified.
pub fn entry_fields(v: &serde_json::Value) -> Vec<(String, Option<u64>)> {
    let mut fields: Vec<(String, Option<u64>)> = Vec::new();
    match jobj_pairs(v) {
        Some(pairs) => {
            let mut i: usize = 0;
            while i < pairs.len()
                decreases pairs@.len() - i,
            {
                let count = value_to_u64(&pairs[i].1);
                fields.push((pairs[i].0.clone(), count));
                i += 1;
            }
        },
        None => {},
    }
    fields
}

/// The rejection text when a payload carries no quota entries at all.
pub open spec fn spec_no_entries_text(envelope: Option<String>) -> Seq<char> {
    match envelope {
        Some(m) => m@,
        None => "No model_remains data in response"@,
    }
}

/// The rejection text when the winning entry carries no usable counts.
pub open spec fn spec_empty_entry_text(envelope: Option<String>) -> Seq<char> {
    match envelope {
        Some(m) => m@,
        None => "Quota values missing in model_remains entry"@,
    }
}

/// Resolve the extracted entry records: the record with the largest total
/// (the last one on ties) wins; no records, or a winner without usable
/// counts, rejects with the envelope's vendor error when one was carried and
/// a fixed text otherwise.
pub fn quota_from_entries(
    entries: &Vec<Vec<(String, Option<u64>)>>,
    envelope_error: Option<String>,
) -> (r: Result<QuotaInfo, String>)
    ensures
        ({
            let evs = entries@.map_values(|e: Vec<(String, Option<u64>)>| spec_fields_view(e@));
            &&& entries@.len() == 0 ==> (r matches Err(e) && e@ == spec_no_entries_text(
                envelope_error,
            ))
            &&& entries@.len() > 0 ==> ({
                let totals = Seq::new(evs.len(), |k: int| spec_entry_total(evs[k]));
                let b = spec_last_max_idx(totals);
                match spec_entry_quota(evs[b]) {
                    Some(t) => r matches Ok(q) && q.used as int == t.0 && q.total as int == t.1
                        && q.remaining as int == t.2 && q.reset_minutes as int == t.3,
                    None => r matches Err(e) && e@ == spec_empty_entry_text(envelope_error),
                }
            })
        }),
{
    let ghost evs = entries@.map_values(|e: Vec<(String, Option<u64>)>| spec_fields_view(e@));
    let ghost totals = Seq::new(evs.len(), |k: int| spec_entry_total(evs[k]));
    if entries.len() == 0 {
        return Err(
            match envelope_error {
                Some(e) => e,
                None => string_from_chars(
                    chars_of("No model_remains data in response").as_slice(),
                ),
            },
        );
    }
    let total_keys: [&str; 4] = [
        "current_interval_total_count",
        "current_interval_total",
        "interval_total_count",
        "total",
    ];
    proof {
        assert(total_keys@.map_values(|k: &str| k@) =~= spec_total_keys());
    }
    let mut keys: Vec<u64> = Vec::new();
    let mut i: usize = 0;
    while i < entries.len()
        invariant
            0 <= i <= entries@.len(),
            evs == entries@.map_values(|e: Vec<(String, Option<u64>)>| spec_fields_view(e@)),
            evs.len() == entries@.len(),
            totals == Seq::new(evs.len(), |k: int| spec_entry_total(evs[k])),
            total_keys@.map_values(|k: &str| k@) == spec_total_keys(),
            keys@.len() == i,
            forall|k: int| 0 <= k < i ==> (#[trigger] keys@[k]) as int == totals[k],
        decreases entries@.len() - i,
    {
        let t = match read_field(&entries[i], total_keys.as_slice()) {
            Some(t) => t,
            None => 0,
        };
        keys.push(t);
        i += 1;
    }
    let best = match argmax_last(&keys) {
        Some(b) => b,
        None => 0,
    };
    proof {
        assert(keys@.map_values(|u: u64| u as int) =~= totals);
        assert(best as int == spec_last_max_idx(totals));
        lemma_last_max_idx(totals);
    }
    match quota_from_entry(&entries[best]) {
        Some(q) => Ok(q),
        None => Err(
            match envelope_error {
                Some(e) => e,
                None => string_from_chars(
                    chars_of("Quota values missing in model_remains entry").as_slice(),
                ),
            },
        ),
    }
}

/// Decode a quota payload. The entries are read into plain records at the
/// boundary; the record with the largest total wins; counts may be numbers
/// or numeric strings; a missing used or remaining count is derived from the
/// other; the reset time is read per `spec_to_minutes`. Any rejection text
/// is one of the two fixed notices or a rendered vendor error.
pub fn parse_quota_info(data: &serde_json::Value) -> (r: Result<QuotaInfo, String>)
    ensures
        r matches Err(e) ==> e@ == "No model_remains data in response"@ || e@
            == "Quota values missing in model_remains entry"@ || spec_is_vendor_error(e@),
{
    let envelope_error = base_resp_error(data);
    let remains_src: Option<&serde_json::Value> = match jget(data, "model_remains") {
        Some(v) => Some(v),
        None => match jget(data, "data") {
            Some(d) => jget(d, "model_remains"),
            None => None,
        },
    };
    let mut entries: Vec<Vec<(String, Option<u64>)>> = Vec::new();
    match remains_src {
        Some(rv) => {
            match jarr(rv) {
                Some(arr) => {
                    let mut i: usize = 0;
                    while i < arr.len()
                        decreases arr@.len() - i,
                    {
                        entries.push(entry_fields(&arr[i]));
                        i += 1;
                    }
                },
                None => {
                    if jis_object(rv) {
                        entries.push(entry_fields(rv));
                    }
                },
            }
        },
        None => {},
    }
    quota_from_entries(&entries, envelope_error)
}

/// Read the vendor error out of any of the known error envelopes. Anything
/// returned is a rendered vendor error for some nonzero code.
pub fn parse_minimax_error(data: &serde_json::Value) -> (r: Option<String>)
    ensures
        r matches Some(m) ==> spec_is_vendor_error(m@),
{
    let base = match jget(data, "base_resp") {
        Some(b) => Some(b),
        None => jget(data, "baseResp"),
    };
    match base {
        Some(b) => {
            match read_u64_field(b, &["status_code", "statusCode", "code"]) {
                Some(code) => {
                    if code != 0 {
                        let msg = first_str_field(b, &["status_msg", "statusMessage", "message"]);
                        let msg_text = match msg {
                            Some(m) => m,
                            None => string_from_chars(chars_of("unknown error").as_slice()),
                        };
                        let rendered = format_minimax_error(code, msg_text.as_str());
                        proof {
                            assert(rendered@ == spec_format_error(code as int, msg_text@));
                        }
                        return Some(rendered);
                    }
                },
                None => {},
            }
        },
        None => {},
    }
    match jget(data, "error") {
        Some(e) => {
            match read_u64_field(e, &["code", "status_code", "statusCode"]) {
                Some(code) => {
                    if code != 0 {
                        let msg = first_str_field(e, &["message", "msg"]);
                        let msg_text = match msg {
                            Some(m) => m,
                            None => string_from_chars(chars_of("unknown error").as_slice()),
                        };
                        let rendered = format_minimax_error(code, msg_text.as_str());
                        proof {
                            assert(rendered@ == spec_format_error(code as int, msg_text@));
                        }
                        return Some(rendered);
                    }
                },
                None => {},
            }
        },
        None => {},
    }
    match read_u64_field(data, &["status_code", "statusCode", "error_code", "errorCode"]) {
        Some(code) => {
            if code != 0 {
                let msg = first_str_field(data, &["status_msg", "statusMessage", "message"]);
                let msg_text = match msg {
                    Some(m) => m,
                    None => string_from_chars(chars_of("unknown error").as_slice()),
                };
                let rendered = format_minimax_error(code, msg_text.as_str());
                proof {
                    assert(rendered@ == spec_format_error(code as int, msg_text@));
                }
                return Some(rendered);
            }
        },
        None => {},
    }
    None
}

// ── The endpoint chain ───────────────────────────────────────────────────

/// What one candidate endpoint yielded: a failure message, or a decoded
/// quota payload.
#[derive(Debug, Clone)]
pub enum QuotaAttempt {
    Failure(String),
    Success(QuotaInfo),
}

/// The first successful attempt's quota, if any.
pub open spec fn spec_first_success(attempts: Seq<QuotaAttempt>) -> Option<QuotaInfo>
    decreases attempts.len(),
{
    if attempts.len() == 0 {
        None
    } else {
        match attempts[0] {
            QuotaAttempt::Success(q) => Some(q),
            QuotaAttempt::Failure(_) => spec_first_success(attempts.drop_first()),
        }
    }
}

/// The failure messages, in order.
pub open spec fn spec_failure_msgs(attempts: Seq<QuotaAttempt>) -> Seq<Seq<char>>
    decreases attempts.len(),
{
    if attempts.len() == 0 {
        Seq::empty()
    } else {
        let rest = spec_failure_msgs(attempts.drop_first());
        match attempts[0] {
            QuotaAttempt::Failure(m) => seq![m@] + rest,
            QuotaAttempt::Success(_) => rest,
        }
    }
}

/// Resolve a chain of endpoint attempts, tried in order: the first candidate
/// that yielded a well-formed quota wins; when every candidate failed, the
/// result aggregates all per-candidate failure messages into one error.
pub fn quota_outcome(attempts: &Vec<QuotaAttempt>) -> (r: Result<QuotaInfo, String>)
    ensures
        match r {
            Ok(q) => spec_first_success(attempts@) == Some(q),
            Err(e) => spec_first_success(attempts@) is None && e@
                == "Quota API failed across all endpoints: "@ + spec_join_sep(
                spec_failure_msgs(attempts@),
                " | "@,
            ),
        },
{
    let ghost av = attempts@;
    proof {
        assert(av.skip(0) =~= av);
        assert(spec_failure_msgs(av.take(0)) =~= Seq::<Seq<char>>::empty());
        assert(Seq::<String>::empty().map_values(|s: String| s@) =~= Seq::<Seq<char>>::empty());
    }
    let mut msgs: Vec<String> = Vec::new();
    let mut i: usize = 0;
    while i < attempts.len()
        invariant
            0 <= i <= av.len(),
            av == attempts@,
            spec_first_success(av) == spec_first_success(av.skip(i as int)),
            msgs@.map_values(|s: String| s@) == spec_failure_msgs(av.take(i as int)),
        decreases av.len() - i,
    {
        proof {
            assert(av.skip(i as int)[0] == av[i as int]);
            assert(av.skip(i as int).drop_first() =~= av.skip(i + 1));
            lemma_failure_msgs_snoc(av, i as int);
        }
        match &attempts[i] {
            QuotaAttempt::Success(q) => {
                return Ok(
                    QuotaInfo {
                        used: q.used,
                        total: q.total,
                        remaining: q.remaining,
                        reset_minutes: q.reset_minutes,
                    },
                );
            },
            QuotaAttempt::Failure(m) => {
                msgs.push(m.clone());
                proof {
                    assert(msgs@.map_values(|s: String| s@) =~= spec_failure_msgs(
                        av.take(i + 1),
                    ));
                }
            },
        }
        i += 1;
    }
    proof {
        assert(av.skip(av.len() as int) =~= Seq::<QuotaAttempt>::empty());
        assert(av.take(av.len() as int) =~= av);
    }
    let joined = join_with(&msgs, " | ");
    let mut out = chars_of("Quota API failed across all endpoints: ");
    let jv = chars_of(joined.as_str());
    append_chars(&mut out, jv.as_slice());
    Err(string_from_chars(out.as_slice()))
}

/// Extending the prefix by one attempt extends its failure messages by that
/// attempt's message, if it is a failure.
proof fn lemma_failure_msgs_snoc(av: Seq<QuotaAttempt>, i: int)
    requires
        0 <= i < av.len(),
    ensures
        spec_failure_msgs(av.take(i + 1)) == spec_failure_msgs(av.take(i)) + (match av[i] {
            QuotaAttempt::Failure(m) => seq![m@],
            QuotaAttempt::Success(_) => Seq::<Seq<char>>::empty(),
        }),
    decreases i,
{
    if i == 0 {
        reveal_with_fuel(spec_failure_msgs, 3);
        assert(av.take(1).drop_first() =~= Seq::<QuotaAttempt>::empty());
        assert(av.take(1)[0] == av[0]);
        assert(av.take(0) =~= Seq::<QuotaAttempt>::empty());
        match av[0] {
            QuotaAttempt::Failure(m) => {
                assert(spec_failure_msgs(av.take(1)) =~= seq![m@]);
                assert(spec_failure_msgs(av.take(0)) + seq![m@] =~= seq![m@]);
            },
            QuotaAttempt::Success(_) => {
                assert(spec_failure_msgs(av.take(1)) =~= Seq::<Seq<char>>::empty());
            },
        }
    } else {
        lemma_failure_msgs_snoc(av.drop_first(), i - 1);
        assert(av.take(i + 1).drop_first() =~= av.drop_first().take(i));
        assert(av.take(i).drop_first() =~= av.drop_first().take(i - 1));
        assert(av.take(i + 1)[0] == av[0]);
        assert(av.take(i)[0] == av[0]);
        assert(av.drop_first()[i - 1] == av[i]);
        match av[0] {
            QuotaAttempt::Failure(m) => {
                assert(spec_failure_msgs(av.take(i + 1)) =~= seq![m@] + spec_failure_msgs(
                    av.drop_first().take(i),
                ));
                assert(spec_failure_msgs(av.take(i)) + (match av[i] {
                    QuotaAttempt::Failure(m2) => seq![m2@],
                    QuotaAttempt::Success(_) => Seq::<Seq<char>>::empty(),
                }) =~= spec_failure_msgs(av.take(i + 1)));
            },
            QuotaAttempt::Success(_) => {
                assert(spec_failure_msgs(av.take(i + 1)) =~= spec_failure_msgs(
                    av.drop_first().take(i),
                ));
                assert(spec_failure_msgs(av.take(i)) + (match av[i] {
                    QuotaAttempt::Failure(m2) => seq![m2@],
                    QuotaAttempt::Success(_) => Seq::<Seq<char>>::empty(),
                }) =~= spec_failure_msgs(av.take(i + 1)));
            },
        }
    }
}

} // verus!

//! Character-sequence utilities shared by the parsers and formatters.
//!
//! All scanning logic in this crate works over `Vec<char>` / `&[char]` with
//! `Seq<char>` views, so that every search, split and trim is verified
//! against a spec.

use vstd::prelude::*;

verus! {

/// Relies on str::chars: yields exactly the characters of the string, in order.
#[verifier::external_body]
pub fn chars_of(s: &str) -> (r: Vec<char>)
    ensures
        r@ == s@,
{
    s.chars().collect()
}

/// Relies on FromIterator for String from chars: the collected string holds
/// exactly the given characters, in order.
#[verifier::external_body]
pub fn string_from_chars(v: &[char]) -> (r: String)
    ensures
        r@ == v@,
{
    v.iter().collect()
}

/// Whether `pat` occurs in `s` starting at index `i`.
pub open spec fn contains_at(s: Seq<char>, i: int, pat: Seq<char>) -> bool {
    &&& 0 <= i
    &&& i + pat.len() <= s.len()
    &&& forall|j: int| 0 <= j < pat.len() ==> s[i + j] == pat[j]
}

/// Index of the first occurrence of `pat` in `s` at or after `from`.
pub open spec fn spec_find(s: Seq<char>, pat: Seq<char>, from: int) -> Option<int>
    decreases s.len() - from,
        when 0 <= from
{
    if from + pat.len() > s.len() {
        None
    } else if contains_at(s, from, pat) {
        Some(from)
    } else {
        spec_find(s, pat, from + 1)
    }
}

/// Whether `pat` occurs anywhere in `s`.
pub open spec fn seq_contains(s: Seq<char>, pat: Seq<char>) -> bool {
    spec_find(s, pat, 0) is Some
}

/// A found index is a real occurrence, and the first one at or after `from`.
pub proof fn lemma_spec_find_props(s: Seq<char>, pat: Seq<char>, from: int)
    requires
        0 <= from,
    ensures
        match spec_find(s, pat, from) {
            Some(i) => from <= i && contains_at(s, i, pat) && (forall|j: int|
                from <= j < i ==> !contains_at(s, j, pat)),
            None => forall|j: int| from <= j ==> !contains_at(s, j, pat),
        },
    decreases s.len() - from,
{
    if from + pat.len() > s.len() {
    } else if contains_at(s, from, pat) {
    } else {
        lemma_spec_find_props(s, pat, from + 1);
    }
}

/// Exact equality of `pat` against `s` at position `i`.
pub fn eq_at(s: &[char], i: usize, pat: &[char]) -> (r: bool)
    requires
        i + pat@.len() <= s@.len(),
    ensures
        r == contains_at(s@, i as int, pat@),
{
    let slen = s.len();
    let mut k: usize = 0;
    while k < pat.len()
        invariant
            i + pat@.len() <= s@.len(),
            slen == s@.len(),
            0 <= k <= pat@.len(),
            forall|j: int| 0 <= j < k ==> s@[i + j] == pat@[j],
        decreases pat@.len() - k,
    {
        assert(i + k < s@.len());
        if s[i + k] != pat[k] {
            return false;
        }
        k += 1;
    }
    true
}

/// First occurrence of `pat` in `s` at or after `from`.
pub fn find_from(s: &[char], pat: &[char], from: usize) -> (r: Option<usize>)
    ensures
        r is Some <==> spec_find(s@, pat@, from as int) is Some,
        r matches Some(u) ==> spec_find(s@, pat@, from as int) == Some(u as int) && from <= u && u
            + pat@.len() <= s@.len(),
{
    let slen = s.len();
    if from > slen || pat.len() > slen - from {
        return None;
    }
    let mut i: usize = from;
    loop
        invariant
            from <= i <= s@.len(),
            slen == s@.len(),
            spec_find(s@, pat@, from as int) == spec_find(s@, pat@, i as int),
        decreases s@.len() - i,
    {
        if pat.len() > slen - i {
            return None;
        }
        if eq_at(s, i, pat) {
            proof {
                lemma_spec_find_props(s@, pat@, i as int);
            }
            return Some(i);
        }
        i += 1;
    }
}

/// Whether `pat` occurs anywhere in `s`.
pub fn contains_seq(s: &[char], pat: &[char]) -> (r: bool)
    ensures
        r == seq_contains(s@, pat@),
{
    find_from(s, pat, 0).is_some()
}

/// Character-for-character equality of two slices.
pub fn chars_eq(a: &[char], b: &[char]) -> (r: bool)
    ensures
        r == (a@ == b@),
{
    if a.len() != b.len() {
        proof {
            assert(a@ != b@);
        }
        return false;
    }
    let r = eq_at(a, 0, b);
    proof {
        if contains_at(a@, 0, b@) {
            assert(a@ =~= b@);
        } else {
            assert(a@ != b@);
        }
    }
    r
}

/// Whether the two strings hold the same characters.
pub fn str_eq(a: &str, b: &str) -> (r: bool)
    ensures
        r == (a@ == b@),
{
    let av = chars_of(a);
    let bv = chars_of(b);
    chars_eq(av.as_slice(), bv.as_slice())
}

/// The pieces of `s` between occurrences of `sep`, in order.
pub open spec fn spec_split(s: Seq<char>, sep: char) -> Seq<Seq<char>>
    decreases s.len(),
    via spec_split_decreases
{
    match spec_find(s, seq![sep], 0) {
        Some(i) => seq![s.take(i)] + spec_split(s.skip(i + 1), sep),
        None => seq![s],
    }
}

#[via_fn]
proof fn spec_split_decreases(s: Seq<char>, sep: char) {
    match spec_find(s, seq![sep], 0) {
        Some(i) => {
            lemma_spec_find_props(s, seq![sep], 0);
        },
        None => {},
    }
}

/// Split `s` at every occurrence of `sep`.
pub fn split_char(s: &[char], sep: char) -> (r: Vec<Vec<char>>)
    ensures
        r@.len() == spec_split(s@, sep).len(),
        forall|k: int| 0 <= k < r@.len() ==> r@[k]@ == spec_split(s@, sep)[k],
    decreases s@.len(),
{
    let pat: [char; 1] = [sep];
    proof {
        assert(pat@ =~= seq![sep]);
    }
    match find_from(s, pat.as_slice(), 0) {
        Some(i) => {
            proof {
                lemma_spec_find_props(s@, seq![sep], 0);
            }
            let n = s.len();
            let head = slice_range_to_vec(s, 0, i);
            let rest = slice_range_to_vec(s, i + 1, n);
            let mut tail = split_char(rest.as_slice(), sep);
            proof {
                assert(head@ =~= s@.take(i as int));
                assert(rest@ =~= s@.skip(i + 1));
            }
            let ghost tail0 = tail@;
            let mut r: Vec<Vec<char>> = Vec::new();
            r.push(head);
            r.append(&mut tail);
            proof {
                assert(forall|j: int| 0 <= j < tail0.len() ==> r@[j + 1] == tail0[j]);
            }
            r
        },
        None => {
            let whole = slice_range_to_vec(s, 0, s.len());
            proof {
                assert(whole@ =~= s@);
            }
            let mut r: Vec<Vec<char>> = Vec::new();
            r.push(whole);
            r
        },
    }
}

/// Whitespace for the purposes of trimming: blank, tab, newline, return.
pub open spec fn is_ws(c: char) -> bool {
    c == ' ' || c == '\t' || c == '\n' || c == '\r'
}

/// Executable test matching `is_ws`.
pub fn is_ws_char(c: char) -> (r: bool)
    ensures
        r == is_ws(c),
{
    c == ' ' || c == '\t' || c == '\n' || c == '\r'
}

/// Number of leading whitespace characters of `s`.
pub open spec fn ws_prefix_len(s: Seq<char>) -> int
    decreases s.len(),
{
    if s.len() == 0 || !is_ws(s[0]) {
        0
    } else {
        1 + ws_prefix_len(s.skip(1))
    }
}

pub proof fn lemma_ws_prefix_len(s: Seq<char>)
    ensures
        0 <= ws_prefix_len(s) <= s.len(),
        forall|j: int| 0 <= j < ws_prefix_len(s) ==> is_ws(s[j]),
        ws_prefix_len(s) < s.len() ==> !is_ws(s[ws_prefix_len(s)]),
    decreases s.len(),
{
    if s.len() == 0 || !is_ws(s[0]) {
    } else {
        lemma_ws_prefix_len(s.skip(1));
        assert forall|j: int| 0 <= j < ws_prefix_len(s) implies is_ws(s[j]) by {
            if j > 0 {
                assert(s.skip(1)[j - 1] == s[j]);
            }
        }
        if ws_prefix_len(s) < s.len() {
            assert(s.skip(1)[ws_prefix_len(s) - 1] == s[ws_prefix_len(s)]);
        }
    }
}

/// Number of trailing whitespace characters of `s`.
pub open spec fn ws_suffix_len(s: Seq<char>) -> int
    decreases s.len(),
{
    if s.len() == 0 || !is_ws(s[s.len() - 1]) {
        0
    } else {
        1 + ws_suffix_len(s.take(s.len() - 1))
    }
}

pub proof fn lemma_ws_suffix_len(s: Seq<char>)
    ensures
        0 <= ws_suffix_len(s) <= s.len(),
        forall|j: int| s.len() - ws_suffix_len(s) <= j < s.len() ==> is_ws(s[j]),
        ws_suffix_len(s) < s.len() ==> !is_ws(s[s.len() - 1 - ws_suffix_len(s)]),
    decreases s.len(),
{
    if s.len() == 0 || !is_ws(s[s.len() - 1]) {
    } else {
        let t = s.take(s.len() - 1);
        lemma_ws_suffix_len(t);
        assert forall|j: int| s.len() - ws_suffix_len(s) <= j < s.len() implies is_ws(s[j]) by {
            if j < s.len() - 1 {
                assert(t[j] == s[j]);
            }
        }
        if ws_suffix_len(s) < s.len() {
            assert(ws_suffix_len(t) < t.len());
            assert(t[t.len() - 1 - ws_suffix_len(t)] == s[s.len() - 1 - ws_suffix_len(s)]);
        }
    }
}

/// `s` with leading and trailing whitespace removed.
pub open spec fn spec_trim(s: Seq<char>) -> Seq<char> {
    if ws_prefix_len(s) == s.len() {
        Seq::empty()
    } else {
        s.subrange(ws_prefix_len(s), s.len() - ws_suffix_len(s))
    }
}

/// Trimming twice is the same as trimming once.
pub proof fn lemma_trim_idempotent(s: Seq<char>)
    ensures
        spec_trim(spec_trim(s)) == spec_trim(s),
{
    lemma_ws_prefix_len(s);
    lemma_ws_suffix_len(s);
    let t = spec_trim(s);
    if ws_prefix_len(s) == s.len() {
        assert(t.len() == 0);
        assert(spec_trim(t) =~= t);
    } else {
        assert(ws_prefix_len(s) + ws_suffix_len(s) < s.len()) by {
            if ws_prefix_len(s) + ws_suffix_len(s) >= s.len() {
                assert(is_ws(s[ws_prefix_len(s)]));
            }
        }
        assert(t.len() > 0);
        assert(!is_ws(t[0])) by {
            assert(t[0] == s[ws_prefix_len(s)]);
        }
        assert(!is_ws(t[t.len() - 1])) by {
            assert(t[t.len() - 1] == s[s.len() - 1 - ws_suffix_len(s)]);
        }
        assert(ws_prefix_len(t) == 0);
        assert(ws_suffix_len(t) == 0);
        assert(spec_trim(t) =~= t);
    }
}

/// Remove leading and trailing whitespace.
pub fn trim_chars(s: &[char]) -> (r: Vec<char>)
    ensures
        r@ == spec_trim(s@),
{
    proof {
        lemma_ws_prefix_len(s@);
        lemma_ws_suffix_len(s@);
    }
    let mut start: usize = 0;
    while start < s.len() && is_ws_char(s[start])
        invariant
            0 <= start <= s@.len(),
            start <= ws_prefix_len(s@),
        decreases s@.len() - start,
    {
        proof {
            lemma_ws_prefix_len(s@);
            if start + 1 > ws_prefix_len(s@) {
                assert(is_ws(s@[ws_prefix_len(s@)]));
            }
        }
        start += 1;
    }
    proof {
        lemma_ws_prefix_len(s@);
        if start < ws_prefix_len(s@) {
            assert(is_ws(s@[start as int]));
        }
        assert(start == ws_prefix_len(s@));
    }
    if start == s.len() {
        return Vec::new();
    }
    let mut end: usize = s.len();
    while end > start && is_ws_char(s[end - 1])
        invariant
            start < s@.len(),
            start == ws_prefix_len(s@),
            start <= end <= s@.len(),
            s@.len() - end <= ws_suffix_len(s@),
        decreases end,
    {
        proof {
            lemma_ws_suffix_len(s@);
            if s@.len() - (end - 1) > ws_suffix_len(s@) {
                assert(is_ws(s@[s@.len() - 1 - ws_suffix_len(s@)]));
            }
        }
        end -= 1;
    }
    proof {
        lemma_ws_prefix_len(s@);
        lemma_ws_suffix_len(s@);
        if s@.len() - end < ws_suffix_len(s@) {
            assert(is_ws(s@[end - 1]));
        }
        assert(s@.len() - end == ws_suffix_len(s@));
        assert(end > start) by {
            if end == start {
                assert(is_ws(s@[ws_prefix_len(s@)]));
            }
        }
    }
    slice_range_to_vec(s, start, end)
}

/// Copy of `s[from..to]`.
pub fn slice_range_to_vec(s: &[char], from: usize, to: usize) -> (r: Vec<char>)
    requires
        0 <= from <= to <= s@.len(),
    ensures
        r@ == s@.subrange(from as int, to as int),
{
    let mut r: Vec<char> = Vec::new();
    let mut i: usize = from;
    while i < to
        invariant
            from <= i <= to <= s@.len(),
            r@ == s@.subrange(from as int, i as int),
        decreases to - i,
    {
        r.push(s[i]);
        proof {
            assert(r@ =~= s@.subrange(from as int, i + 1 as int));
        }
        i += 1;
    }
    r
}

/// Append all of `src` to `dst`.
pub fn append_chars(dst: &mut Vec<char>, src: &[char])
    ensures
        final(dst)@ == old(dst)@ + src@,
{
    let mut i: usize = 0;
    while i < src.len()
        invariant
            0 <= i <= src@.len(),
            dst@ == old(dst)@ + src@.subrange(0, i as int),
        decreases src@.len() - i,
    {
        dst.push(src[i]);
        proof {
            assert(dst@ =~= old(dst)@ + src@.subrange(0, i + 1 as int));
        }
        i += 1;
    }
    proof {
        assert(dst@ =~= old(dst)@ + src@);
    }
}

/// Whether `c` is a decimal digit.
pub open spec fn is_digit(c: char) -> bool {
    '0' as u32 <= c as u32 && c as u32 <= '9' as u32
}

/// Numeric value of a decimal digit.
pub open spec fn digit_val(c: char) -> int {
    c as u32 - '0' as u32
}

/// Whether every character of `s` is a decimal digit.
pub open spec fn all_digits(s: Seq<char>) -> bool {
    forall|j: int| 0 <= j < s.len() ==> is_digit(s[j])
}

/// Value of a digit string read as a decimal number.
pub open spec fn dec_value(s: Seq<char>) -> int
    decreases s.len(),
{
    if s.len() == 0 {
        0
    } else {
        dec_value(s.take(s.len() - 1)) * 10 + digit_val(s[s.len() - 1])
    }
}

/// Parse a decimal `u64`; `None` on empty input, a non-digit, or overflow.
pub fn parse_u64(s: &[char]) -> (r: Option<u64>)
    ensures
        r matches Some(v) ==> s@.len() > 0 && all_digits(s@) && v == dec_value(s@),
        r is None ==> s@.len() == 0 || !all_digits(s@) || dec_value(s@) > u64::MAX,
{
    if s.len() == 0 {
        return None;
    }
    let mut acc: u64 = 0;
    let mut i: usize = 0;
    while i < s.len()
        invariant
            0 <= i <= s@.len(),
            all_digits(s@.take(i as int)),
            acc == dec_value(s@.take(i as int)),
        decreases s@.len() - i,
    {
        let c = s[i];
        let cu = c as u32;
        if cu < '0' as u32 || cu > '9' as u32 {
            assert(!is_digit(s@[i as int]));
            assert(!all_digits(s@));
            return None;
        }
        let d: u64 = (cu - '0' as u32) as u64;
        proof {
            assert(s@.take(i + 1 as int).take(i as int) =~= s@.take(i as int));
            assert(s@.take(i + 1 as int)[i as int] == s@[i as int]);
        }
        if acc > (u64::MAX - d) / 10 {
            proof {
                assert(dec_value(s@.take(i + 1 as int)) == acc * 10 + d);
                assert(acc * 10 + d > u64::MAX) by (nonlinear_arith)
                    requires
                        acc > (u64::MAX - d) / 10,
                        0 <= d <= 9,
                        acc <= u64::MAX,
                ;
                if all_digits(s@) {
                    lemma_dec_value_monotone(s@, i + 1 as int);
                }
            }
            return None;
        }
        acc = acc * 10 + d;
        i += 1;
    }
    proof {
        assert(s@.take(s@.len() as int) =~= s@);
    }
    Some(acc)
}

/// On an all-digit string, the value is non-negative.
proof fn lemma_dec_value_nonneg(s: Seq<char>)
    requires
        all_digits(s),
    ensures
        dec_value(s) >= 0,
    decreases s.len(),
{
    if s.len() > 0 {
        assert(all_digits(s.take(s.len() - 1)));
        lemma_dec_value_nonneg(s.take(s.len() - 1));
        let x = dec_value(s.take(s.len() - 1));
        assert(x * 10 >= 0) by (nonlinear_arith)
            requires
                x >= 0,
        ;
    }
}

/// On an all-digit string, a prefix never has a larger value.
proof fn lemma_dec_value_monotone(s: Seq<char>, n: int)
    requires
        0 <= n <= s.len(),
        all_digits(s),
    ensures
        dec_value(s.take(n)) <= dec_value(s),
    decreases s.len() - n,
{
    if n == s.len() {
        assert(s.take(n) =~= s);
    } else {
        lemma_dec_value_monotone(s, n + 1);
        let t = s.take(n + 1);
        assert(t.take(t.len() - 1) =~= s.take(n));
        assert(is_digit(t[n]));
        assert(all_digits(s.take(n)));
        lemma_dec_value_nonneg(s.take(n));
        let x = dec_value(s.take(n));
        assert(x * 10 + digit_val(t[n]) >= x) by (nonlinear_arith)
            requires
                0 <= digit_val(t[n]),
                0 <= x,
        ;
        assert(dec_value(t) == x * 10 + digit_val(t[n]));
    }
}

/// Whether the text reads as a signed 64-bit integer: an optional sign, then
/// digits only, within the `i64` range.
pub open spec fn i64_parses(s: Seq<char>) -> bool {
    let neg = s.len() > 0 && s[0] == '-';
    let signed = s.len() > 0 && (s[0] == '-' || s[0] == '+');
    let ds = if signed {
        s.skip(1)
    } else {
        s
    };
    &&& ds.len() > 0
    &&& all_digits(ds)
    &&& (if neg {
        dec_value(ds) <= 0x8000_0000_0000_0000
    } else {
        dec_value(ds) <= 0x7fff_ffff_ffff_ffff
    })
}

/// The signed value of such a text.
pub open spec fn i64_value(s: Seq<char>) -> int {
    let neg = s.len() > 0 && s[0] == '-';
    let signed = s.len() > 0 && (s[0] == '-' || s[0] == '+');
    let ds = if signed {
        s.skip(1)
    } else {
        s
    };
    if neg {
        -dec_value(ds)
    } else {
        dec_value(ds)
    }
}

/// Parse a signed decimal `i64` with an optional leading sign.
pub fn parse_i64(s: &[char]) -> (r: Option<i64>)
    ensures
        r is Some <==> i64_parses(s@),
        r matches Some(v) ==> v == i64_value(s@),
{
    if s.len() == 0 {
        return None;
    }
    let neg = s[0] == '-';
    let signed = neg || s[0] == '+';
    let start: usize = if signed {
        1
    } else {
        0
    };
    let digits = slice_range_to_vec(s, start, s.len());
    proof {
        if signed {
            assert(digits@ =~= s@.skip(1));
        } else {
            assert(digits@ =~= s@);
        }
    }
    match parse_u64(digits.as_slice()) {
        None => {
            proof {
                if digits@.len() > 0 && all_digits(digits@) {
                    if neg && dec_value(digits@) <= 0x8000_0000_0000_0000u64 as int {
                        assert(dec_value(digits@) <= u64::MAX);
                    }
                    if !neg && dec_value(digits@) <= 0x7fff_ffff_ffff_ffffu64 as int {
                        assert(dec_value(digits@) <= u64::MAX);
                    }
                }
            }
            None
        },
        Some(mag) => {
            if neg {
                if mag > 0x8000_0000_0000_0000u64 {
                    None
                } else if mag == 0x8000_0000_0000_0000u64 {
                    Some(i64::MIN)
                } else {
                    Some(-(mag as i64))
                }
            } else {
                if mag > 0x7fff_ffff_ffff_ffffu64 {
                    None
                } else {
                    Some(mag as i64)
                }
            }
        },
    }
}

/// The decimal digit character for a value below 10.
pub open spec fn dec_digit(v: int) -> char {
    if v == 0 {
        '0'
    } else if v == 1 {
        '1'
    } else if v == 2 {
        '2'
    } else if v == 3 {
        '3'
    } else if v == 4 {
        '4'
    } else if v == 5 {
        '5'
    } else if v == 6 {
        '6'
    } else if v == 7 {
        '7'
    } else if v == 8 {
        '8'
    } else {
        '9'
    }
}

fn dec_digit_exec(v: u64) -> (c: char)
    requires
        v < 10,
    ensures
        c == dec_digit(v as int),
{
    match v {
        0 => '0',
        1 => '1',
        2 => '2',
        3 => '3',
        4 => '4',
        5 => '5',
        6 => '6',
        7 => '7',
        8 => '8',
        _ => '9',
    }
}

/// The decimal rendering of a non-negative number.
pub open spec fn spec_u64_dec(n: int) -> Seq<char>
    decreases n,
{
    if n < 10 {
        seq![dec_digit(n)]
    } else {
        spec_u64_dec(n / 10) + seq![dec_digit(n % 10)]
    }
}

/// Render a number in decimal.
pub fn u64_to_dec(n: u64) -> (r: Vec<char>)
    ensures
        r@ == spec_u64_dec(n as int),
    decreases n,
{
    if n < 10 {
        let mut r: Vec<char> = Vec::new();
        r.push(dec_digit_exec(n));
        proof {
            assert(r@ =~= seq![dec_digit(n as int)]);
        }
        r
    } else {
        let mut r = u64_to_dec(n / 10);
        r.push(dec_digit_exec(n % 10));
        proof {
            assert(r@ =~= spec_u64_dec(n as int / 10) + seq![dec_digit(n as int % 10)]);
        }
        r
    }
}

/// The parts joined with `sep` between neighbours.
pub open spec fn spec_join_sep(parts: Seq<Seq<char>>, sep: Seq<char>) -> Seq<char>
    decreases parts.len(),
{
    if parts.len() == 0 {
        Seq::empty()
    } else if parts.len() == 1 {
        parts[0]
    } else {
        spec_join_sep(parts.drop_last(), sep) + sep + parts.last()
    }
}

/// Join string parts with a separator.
pub fn join_with(parts: &Vec<String>, sep: &str) -> (r: String)
    ensures
        r@ == spec_join_sep(parts@.map_values(|s: String| s@), sep@),
{
    let ghost pv = parts@.map_values(|s: String| s@);
    let sv = chars_of(sep);
    let mut acc: Vec<char> = Vec::new();
    let mut i: usize = 0;
    while i < parts.len()
        invariant
            0 <= i <= parts@.len(),
            pv == parts@.map_values(|s: String| s@),
            pv.len() == parts@.len(),
            sv@ == sep@,
            acc@ == spec_join_sep(pv.take(i as int), sep@),
        decreases parts@.len() - i,
    {
        if i > 0 {
            append_chars(&mut acc, sv.as_slice());
        }
        let piece = chars_of(parts[i].as_str());
        append_chars(&mut acc, piece.as_slice());
        proof {
            let t = pv.take(i + 1);
            assert(t.drop_last() =~= pv.take(i as int));
            assert(t.last() == pv[i as int]);
            if i == 0 {
                assert(acc@ =~= spec_join_sep(t, sep@));
            } else {
                assert(acc@ =~= spec_join_sep(t, sep@));
            }
        }
        i += 1;
    }
    proof {
        assert(pv.take(parts@.len() as int) =~= pv);
    }
    string_from_chars(acc.as_slice())
}

/// Rendering a number and reading the digits back yields the number.
pub proof fn lemma_u64_dec_round_trip(n: int)
    requires
        0 <= n,
    ensures
        all_digits(spec_u64_dec(n)),
        dec_value(spec_u64_dec(n)) == n,
    decreases n,
{
    if n < 10 {
        let s = spec_u64_dec(n);
        assert(s =~= seq![dec_digit(n)]);
        assert(is_digit(dec_digit(n)) && digit_val(dec_digit(n)) == n);
        assert(s.take(s.len() - 1) =~= Seq::<char>::empty());
        assert(dec_value(Seq::<char>::empty()) == 0);
        assert(dec_value(s) == n);
    } else {
        lemma_u64_dec_round_trip(n / 10);
        let head = spec_u64_dec(n / 10);
        let s = spec_u64_dec(n);
        assert(s =~= head + seq![dec_digit(n % 10)]);
        assert(s.take(s.len() - 1) =~= head);
        assert(is_digit(dec_digit(n % 10)) && digit_val(dec_digit(n % 10)) == n % 10);
        assert forall|j: int| 0 <= j < s.len() implies is_digit(s[j]) by {
            if j < head.len() {
                assert(s[j] == head[j]);
            }
        }
        assert(dec_value(s) == dec_value(head) * 10 + n % 10);
    }
}

/// Prefix order is transitive.
pub proof fn lemma_prefix_transitive<T>(a: Seq<T>, b: Seq<T>, c: Seq<T>)
    requires
        a.is_prefix_of(b),
        b.is_prefix_of(c),
    ensures
        a.is_prefix_of(c),
{
    assert(a =~= c.subrange(0, a.len() as int));
}

} // verus!

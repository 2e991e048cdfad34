//! Color themes: an RGB color type with hex parsing and printing, and the
//! built-in theme palette.

use vstd::prelude::*;

use crate::text::{chars_of, str_eq, string_from_chars};

verus! {

/// Simple RGB color representation.
#[derive(Debug, Clone, Copy, PartialEq, Eq, Structural)]
pub struct Color {
    pub r: u8,
    pub g: u8,
    pub b: u8,
}

/// Whether `c` is a hexadecimal digit (either case).
pub open spec fn is_hex_digit(c: char) -> bool {
    ||| '0' as u32 <= c as u32 <= '9' as u32
    ||| 'a' as u32 <= c as u32 <= 'f' as u32
    ||| 'A' as u32 <= c as u32 <= 'F' as u32
}

/// Numeric value of a hexadecimal digit.
pub open spec fn hex_val(c: char) -> int {
    if '0' as u32 <= c as u32 <= '9' as u32 {
        c as u32 - '0' as u32
    } else if 'a' as u32 <= c as u32 <= 'f' as u32 {
        c as u32 - 'a' as u32 + 10
    } else {
        c as u32 - 'A' as u32 + 10
    }
}

/// Value of a two-digit hex pair, or 0 when either character is no hex digit.
pub open spec fn hex_pair_val(hi: char, lo: char) -> int {
    if is_hex_digit(hi) && is_hex_digit(lo) {
        16 * hex_val(hi) + hex_val(lo)
    } else {
        0
    }
}

/// Number of leading `#` characters of `s`.
pub open spec fn hash_prefix_len(s: Seq<char>) -> int
    decreases s.len(),
{
    if s.len() == 0 || s[0] != '#' {
        0
    } else {
        1 + hash_prefix_len(s.skip(1))
    }
}

/// `s` with all leading `#` characters removed.
pub open spec fn strip_hashes(s: Seq<char>) -> Seq<char> {
    s.skip(hash_prefix_len(s))
}

pub proof fn lemma_hash_prefix_len(s: Seq<char>)
    ensures
        0 <= hash_prefix_len(s) <= s.len(),
        forall|j: int| 0 <= j < hash_prefix_len(s) ==> s[j] == '#',
        hash_prefix_len(s) < s.len() ==> s[hash_prefix_len(s)] != '#',
    decreases s.len(),
{
    if s.len() == 0 || s[0] != '#' {
    } else {
        lemma_hash_prefix_len(s.skip(1));
        assert forall|j: int| 0 <= j < hash_prefix_len(s) implies s[j] == '#' by {
            if j > 0 {
                assert(s.skip(1)[j - 1] == s[j]);
            }
        }
        if hash_prefix_len(s) < s.len() {
            assert(s.skip(1)[hash_prefix_len(s) - 1] == s[hash_prefix_len(s)]);
        }
    }
}

/// What `from_hex` returns: each color channel read from a two-digit pair of
/// the stripped input, with 0 for a pair that is not hexadecimal.
pub open spec fn spec_color_from_hex(s: Seq<char>) -> Color {
    let t = strip_hashes(s);
    Color {
        r: hex_pair_val(t[0], t[1]) as u8,
        g: hex_pair_val(t[2], t[3]) as u8,
        b: hex_pair_val(t[4], t[5]) as u8,
    }
}

/// Lowercase hex digit for a value below 16.
pub open spec fn hex_char(v: int) -> char {
    if v == 0 {
        '0'
    } else if v == 1 {
        '1'
    } else if v == 2 {
        '2'
    } else if v == 3 {
        '3'
    } else if v == 4 {
        '4'
    } else if v == 5 {
        '5'
    } else if v == 6 {
        '6'
    } else if v == 7 {
        '7'
    } else if v == 8 {
        '8'
    } else if v == 9 {
        '9'
    } else if v == 10 {
        'a'
    } else if v == 11 {
        'b'
    } else if v == 12 {
        'c'
    } else if v == 13 {
        'd'
    } else if v == 14 {
        'e'
    } else {
        'f'
    }
}

/// The text `to_hex` produces: `#` followed by three lowercase hex pairs.
pub open spec fn spec_color_to_hex(c: Color) -> Seq<char> {
    seq![
        '#',
        hex_char(c.r as int / 16),
        hex_char(c.r as int % 16),
        hex_char(c.g as int / 16),
        hex_char(c.g as int % 16),
        hex_char(c.b as int / 16),
        hex_char(c.b as int % 16),
    ]
}

impl Color {
    /// Build a color from its channels.
    pub fn rgb(r: u8, g: u8, b: u8) -> (c: Color)
        ensures
            c == (Color { r, g, b }),
    {
        Color { r, g, b }
    }

    /// Parse a hex color string like `#1a1b26`. Channels whose two characters
    /// are not hex digits read as 0. The input must keep six characters after
    /// its leading `#` marks.
    pub fn from_hex(hex: &str) -> (c: Color)
        requires
            strip_hashes(hex@).len() >= 6,
        ensures
            c == spec_color_from_hex(hex@),
    {
        let chars = chars_of(hex);
        proof {
            lemma_hash_prefix_len(hex@);
        }
        let mut start: usize = 0;
        while start < chars.len() && chars[start] == '#'
            invariant
                chars@ == hex@,
                0 <= start <= chars@.len(),
                start <= hash_prefix_len(hex@),
            decreases chars@.len() - start,
        {
            proof {
                lemma_hash_prefix_len(hex@);
                if start + 1 > hash_prefix_len(hex@) {
                    assert(hex@[hash_prefix_len(hex@)] == '#');
                }
            }
            start += 1;
        }
        proof {
            lemma_hash_prefix_len(hex@);
            if start < hash_prefix_len(hex@) {
                assert(hex@[start as int] == '#');
            }
            assert(start == hash_prefix_len(hex@));
            assert(forall|j: int| 0 <= j < 6 ==> strip_hashes(hex@)[j] == hex@[start + j]);
        }
        let r = hex_pair(chars[start], chars[start + 1]);
        let g = hex_pair(chars[start + 2], chars[start + 3]);
        let b = hex_pair(chars[start + 4], chars[start + 5]);
        Color { r, g, b }
    }

    /// Hex string `#rrggbb` in lowercase.
    pub fn to_hex(&self) -> (s: String)
        ensures
            s@ == spec_color_to_hex(*self),
    {
        let mut v: Vec<char> = Vec::new();
        v.push('#');
        push_hex_pair(&mut v, self.r);
        push_hex_pair(&mut v, self.g);
        push_hex_pair(&mut v, self.b);
        proof {
            assert(v@ =~= spec_color_to_hex(*self));
        }
        string_from_chars(v.as_slice())
    }
}

/// Read a two-character hex pair; 0 when either character is no hex digit.
fn hex_pair(hi: char, lo: char) -> (v: u8)
    ensures
        v == hex_pair_val(hi, lo),
{
    let hd = is_hex_digit_exec(hi);
    let ld = is_hex_digit_exec(lo);
    if !hd || !ld {
        return 0;
    }
    let hv = hex_val_exec(hi);
    let lv = hex_val_exec(lo);
    16 * hv + lv
}

fn is_hex_digit_exec(c: char) -> (r: bool)
    ensures
        r == is_hex_digit(c),
{
    let u = c as u32;
    ('0' as u32 <= u && u <= '9' as u32) || ('a' as u32 <= u && u <= 'f' as u32) || ('A' as u32 <= u
        && u <= 'F' as u32)
}

fn hex_val_exec(c: char) -> (v: u8)
    requires
        is_hex_digit(c),
    ensures
        v == hex_val(c),
        v < 16,
{
    let u = c as u32;
    if '0' as u32 <= u && u <= '9' as u32 {
        (u - '0' as u32) as u8
    } else if 'a' as u32 <= u && u <= 'f' as u32 {
        (u - 'a' as u32 + 10) as u8
    } else {
        (u - 'A' as u32 + 10) as u8
    }
}

/// Append the two lowercase hex digits of `v`.
fn push_hex_pair(out: &mut Vec<char>, v: u8)
    ensures
        final(out)@ == old(out)@ + seq![hex_char(v as int / 16), hex_char(v as int % 16)],
{
    let hi = v / 16;
    let lo = v % 16;
    out.push(hex_char_exec(hi));
    out.push(hex_char_exec(lo));
}

fn hex_char_exec(v: u8) -> (c: char)
    requires
        v < 16,
    ensures
        c == hex_char(v as int),
{
    match v {
        0 => '0',
        1 => '1',
        2 => '2',
        3 => '3',
        4 => '4',
        5 => '5',
        6 => '6',
        7 => '7',
        8 => '8',
        9 => '9',
        10 => 'a',
        11 => 'b',
        12 => 'c',
        13 => 'd',
        14 => 'e',
        _ => 'f',
    }
}

/// Printing a color and reading it back yields the same color.
pub proof fn lemma_color_hex_round_trip(c: Color)
    ensures
        spec_color_from_hex(spec_color_to_hex(c)) == c,
{
    let s = spec_color_to_hex(c);
    lemma_hex_char_val(c.r as int / 16);
    lemma_hex_char_val(c.r as int % 16);
    lemma_hex_char_val(c.g as int / 16);
    lemma_hex_char_val(c.g as int % 16);
    lemma_hex_char_val(c.b as int / 16);
    lemma_hex_char_val(c.b as int % 16);
    assert(hash_prefix_len(s) == 1) by {
        assert(s[0] == '#');
        assert(s.skip(1)[0] == s[1]);
        assert(s[1] != '#');
        assert(hash_prefix_len(s.skip(1)) == 0);
    }
    let t = strip_hashes(s);
    assert(t[0] == s[1] && t[1] == s[2] && t[2] == s[3] && t[3] == s[4] && t[4] == s[5] && t[5]
        == s[6]);
}

/// A generated hex digit is a hex digit with the expected value.
proof fn lemma_hex_char_val(v: int)
    requires
        0 <= v < 16,
    ensures
        is_hex_digit(hex_char(v)),
        hex_val(hex_char(v)) == v,
        hex_char(v) != '#',
{
}

/// A full color palette.
#[derive(Debug, Clone)]
pub struct Theme {
    pub name: &'static str,
    pub bg: Color,
    pub surface: Color,
    pub border: Color,
    pub text: Color,
    pub dim_text: Color,
    pub accent: Color,
    pub success: Color,
    pub warning: Color,
    pub error: Color,
    pub purple: Color,
    pub plan_badge: Color,
    pub builder_badge: Color,
    pub user_bubble: Color,
    pub assistant_bubble: Color,
}

/// The theme used when an unknown name is asked for.
pub open spec fn spec_default_theme_name() -> Seq<char> {
    "tokyo-night"@
}

/// Name of the fallback theme.
pub fn default_theme() -> (r: &'static str)
    ensures
        r@ == spec_default_theme_name(),
{
    "tokyo-night"
}

pub open spec fn is_tokyo_night(t: Theme) -> bool {
    &&& t.name@ == "Tokyo Night"@
    &&& t.bg == (Color { r: 0x1a, g: 0x1b, b: 0x26 })
    &&& t.accent == (Color { r: 0x7a, g: 0xa2, b: 0xf7 })
    &&& t.error == (Color { r: 0xf7, g: 0x76, b: 0x8e })
}

pub open spec fn is_rose_pine(t: Theme) -> bool {
    &&& t.name@ == "Rose Pine"@
    &&& t.bg == (Color { r: 0x19, g: 0x17, b: 0x24 })
    &&& t.accent == (Color { r: 0x31, g: 0x74, b: 0x8f })
    &&& t.error == (Color { r: 0xeb, g: 0x6f, b: 0x92 })
}

pub open spec fn is_gruvbox(t: Theme) -> bool {
    &&& t.name@ == "Gruvbox"@
    &&& t.bg == (Color { r: 0x28, g: 0x28, b: 0x28 })
    &&& t.accent == (Color { r: 0x83, g: 0xa5, b: 0x98 })
    &&& t.error == (Color { r: 0xfb, g: 0x49, b: 0x34 })
}

fn tokyo_night() -> (t: Theme)
    ensures
        is_tokyo_night(t),
{
    Theme {
        name: "Tokyo Night",
        bg: Color::rgb(0x1a, 0x1b, 0x26),
        surface: Color::rgb(0x24, 0x28, 0x3b),
        border: Color::rgb(0x3b, 0x42, 0x61),
        text: Color::rgb(0xc0, 0xca, 0xf5),
        dim_text: Color::rgb(0x56, 0x5f, 0x89),
        accent: Color::rgb(0x7a, 0xa2, 0xf7),
        success: Color::rgb(0x9e, 0xce, 0x6a),
        warning: Color::rgb(0xe0, 0xaf, 0x68),
        error: Color::rgb(0xf7, 0x76, 0x8e),
        purple: Color::rgb(0xbb, 0x9a, 0xf7),
        plan_badge: Color::rgb(0x73, 0xda, 0xca),
        builder_badge: Color::rgb(0xc2, 0x54, 0x50),
        user_bubble: Color::rgb(0x3b, 0x42, 0x61),
        assistant_bubble: Color::rgb(0x1a, 0x1b, 0x26),
    }
}

fn rose_pine() -> (t: Theme)
    ensures
        is_rose_pine(t),
{
    Theme {
        name: "Rose Pine",
        bg: Color::rgb(0x19, 0x17, 0x24),
        surface: Color::rgb(0x1f, 0x1d, 0x2e),
        border: Color::rgb(0x40, 0x3d, 0x52),
        text: Color::rgb(0xe0, 0xde, 0xf4),
        dim_text: Color::rgb(0x6e, 0x6a, 0x86),
        accent: Color::rgb(0x31, 0x74, 0x8f),
        success: Color::rgb(0x9c, 0xcf, 0xd8),
        warning: Color::rgb(0xf6, 0xc1, 0x77),
        error: Color::rgb(0xeb, 0x6f, 0x92),
        purple: Color::rgb(0xc4, 0xa7, 0xe7),
        plan_badge: Color::rgb(0x9c, 0xcf, 0xd8),
        builder_badge: Color::rgb(0xb4, 0x63, 0x7a),
        user_bubble: Color::rgb(0x40, 0x3d, 0x52),
        assistant_bubble: Color::rgb(0x19, 0x17, 0x24),
    }
}

fn gruvbox() -> (t: Theme)
    ensures
        is_gruvbox(t),
{
    Theme {
        name: "Gruvbox",
        bg: Color::rgb(0x28, 0x28, 0x28),
        surface: Color::rgb(0x3c, 0x38, 0x36),
        border: Color::rgb(0x50, 0x49, 0x45),
        text: Color::rgb(0xeb, 0xdb, 0xb2),
        dim_text: Color::rgb(0x92, 0x83, 0x74),
        accent: Color::rgb(0x83, 0xa5, 0x98),
        success: Color::rgb(0xb8, 0xbb, 0x26),
        warning: Color::rgb(0xfa, 0xbd, 0x2f),
        error: Color::rgb(0xfb, 0x49, 0x34),
        purple: Color::rgb(0xd3, 0x86, 0x9b),
        plan_badge: Color::rgb(0x8e, 0xc0, 0x7c),
        builder_badge: Color::rgb(0xcc, 0x24, 0x1d),
        user_bubble: Color::rgb(0x50, 0x49, 0x45),
        assistant_bubble: Color::rgb(0x28, 0x28, 0x28),
    }
}

/// Look a theme up by name; unknown names fall back to the default theme.
pub fn get_theme(name: &str) -> (t: Theme)
    ensures
        name@ == "tokyo-night"@ ==> is_tokyo_night(t),
        name@ == "rose-pine"@ ==> is_rose_pine(t),
        name@ == "gruvbox"@ ==> is_gruvbox(t),
        name@ != "rose-pine"@ && name@ != "gruvbox"@ ==> is_tokyo_night(t),
{
    proof {
        reveal_strlit("tokyo-night");
        reveal_strlit("rose-pine");
        reveal_strlit("gruvbox");
        assert("tokyo-night"@.len() == 11);
        assert("rose-pine"@.len() == 9);
        assert("gruvbox"@.len() == 7);
        assert("tokyo-night"@ != "rose-pine"@);
        assert("tokyo-night"@ != "gruvbox"@);
        assert("gruvbox"@ != "rose-pine"@);
    }
    if str_eq(name, "rose-pine") {
        rose_pine()
    } else if str_eq(name, "gruvbox") {
        gruvbox()
    } else {
        tokyo_night()
    }
}

/// The names of every built-in theme, default first.
pub fn theme_names() -> (r: Vec<&'static str>)
    ensures
        r@.len() == 3,
        r@[0]@ == "tokyo-night"@,
        r@[1]@ == "rose-pine"@,
        r@[2]@ == "gruvbox"@,
{
    let mut v: Vec<&'static str> = Vec::new();
    v.push("tokyo-night");
    v.push("rose-pine");
    v.push("gruvbox");
    v
}

} // verus!

//! Text sources: styling choices (weight, alignment, scrolling) and what
//! is shown of a text (counts, summary, colors given in hex).
use vstd::prelude::*;

use crate::text::{all_ws, append_decimal, char_count, decimal, is_blank, owned, push_char, utf8_len};
use vstd::string::StringSliceAdditionalSpecFns;
use vstd::utf8::{decode_utf8, encode_utf8, is_char_boundary};

verus! {

/// Font weight for the text.
#[derive(Debug, Clone, Copy, PartialEq, Eq, Structural)]
pub enum FontWeight {
    Light,
    Normal,
    Bold,
    ExtraBold,
}

impl Default for FontWeight {
    fn default() -> (r: Self)
        ensures
            r == FontWeight::Normal,
    {
        FontWeight::Normal
    }
}

impl FontWeight {
    /// Display name of the weight.
    pub fn label(&self) -> (r: &'static str)
        ensures
            r@ == match *self {
                FontWeight::Light => "Light"@,
                FontWeight::Normal => "Normal"@,
                FontWeight::Bold => "Bold"@,
                FontWeight::ExtraBold => "Extra Bold"@,
            },
    {
        match self {
            FontWeight::Light => "Light",
            FontWeight::Normal => "Normal",
            FontWeight::Bold => "Bold",
            FontWeight::ExtraBold => "Extra Bold",
        }
    }
}

/// Horizontal text alignment.
#[derive(Debug, Clone, Copy, PartialEq, Eq, Structural)]
pub enum TextAlign {
    Left,
    Center,
    Right,
}

impl Default for TextAlign {
    fn default() -> (r: Self)
        ensures
            r == TextAlign::Left,
    {
        TextAlign::Left
    }
}

impl TextAlign {
    /// Display name of the alignment.
    pub fn label(&self) -> (r: &'static str)
        ensures
            r@ == match *self {
                TextAlign::Left => "Left"@,
                TextAlign::Center => "Center"@,
                TextAlign::Right => "Right"@,
            },
    {
        match self {
            TextAlign::Left => "Left",
            TextAlign::Center => "Center",
            TextAlign::Right => "Right",
        }
    }
}

/// Scrolling direction for the text source.
#[derive(Debug, Clone, Copy, PartialEq, Eq, Structural)]
pub enum ScrollDirection {
    /// No scrolling.
    NoScroll,
    /// Scroll vertically from bottom to top (credits-style).
    Up,
    /// Scroll vertically from top to bottom.
    Down,
    /// Scroll horizontally from right to left (ticker-style).
    Left,
    /// Scroll horizontally from left to right.
    Right,
}

impl Default for ScrollDirection {
    fn default() -> (r: Self)
        ensures
            r == ScrollDirection::NoScroll,
    {
        ScrollDirection::NoScroll
    }
}

impl ScrollDirection {
    /// Display name of the direction.
    pub fn label(&self) -> (r: &'static str)
        ensures
            r@ == match *self {
                ScrollDirection::NoScroll => "None"@,
                ScrollDirection::Up => "Scroll Up"@,
                ScrollDirection::Down => "Scroll Down"@,
                ScrollDirection::Left => "Scroll Left"@,
                ScrollDirection::Right => "Scroll Right"@,
            },
    {
        match self {
            ScrollDirection::NoScroll => "None",
            ScrollDirection::Up => "Scroll Up",
            ScrollDirection::Down => "Scroll Down",
            ScrollDirection::Left => "Scroll Left",
            ScrollDirection::Right => "Scroll Right",
        }
    }
}
// ── the text itself ─────────────────────────────────────────────────────────

/// Whether a text shows nothing (only whitespace).
pub fn text_is_empty(text: &str) -> (r: bool)
    ensures
        r == all_ws(text@),
{
    is_blank(text)
}

/// The number of characters of a text.
pub fn text_char_count(text: &str) -> (r: usize)
    ensures
        r == text@.len(),
{
    char_count(text)
}

/// How often `c` occurs in `s`.
pub open spec fn occurrences(s: Seq<char>, c: char) -> nat
    decreases s.len(),
{
    if s.len() == 0 {
        0
    } else {
        occurrences(s.drop_last(), c) + if s.last() == c { 1nat } else { 0nat }
    }
}

/// The number of lines of a text (`str::lines`): one per line break, plus
/// one for a last line without a break; none for an empty text.
pub open spec fn line_count_spec(s: Seq<char>) -> nat {
    if s.len() == 0 {
        0
    } else if s.last() == '\n' {
        occurrences(s, '\n')
    } else {
        occurrences(s, '\n') + 1
    }
}

/// The number of lines of a text.
pub fn text_line_count(text: &str) -> (r: usize)
    ensures
        r == line_count_spec(text@),
{
    let n = text.unicode_len();
    if n == 0 {
        return 0;
    }
    let mut breaks: usize = 0;
    let mut i: usize = 0;
    while i < n - 1
        invariant
            n == text@.len(),
            n > 0,
            i <= n - 1,
            breaks == occurrences(text@.subrange(0, i as int), '\n'),
            breaks <= i,
        decreases n - 1 - i,
    {
        assert(text@.subrange(0, i + 1).drop_last() =~= text@.subrange(0, i as int));
        if text.get_char(i) == '\n' {
            breaks = breaks + 1;
        }
        i = i + 1;
    }
    assert(text@.subrange(0, n - 1) =~= text@.drop_last());
    breaks + 1
}

/// The characters whose UTF-8 encoding is the first `n` bytes of `s`'s.
pub open spec fn byte_prefix(s: Seq<char>, n: int) -> Seq<char> {
    decode_utf8(encode_utf8(s).subrange(0, n))
}

/// The preview a summary shows: the first 40 bytes and an ellipsis when
/// the text is longer, the whole text otherwise.
pub open spec fn preview_spec(s: Seq<char>) -> Seq<char> {
    if utf8_len(s) > 40 {
        byte_prefix(s, 40) + seq!['\u{2026}']
    } else {
        s
    }
}

/// A one-line summary: character and line counts and a preview.
pub open spec fn summary_spec(s: Seq<char>) -> Seq<char> {
    decimal(s.len()) + " chars, "@ + decimal(line_count_spec(s)) + " lines: "@ + preview_spec(s)
}

/// A one-line summary of a text: `<chars> chars, <lines> lines: <preview>`,
/// the preview cut after 40 bytes (with an ellipsis) for longer texts. The
/// cut must fall between two characters.
pub fn text_summary(text: &str) -> (r: String)
    requires
        utf8_len(text@) > 40 ==> is_char_boundary(encode_utf8(text@), 40),
    ensures
        r@ == summary_spec(text@),
{
    broadcast use vstd::utf8::encode_utf8_decode_utf8;

    let chars = text_char_count(text);
    let lines = text_line_count(text);
    let mut out = String::new();
    append_decimal(&mut out, chars as u64);
    out.append(" chars, ");
    append_decimal(&mut out, lines as u64);
    out.append(" lines: ");
    if text.len() > 40 {
        let (head, _) = text.split_at(40);
        proof {
            assert(decode_utf8(encode_utf8(head@)) == head@);
            assert(head.spec_bytes() == encode_utf8(head@));
        }
        out.append(head);
        push_char(&mut out, '\u{2026}');
    } else {
        out.append(text);
    }
    out
}

// ── colors given in hex ─────────────────────────────────────────────────────

/// `s` without its leading `#` characters.
pub open spec fn strip_hashes(s: Seq<char>) -> Seq<char>
    decreases s.len(),
{
    if s.len() > 0 && s[0] == '#' {
        strip_hashes(s.drop_first())
    } else {
        s
    }
}

/// The value of a hexadecimal digit.
pub open spec fn hex_value(c: char) -> Option<nat> {
    if '0' <= c <= '9' {
        Some((c as nat - '0' as nat) as nat)
    } else if 'a' <= c <= 'f' {
        Some((c as nat - 'a' as nat + 10) as nat)
    } else if 'A' <= c <= 'F' {
        Some((c as nat - 'A' as nat + 10) as nat)
    } else {
        None
    }
}

/// A two-character field read as a hexadecimal `u8`
/// (`u8::from_str_radix(.., 16)`, which also takes a leading `+`).
pub open spec fn hex_byte(a: char, b: char) -> Option<u8> {
    if a == '+' {
        match hex_value(b) {
            Some(v) => Some(v as u8),
            None => None,
        }
    } else {
        match (hex_value(a), hex_value(b)) {
            (Some(x), Some(y)) => Some((16 * x + y) as u8),
            _ => None,
        }
    }
}

/// The red, green and blue bytes of `RRGGBB` (any leading `#` removed).
pub open spec fn hex_rgb_spec(s: Seq<char>) -> Option<(u8, u8, u8)> {
    let t = strip_hashes(s);
    if t.len() == 6 && (forall|i: int| 0 <= i < 6 ==> (t[i] as u32) < 128) {
        match (hex_byte(t[0], t[1]), hex_byte(t[2], t[3]), hex_byte(t[4], t[5])) {
            (Some(r), Some(g), Some(b)) => Some((r, g, b)),
            _ => None,
        }
    } else {
        None
    }
}

fn hex_value_of(c: char) -> (r: Option<u32>)
    ensures
        match hex_value(c) {
            Some(v) => r == Some(v as u32),
            None => r.is_none(),
        },
{
    let v = c as u32;
    if 48 <= v && v <= 57 {
        Some(v - 48)
    } else if 97 <= v && v <= 102 {
        Some(v - 87)
    } else if 65 <= v && v <= 70 {
        Some(v - 55)
    } else {
        None
    }
}

fn hex_byte_of(a: char, b: char) -> (r: Option<u8>)
    ensures
        r == hex_byte(a, b),
{
    if a == '+' {
        return match hex_value_of(b) {
            Some(v) => Some(v as u8),
            None => None,
        };
    }
    match (hex_value_of(a), hex_value_of(b)) {
        (Some(x), Some(y)) => Some((16 * x + y) as u8),
        _ => None,
    }
}

/// The red, green and blue bytes of a color written `#RRGGBB` (or
/// `RRGGBB`); `None` for anything else. Six bytes after the `#` must split
/// into pairs between characters.
pub fn parse_hex_rgb(hex: &str) -> (r: Option<(u8, u8, u8)>)
    requires
        utf8_len(strip_hashes(hex@)) == 6 ==> is_char_boundary(encode_utf8(strip_hashes(hex@)), 2)
            && is_char_boundary(encode_utf8(strip_hashes(hex@)), 4),
    ensures
        r == hex_rgb_spec(hex@),
{
    let n = hex.unicode_len();
    let mut start: usize = 0;
    assert(hex@.skip(0) =~= hex@);
    while start < n && hex.get_char(start) == '#'
        invariant
            n == hex@.len(),
            start <= n,
            strip_hashes(hex@) == strip_hashes(hex@.skip(start as int)),
        decreases n - start,
    {
        assert(hex@.skip(start as int).drop_first() =~= hex@.skip(start + 1));
        start = start + 1;
    }
    let t = hex.substring_char(start, n);
    assert(t@ =~= hex@.skip(start as int));
    assert(strip_hashes(t@) == t@);
    assert(strip_hashes(hex@) == t@);
    if t.unicode_len() != 6 {
        return None;
    }
    let mut i: usize = 0;
    while i < 6
        invariant
            t@.len() == 6,
            strip_hashes(hex@) == t@,
            i <= 6,
            forall|k: int| 0 <= k < i ==> (t@[k] as u32) < 128,
        decreases 6 - i,
    {
        if (t.get_char(i) as u32) >= 128 {
            return None;
        }
        i = i + 1;
    }
    let r = hex_byte_of(t.get_char(0), t.get_char(1));
    let g = hex_byte_of(t.get_char(2), t.get_char(3));
    let b = hex_byte_of(t.get_char(4), t.get_char(5));
    match (r, g, b) {
        (Some(r), Some(g), Some(b)) => Some((r, g, b)),
        _ => None,
    }
}

} // verus!

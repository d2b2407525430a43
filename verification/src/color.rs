//! Hexadecimal colour parsing for settings fields and theme palettes.
use vstd::prelude::*;
use vstd::utf8::{encode_utf8, is_ascii_chars, is_ascii_chars_encode_utf8};

use crate::text::{
    is_hex_spec, is_whitespace_spec, strip_hashes_spec, strip_leading_hashes, to_ascii_uppercase,
    trim, trim_spec, upper_seq,
};

verus! {

/// Value of a hexadecimal digit character.
pub open spec fn hex_value(c: char) -> nat {
    if '0' <= c && c <= '9' {
        (c as u32 - '0' as u32) as nat
    } else if 'a' <= c && c <= 'f' {
        (c as u32 - 'a' as u32 + 10) as nat
    } else if 'A' <= c && c <= 'F' {
        (c as u32 - 'A' as u32 + 10) as nat
    } else {
        0
    }
}

/// Byte value of two hexadecimal digit characters, high digit first.
pub open spec fn hex_pair(hi: char, lo: char) -> nat {
    16 * hex_value(hi) + hex_value(lo)
}

/// Every character of `s` is an ASCII hexadecimal digit.
pub open spec fn all_hex(s: Seq<char>) -> bool {
    forall|i: int| 0 <= i < s.len() ==> is_hex_spec(#[trigger] s[i])
}

/// The colour text with surrounding white space and leading `'#'` removed.
pub open spec fn sanitized_hex(s: Seq<char>) -> Seq<char> {
    strip_hashes_spec(trim_spec(s))
}

/// `(red, green, blue)` of a six-digit hexadecimal colour, or `None` when the
/// sanitized text is not exactly six hexadecimal digits.
pub open spec fn parse_rgb_hex_spec(s: Seq<char>) -> Option<(i32, i32, i32)> {
    let h = sanitized_hex(s);
    if h.len() == 6 && all_hex(h) {
        Some(
            (
                hex_pair(h[0], h[1]) as i32,
                hex_pair(h[2], h[3]) as i32,
                hex_pair(h[4], h[5]) as i32,
            ),
        )
    } else {
        None
    }
}

/// The byte `b` is an ASCII hexadecimal digit.
pub open spec fn is_hex_byte(b: u8) -> bool {
    is_hex_spec(b as char)
}

/// What `u8::from_str_radix(.., 16)` yields for a two-byte text: an optional
/// `'+'` sign followed by hexadecimal digits.
pub open spec fn radix16_pair(b0: u8, b1: u8) -> Option<u8> {
    if b0 == 0x2B && is_hex_byte(b1) {
        Some(hex_value(b1 as char) as u8)
    } else if is_hex_byte(b0) && is_hex_byte(b1) {
        Some(hex_pair(b0 as char, b1 as char) as u8)
    } else {
        None
    }
}

/// Colour component read from bytes `start..start + 2`, or `default` when
/// those bytes are missing or are not a hexadecimal byte.
pub open spec fn component_or(bytes: Seq<u8>, start: int, default: u8) -> u8 {
    if bytes.len() >= start + 2 {
        match radix16_pair(bytes[start], bytes[start + 1]) {
            Some(v) => v,
            None => default,
        }
    } else {
        default
    }
}

/// Components of a colour text whose missing or malformed parts fall back to
/// the given defaults; the text is read as UTF-8 bytes after sanitizing.
pub open spec fn rgb_components_spec(s: Seq<char>, defaults: (u8, u8, u8)) -> (u8, u8, u8) {
    let b = encode_utf8(sanitized_hex(s));
    (component_or(b, 0, defaults.0), component_or(b, 2, defaults.1), component_or(b, 4, defaults.2))
}

/// Value of a hexadecimal digit byte, or 0 for any other byte.
pub open spec fn nibble_spec(c: u8) -> u8 {
    if is_hex_byte(c) {
        hex_value(c as char) as u8
    } else {
        0
    }
}

/// Byte of two hexadecimal digit bytes where a non-digit counts as 0.
pub open spec fn hex_byte_spec(hi: u8, lo: u8) -> u8 {
    (16 * nibble_spec(hi) + nibble_spec(lo)) as u8
}

/// Components of raw colour bytes read pairwise without sanitizing, each
/// missing pair falling back to the given default.
pub open spec fn raw_components_spec(b: Seq<u8>, defaults: (u8, u8, u8)) -> (u8, u8, u8) {
    (
        if b.len() >= 2 { hex_byte_spec(b[0], b[1]) } else { defaults.0 },
        if b.len() >= 4 { hex_byte_spec(b[2], b[3]) } else { defaults.1 },
        if b.len() >= 6 { hex_byte_spec(b[4], b[5]) } else { defaults.2 },
    )
}

/// Default background colour, used when a stored background colour is malformed.
pub open spec fn default_background() -> (u8, u8, u8) {
    (0x18, 0x15, 0x13)
}

/// Default accent colour, used when a theme colour is malformed.
pub open spec fn default_accent() -> (u8, u8, u8) {
    (0xD2, 0x9A, 0x5C)
}

/// Value of a hexadecimal digit character; `c` must be one.
pub fn hex_digit_value(c: char) -> (r: u8)
    requires
        is_hex_spec(c),
    ensures
        r == hex_value(c),
        r < 16,
{
    if '0' <= c && c <= '9' {
        ((c as u32) - ('0' as u32)) as u8
    } else if 'a' <= c && c <= 'f' {
        ((c as u32) - ('a' as u32) + 10) as u8
    } else {
        ((c as u32) - ('A' as u32) + 10) as u8
    }
}

/// Value of a hexadecimal digit byte, or 0 for any other byte.
pub fn hex_nibble(c: u8) -> (r: u8)
    ensures
        r == nibble_spec(c),
        r < 16,
{
    if 0x30u8 <= c && c <= 0x39u8 {
        c - 0x30u8
    } else if 0x61u8 <= c && c <= 0x66u8 {
        c - 0x61u8 + 10
    } else if 0x41u8 <= c && c <= 0x46u8 {
        c - 0x41u8 + 10
    } else {
        0
    }
}

/// Byte of two hexadecimal digit bytes, high digit first; a non-digit counts as 0.
pub fn hex_byte(hi: u8, lo: u8) -> (r: u8)
    ensures
        r == hex_byte_spec(hi, lo),
{
    hex_nibble(hi) * 16 + hex_nibble(lo)
}

/// Whether `c` is an ASCII hexadecimal digit byte.
fn is_hex_digit_byte(c: u8) -> (r: bool)
    ensures
        r == is_hex_byte(c),
{
    (0x30u8 <= c && c <= 0x39u8) || (0x61u8 <= c && c <= 0x66u8) || (0x41u8 <= c && c <= 0x46u8)
}

/// What `u8::from_str_radix(.., 16)` yields for the two bytes `b0 b1`.
fn parse_radix16_pair(b0: u8, b1: u8) -> (r: Option<u8>)
    ensures
        r == radix16_pair(b0, b1),
{
    if b0 == 0x2Bu8 && is_hex_digit_byte(b1) {
        Some(hex_nibble(b1))
    } else if is_hex_digit_byte(b0) && is_hex_digit_byte(b1) {
        Some(hex_nibble(b0) * 16 + hex_nibble(b1))
    } else {
        None
    }
}

/// Colour component read from `bytes[start..start + 2]`, or `default`.
fn component_from_bytes(bytes: &[u8], start: usize, default: u8) -> (r: u8)
    requires
        start <= 4,
    ensures
        r == component_or(bytes@, start as int, default),
{
    if bytes.len() >= start + 2 {
        match parse_radix16_pair(bytes[start], bytes[start + 1]) {
            Some(v) => v,
            None => default,
        }
    } else {
        default
    }
}

/// Whether every character of `s` is an ASCII hexadecimal digit.
fn all_hex_digits(s: &str) -> (r: bool)
    ensures
        r == all_hex(s@),
{
    let n = s.unicode_len();
    let mut i: usize = 0;
    while i < n
        invariant
            n == s@.len(),
            i <= n,
            forall|j: int| 0 <= j < i ==> is_hex_spec(s@[j]),
        decreases n - i,
    {
        if !crate::text::is_ascii_hexdigit(s.get_char(i)) {
            return false;
        }
        i = i + 1;
    }
    true
}

/// The text with surrounding white space and leading `'#'` removed.
fn sanitize_hex(input: &str) -> (r: &str)
    ensures
        r@ == sanitized_hex(input@),
{
    strip_leading_hashes(trim(input))
}

/// Parses a six-digit RGB hexadecimal colour, with or without `'#'` prefix and
/// surrounding white space. Returns `None` unless exactly six hexadecimal
/// digits remain.
pub fn parse_rgb_hex(input: &str) -> (r: Option<(i32, i32, i32)>)
    ensures
        r == parse_rgb_hex_spec(input@),
{
    let hex = sanitize_hex(input);
    if hex.unicode_len() != 6 || !all_hex_digits(hex) {
        return None;
    }
    let red = hex_digit_value(hex.get_char(0)) as i32 * 16 + hex_digit_value(hex.get_char(1)) as i32;
    let green = hex_digit_value(hex.get_char(2)) as i32 * 16 + hex_digit_value(hex.get_char(3))
        as i32;
    let blue = hex_digit_value(hex.get_char(4)) as i32 * 16 + hex_digit_value(hex.get_char(5))
        as i32;
    Some((red, green, blue))
}

/// Colour components of a hexadecimal text (with or without `'#'`), each
/// component falling back to the default dark-grey background when its two
/// bytes are missing or malformed.
pub fn rgb_components_from_hex(hex: &str) -> (r: (u8, u8, u8))
    ensures
        r == rgb_components_spec(hex@, default_background()),
        parse_rgb_hex_spec(hex@) matches Some((red, green, blue)) ==> r == (
            red as u8,
            green as u8,
            blue as u8,
        ),
{
    proof {
        if parse_rgb_hex_spec(hex@) is Some {
            lemma_component_reading_agrees_with_parsing(hex@, default_background());
        }
    }
    let sanitized = sanitize_hex(hex);
    let bytes = sanitized.as_bytes();
    (
        component_from_bytes(bytes, 0, 0x18),
        component_from_bytes(bytes, 2, 0x15),
        component_from_bytes(bytes, 4, 0x13),
    )
}

/// Colour components of a theme colour text read as raw bytes pairwise; each
/// missing pair falls back to the default accent colour and a non-digit byte
/// counts as 0.
pub fn hex_to_rgb(hex: &str) -> (r: (u8, u8, u8))
    ensures
        r == raw_components_spec(encode_utf8(hex@), default_accent()),
{
    let bytes = hex.as_bytes();
    let red = if bytes.len() >= 2 {
        hex_byte(bytes[0], bytes[1])
    } else {
        0xD2
    };
    let green = if bytes.len() >= 4 {
        hex_byte(bytes[2], bytes[3])
    } else {
        0x9A
    };
    let blue = if bytes.len() >= 6 {
        hex_byte(bytes[4], bytes[5])
    } else {
        0x5C
    };
    (red, green, blue)
}

/// Clamps a colour channel to `0..=255`.
pub fn clamp_rgb(value: i32) -> (r: i32)
    ensures
        r == if value < 0 {
            0
        } else if value > 255 {
            255
        } else {
            value
        },
{
    if value < 0 {
        0
    } else if value > 255 {
        255
    } else {
        value
    }
}

/// The upper-cased six hexadecimal digits of a theme colour override, or
/// `None` when the sanitized text is not exactly six hexadecimal digits.
pub fn optional_theme_override(value: &str) -> (r: Option<String>)
    ensures
        match r {
            Some(s) => sanitized_hex(value@).len() == 6 && all_hex(sanitized_hex(value@)) && s@
                == upper_seq(sanitized_hex(value@)),
            None => !(sanitized_hex(value@).len() == 6 && all_hex(sanitized_hex(value@))),
        },
{
    let trimmed = sanitize_hex(value);
    if trimmed.unicode_len() != 6 || !all_hex_digits(trimmed) {
        return None;
    }
    Some(to_ascii_uppercase(trimmed))
}

/// A colour text that `parse_rgb_hex` accepts gives the same components to
/// `rgb_components_from_hex`, whatever its defaults.
pub proof fn lemma_component_reading_agrees_with_parsing(s: Seq<char>, defaults: (u8, u8, u8))
    requires
        parse_rgb_hex_spec(s) is Some,
    ensures
        ({
            let (r, g, b) = parse_rgb_hex_spec(s).unwrap();
            rgb_components_spec(s, defaults) == (r as u8, g as u8, b as u8)
        }),
{
    let h = sanitized_hex(s);
    assert(is_ascii_chars(h)) by {
        assert forall|i: int| 0 <= i < h.len() implies '\0' <= #[trigger] h[i] <= '\u{7f}' by {
            assert(is_hex_spec(h[i]));
        }
    }
    is_ascii_chars_encode_utf8(h);
    let bytes = encode_utf8(h);
    assert forall|i: int| 0 <= i < 6 implies (#[trigger] bytes[i]) as char == h[i] && is_hex_byte(
        bytes[i],
    ) && bytes[i] != 0x2B by {
        assert(h[i] as u8 == bytes[i]);
        assert(is_hex_spec(h[i]));
        assert((h[i] as u8) as char == h[i]);
    }
    assert(hex_pair(h[0], h[1]) < 256);
    assert(hex_pair(h[2], h[3]) < 256);
    assert(hex_pair(h[4], h[5]) < 256);
}

} // verus!

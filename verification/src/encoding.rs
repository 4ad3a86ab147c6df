//! Base64 and JSON string notation, as the payloads of presence stanzas use
//! them.
use vstd::prelude::*;

use base64::Engine;

verus! {

/// A character of the standard base64 alphabet.
pub open spec fn b64_char(v: int) -> char {
    if 0 <= v < 26 {
        (('A' as u32) + v) as char
    } else if 26 <= v < 52 {
        (('a' as u32) + (v - 26)) as char
    } else if 52 <= v < 62 {
        (('0' as u32) + (v - 52)) as char
    } else if v == 62 {
        '+'
    } else {
        '/'
    }
}

/// Standard base64 with `=` padding: each three bytes become four
/// characters of six bits each; a last group of one or two bytes is padded.
pub open spec fn b64_encode(b: Seq<u8>) -> Seq<char>
    decreases b.len(),
{
    if b.len() == 0 {
        seq![]
    } else if b.len() == 1 {
        seq![b64_char((b[0] as int) / 4), b64_char(((b[0] as int) % 4) * 16), '=', '=']
    } else if b.len() == 2 {
        seq![b64_char((b[0] as int) / 4), b64_char(((b[0] as int) % 4) * 16 + (b[1] as int) / 16), b64_char(((b[1] as int) % 16) * 4), '=']
    } else {
        seq![
            b64_char((b[0] as int) / 4),
            b64_char(((b[0] as int) % 4) * 16 + (b[1] as int) / 16),
            b64_char(((b[1] as int) % 16) * 4 + (b[2] as int) / 64),
            b64_char((b[2] as int) % 64),
        ] + b64_encode(b.skip(3))
    }
}

/// `base64::engine::general_purpose::STANDARD.encode`: per the crate's
/// documentation, standard base64 with padding of the bytes.
#[verifier::external_body]
pub(crate) fn base64_encode(bytes: &[u8]) -> (r: String)
    ensures
        r@ == b64_encode(bytes@),
{
    base64::engine::general_purpose::STANDARD.encode(bytes)
}

/// What standard base64 with padding reads a text as: the bytes whose
/// encoding the text is, `None` where it is the encoding of no bytes (an
/// encoding is never shared, so the bytes are unique).
pub open spec fn b64_decode_spec(text: Seq<char>) -> Option<Seq<u8>> {
    if exists|b: Seq<u8>| #[trigger] b64_encode(b) == text {
        Some(choose|b: Seq<u8>| #[trigger] b64_encode(b) == text)
    } else {
        None
    }
}

pub open spec fn opt_bytes(o: Option<Vec<u8>>) -> Option<Seq<u8>> {
    match o {
        Some(v) => Some(v@),
        None => None,
    }
}

/// `base64::engine::general_purpose::STANDARD.decode`. The engine requires
/// canonical padding and rejects trailing bits, so it reads exactly the texts
/// that standard base64 writes: the contract claims it gives back the bytes
/// whose encoding the text is, and refuses a text that is the encoding of no
/// bytes.
#[verifier::external_body]
pub(crate) fn base64_decode(text: &str) -> (r: Option<Vec<u8>>)
    ensures
        opt_bytes(r) == b64_decode_spec(text@),
{
    base64::engine::general_purpose::STANDARD.decode(text).ok()
}

/// A character of the URL-safe base64 alphabet: `-` and `_` in place of
/// `+` and `/`.
pub open spec fn b64_url_char(v: int) -> char {
    if v == 62 {
        '-'
    } else if v == 63 {
        '_'
    } else {
        b64_char(v)
    }
}

/// URL-safe base64 without padding: a last group of one or two bytes gives
/// two or three characters.
pub open spec fn b64_url_encode(b: Seq<u8>) -> Seq<char>
    decreases b.len(),
{
    if b.len() == 0 {
        seq![]
    } else if b.len() == 1 {
        seq![b64_url_char((b[0] as int) / 4), b64_url_char(((b[0] as int) % 4) * 16)]
    } else if b.len() == 2 {
        seq![
            b64_url_char((b[0] as int) / 4),
            b64_url_char(((b[0] as int) % 4) * 16 + (b[1] as int) / 16),
            b64_url_char(((b[1] as int) % 16) * 4),
        ]
    } else {
        seq![
            b64_url_char((b[0] as int) / 4),
            b64_url_char(((b[0] as int) % 4) * 16 + (b[1] as int) / 16),
            b64_url_char(((b[1] as int) % 16) * 4 + (b[2] as int) / 64),
            b64_url_char((b[2] as int) % 64),
        ] + b64_url_encode(b.skip(3))
    }
}

/// What unpadded URL-safe base64 reads a text as (see `b64_decode_spec`).
pub open spec fn b64_url_decode_spec(text: Seq<char>) -> Option<Seq<u8>> {
    if exists|b: Seq<u8>| #[trigger] b64_url_encode(b) == text {
        Some(choose|b: Seq<u8>| #[trigger] b64_url_encode(b) == text)
    } else {
        None
    }
}

pub open spec fn hex_lower(d: int) -> char {
    if d < 10 {
        (('0' as u32) + d) as char
    } else {
        (('a' as u32) + (d - 10)) as char
    }
}

/// How a JSON string writes one character: `"` and `\` behind a backslash,
/// the control characters below U+0020 as `\b`, `\t`, `\n`, `\f`, `\r` or
/// `\u00XX`, everything else as itself.
pub open spec fn json_escape_char(c: char) -> Seq<char> {
    if c == '"' {
        seq!['\\', '"']
    } else if c == '\\' {
        seq!['\\', '\\']
    } else if c == '\u{8}' {
        seq!['\\', 'b']
    } else if c == '\t' {
        seq!['\\', 't']
    } else if c == '\n' {
        seq!['\\', 'n']
    } else if c == '\u{c}' {
        seq!['\\', 'f']
    } else if c == '\r' {
        seq!['\\', 'r']
    } else if (c as u32) < 0x20 {
        seq!['\\', 'u', '0', '0', hex_lower((c as u32) as int / 16), hex_lower((c as u32) as int % 16)]
    } else {
        seq![c]
    }
}

pub open spec fn json_escaped(s: Seq<char>) -> Seq<char>
    decreases s.len(),
{
    if s.len() == 0 {
        seq![]
    } else {
        json_escaped(s.drop_last()) + json_escape_char(s.last())
    }
}

/// `serde_json::to_string` of a string: per serde_json's serializer, the
/// string between double quotes with the escapes of `json_escape_char`.
/// Writing a string into a `String` does not fail.
#[verifier::external_body]
pub(crate) fn json_string(s: &str) -> (r: String)
    ensures
        r@ == seq!['"'] + json_escaped(s@) + seq!['"'],
{
    serde_json::to_string(s).unwrap_or_default()
}

} // verus!

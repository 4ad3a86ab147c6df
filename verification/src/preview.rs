//! What the log shows of chat traffic: one line, secrets taken out, cut to a
//! length.
use vstd::prelude::*;

use vstd::utf8::{decode_utf8, valid_utf8};

use crate::presence::{find_char_spec, find_spec, lemma_find_char_spec, lemma_find_spec};
use crate::text::{
    chars_of, find_char_from, find_from, is_first_char, is_first_match, is_whitespace, is_ws,
    lower_seq, lowercase, matches_at, owned, push_str, slice_vec, string_of,
};

verus! {

// ---------------------------------------------------------------------------
// Control characters
// ---------------------------------------------------------------------------

/// A carriage return, line feed or tab written as its escape; any other
/// character as it is.
pub open spec fn escape_char(c: char) -> Seq<char> {
    if c == '\r' {
        seq!['\\', 'r']
    } else if c == '\n' {
        seq!['\\', 'n']
    } else if c == '\t' {
        seq!['\\', 't']
    } else {
        seq![c]
    }
}

pub open spec fn escape_controls(s: Seq<char>) -> Seq<char>
    decreases s.len(),
{
    if s.len() == 0 {
        seq![]
    } else {
        escape_controls(s.drop_last()) + escape_char(s.last())
    }
}

pub fn escape_control_chars(v: &[char]) -> (r: Vec<char>)
    ensures
        r@ == escape_controls(v@),
{
    let mut r: Vec<char> = Vec::new();
    let mut i: usize = 0;
    while i < v.len()
        invariant
            i <= v@.len(),
            r@ == escape_controls(v@.take(i as int)),
        decreases v@.len() - i,
    {
        let c = v[i];
        let ghost before = r@;
        if c == '\r' {
            r.push('\\');
            r.push('r');
        } else if c == '\n' {
            r.push('\\');
            r.push('n');
        } else if c == '\t' {
            r.push('\\');
            r.push('t');
        } else {
            r.push(c);
        }
        assert(r@ =~= before + escape_char(c));
        assert(v@.take(i + 1).drop_last() =~= v@.take(i as int));
        i += 1;
    }
    assert(v@.take(v@.len() as int) =~= v@);
    r
}

// ---------------------------------------------------------------------------
// Elements whose text is secret
// ---------------------------------------------------------------------------

pub open spec fn redacted() -> Seq<char> {
    seq!['[', 'r', 'e', 'd', 'a', 'c', 't', 'e', 'd', ']']
}

/// `t` with the text of each element that opens with `open` and closes with
/// `close` replaced by `[redacted]`, scanning from the start; an element
/// whose opening tag or closing tag never comes ends the scan (in the second
/// case with `[redacted]` in place of the rest).
pub open spec fn redact_element(t: Seq<char>, open: Seq<char>, close: Seq<char>) -> Seq<char>
    decreases t.len(),
{
    match find_spec(t, open, 0) {
        None => t,
        Some(start) => match find_char_spec(t, '>', start) {
            None => t,
            Some(oe) => {
                let es = oe + 1;
                match find_spec(t, close, es) {
                    Some(cs) => if 0 <= start <= oe < es <= cs && cs + close.len() <= t.len() {
                        t.take(es) + redacted() + close + redact_element(
                            t.skip(cs + close.len()),
                            open,
                            close,
                        )
                    } else {
                        t
                    },
                    None => if 0 <= es <= t.len() {
                        t.take(es) + redacted()
                    } else {
                        t
                    },
                }
            },
        },
    }
}

fn redacted_vec() -> (r: Vec<char>)
    ensures
        r@ == redacted(),
{
    let mut r: Vec<char> = Vec::new();
    r.push('[');
    r.push('r');
    r.push('e');
    r.push('d');
    r.push('a');
    r.push('c');
    r.push('t');
    r.push('e');
    r.push('d');
    r.push(']');
    assert(r@ =~= redacted());
    r
}

fn append_slice(out: &mut Vec<char>, v: &[char])
    ensures
        final(out)@ == old(out)@ + v@,
{
    let mut i: usize = 0;
    let ghost start = out@;
    while i < v.len()
        invariant
            i <= v@.len(),
            out@ == start + v@.take(i as int),
        decreases v@.len() - i,
    {
        out.push(v[i]);
        assert(start + v@.take(i + 1) =~= (start + v@.take(i as int)).push(v@[i as int]));
        i += 1;
    }
    assert(v@.take(v@.len() as int) =~= v@);
}

/// The text of every `<tag ...>...</tag>` element replaced by `[redacted]`
/// (see `redact_element`).
pub fn redact_xml_element(text: &[char], tag: &str) -> (r: Vec<char>)
    ensures
        r@ == redact_element(text@, seq!['<'] + tag@, seq!['<', '/'] + tag@ + seq!['>']),
{
    let t = chars_of(tag);
    let mut open: Vec<char> = Vec::new();
    open.push('<');
    append_slice(&mut open, t.as_slice());
    let mut close: Vec<char> = Vec::new();
    close.push('<');
    close.push('/');
    append_slice(&mut close, t.as_slice());
    close.push('>');
    assert(open@ =~= seq!['<'] + tag@);
    assert(close@ =~= seq!['<', '/'] + tag@ + seq!['>']);
    let mut out: Vec<char> = Vec::new();
    let mut rem: Vec<char> = slice_vec(text, 0, text.len());
    assert(rem@ =~= text@);
    loop
        invariant
            open@ == seq!['<'] + tag@,
            close@ == seq!['<', '/'] + tag@ + seq!['>'],
            out@ + redact_element(rem@, open@, close@) == redact_element(text@, open@, close@),
        decreases rem@.len(),
    {
        let ghost r0 = rem@;
        let rl = rem.len();
        let start = find_from(rem.as_slice(), open.as_slice(), 0);
        proof {
            lemma_find_spec(
                rem@,
                open@,
                0,
                match start {
                    Some(i) => Some(i as int),
                    None => None,
                },
            );
        }
        let start = match start {
            None => {
                append_slice(&mut out, rem.as_slice());
                return out;
            },
            Some(s) => s,
        };
        assert(is_first_match(rem@, open@, 0, start as int));
        let oe = find_char_from(rem.as_slice(), '>', start);
        proof {
            lemma_find_char_spec(
                rem@,
                '>',
                start as int,
                match oe {
                    Some(i) => Some(i as int),
                    None => None,
                },
            );
        }
        let oe = match oe {
            None => {
                append_slice(&mut out, rem.as_slice());
                return out;
            },
            Some(o) => o,
        };
        assert(is_first_char(rem@, '>', start as int, oe as int));
        let es = oe + 1;
        let cs = find_from(rem.as_slice(), close.as_slice(), es);
        proof {
            lemma_find_spec(
                rem@,
                close@,
                es as int,
                match cs {
                    Some(i) => Some(i as int),
                    None => None,
                },
            );
        }
        let head = slice_vec(rem.as_slice(), 0, es);
        assert(head@ =~= rem@.take(es as int));
        append_slice(&mut out, head.as_slice());
        let red = redacted_vec();
        append_slice(&mut out, red.as_slice());
        match cs {
            None => {
                return out;
            },
            Some(cs) => {
                assert(is_first_match(rem@, close@, es as int, cs as int));
                append_slice(&mut out, close.as_slice());
                let len = rem.len();
                let next = slice_vec(rem.as_slice(), cs + close.len(), len);
                assert(next@ =~= r0.skip(cs + close@.len()));
                rem = next;
            },
        }
    }
}

// ---------------------------------------------------------------------------
// Attributes whose value is secret
// ---------------------------------------------------------------------------

/// Whether the `n` characters of `t` at `i` stand as an attribute's name:
/// at the start or after whitespace or `<`, and followed by whitespace or
/// `=`.
pub open spec fn attr_boundary(t: Seq<char>, i: int, n: int) -> bool {
    &&& (i == 0 || (0 < i <= t.len() && (is_ws(t[i - 1]) || t[i - 1] == '<')))
    &&& 0 <= i + n < t.len()
    &&& (is_ws(t[i + n]) || t[i + n] == '=')
}

/// The first place at or after `offset` where `attr` (ASCII case ignored)
/// stands as an attribute's name, searching past each rejected occurrence.
pub open spec fn attr_start_from(t: Seq<char>, attr: Seq<char>, offset: int) -> Option<int>
    decreases t.len() - offset,
{
    match find_spec(lower_seq(t), lower_seq(attr), offset) {
        None => None,
        Some(i) => if attr_boundary(t, i, attr.len() as int) {
            Some(i)
        } else if attr.len() > 0 && offset <= i && i + attr.len() <= t.len() {
            attr_start_from(t, attr, i + attr.len())
        } else {
            None
        },
    }
}

pub fn find_attribute_start(text: &[char], attr: &[char]) -> (r: Option<usize>)
    requires
        attr@.len() > 0,
    ensures
        match r {
            Some(i) => attr_start_from(text@, attr@, 0) == Some(i as int) && i + attr@.len()
                < text@.len(),
            None => attr_start_from(text@, attr@, 0) is None,
        },
{
    let tl = lowercase(text);
    let al = lowercase(attr);
    let mut offset: usize = 0;
    loop
        invariant
            tl@ == lower_seq(text@),
            al@ == lower_seq(attr@),
            attr@.len() > 0,
            offset <= text@.len(),
            attr_start_from(text@, attr@, offset as int) == attr_start_from(text@, attr@, 0),
        decreases text@.len() - offset,
    {
        let found = find_from(tl.as_slice(), al.as_slice(), offset);
        proof {
            lemma_find_spec(
                tl@,
                al@,
                offset as int,
                match found {
                    Some(i) => Some(i as int),
                    None => None,
                },
            );
        }
        let index = match found {
            None => return None,
            Some(i) => i,
        };
        assert(matches_at(tl@, al@, index as int));
        let n = attr.len();
        let before_ok = index == 0 || is_whitespace(text[index - 1]) || text[index - 1] == '<';
        let after_ok = index + n < text.len() && (is_whitespace(text[index + n]) || text[index
            + n] == '=');
        if before_ok && after_ok {
            return Some(index);
        }
        offset = index + n;
    }
}

/// The value of each `attr=` attribute (quoted with `"` or `'`) replaced by
/// `[redacted]`, scanning from the start; an unquoted value is passed over,
/// and a value whose closing quote never comes ends the text.
pub open spec fn redact_attr(t: Seq<char>, attr: Seq<char>) -> Seq<char>
    decreases t.len(),
{
    match attr_start_from(t, attr, 0) {
        None => t,
        Some(start) => match find_char_spec(t, '=', start) {
            None => t,
            Some(eq) => if 0 <= start <= eq && eq + 1 <= t.len() {
                if eq + 1 < t.len() && (t[eq + 1] == '"' || t[eq + 1] == '\'') {
                    let quote = t[eq + 1];
                    let vs = eq + 2;
                    match find_char_spec(t, quote, vs) {
                        Some(ve) => if vs <= ve < t.len() {
                            t.take(vs) + redacted() + seq![quote] + redact_attr(t.skip(ve + 1), attr)
                        } else {
                            t
                        },
                        None => t.take(vs) + redacted(),
                    }
                } else {
                    t.take(eq + 1) + redact_attr(t.skip(eq + 1), attr)
                }
            } else {
                t
            },
        },
    }
}

pub fn redact_attribute(text: &[char], attr: &str) -> (r: Vec<char>)
    requires
        attr@.len() > 0,
    ensures
        r@ == redact_attr(text@, attr@),
{
    let a = chars_of(attr);
    let mut out: Vec<char> = Vec::new();
    let mut rem: Vec<char> = slice_vec(text, 0, text.len());
    assert(rem@ =~= text@);
    loop
        invariant
            a@ == attr@,
            a@.len() > 0,
            out@ + redact_attr(rem@, a@) == redact_attr(text@, a@),
        decreases rem@.len(),
    {
        let ghost r0 = rem@;
        let start = match find_attribute_start(rem.as_slice(), a.as_slice()) {
            None => {
                append_slice(&mut out, rem.as_slice());
                return out;
            },
            Some(s) => s,
        };
        let eq = find_char_from(rem.as_slice(), '=', start);
        proof {
            lemma_find_char_spec(
                rem@,
                '=',
                start as int,
                match eq {
                    Some(i) => Some(i as int),
                    None => None,
                },
            );
        }
        let eq = match eq {
            None => {
                append_slice(&mut out, rem.as_slice());
                return out;
            },
            Some(e) => e,
        };
        assert(is_first_char(rem@, '=', start as int, eq as int));
        let len = rem.len();
        if eq + 1 < len && (rem[eq + 1] == '"' || rem[eq + 1] == '\'') {
            let quote = rem[eq + 1];
            let vs = eq + 2;
            let ve = find_char_from(rem.as_slice(), quote, vs);
            proof {
                lemma_find_char_spec(
                    rem@,
                    quote,
                    vs as int,
                    match ve {
                        Some(i) => Some(i as int),
                        None => None,
                    },
                );
            }
            let head = slice_vec(rem.as_slice(), 0, vs);
            assert(head@ =~= rem@.take(vs as int));
            append_slice(&mut out, head.as_slice());
            let red = redacted_vec();
            append_slice(&mut out, red.as_slice());
            match ve {
                None => {
                    return out;
                },
                Some(ve) => {
                    assert(is_first_char(rem@, quote, vs as int, ve as int));
                    out.push(quote);
                    let next = slice_vec(rem.as_slice(), ve + 1, len);
                    assert(next@ =~= r0.skip(ve + 1));
                    rem = next;
                },
            }
        } else {
            let head = slice_vec(rem.as_slice(), 0, eq + 1);
            assert(head@ =~= rem@.take(eq + 1));
            append_slice(&mut out, head.as_slice());
            let next = slice_vec(rem.as_slice(), eq + 1, len);
            assert(next@ =~= r0.skip(eq + 1));
            rem = next;
        }
    }
}

// ---------------------------------------------------------------------------
// The preview
// ---------------------------------------------------------------------------

/// The most characters of a read that the log shows.
pub const STREAM_EVENT_PREVIEW_CHARS: usize = 1400;

pub open spec fn open_tag(tag: Seq<char>) -> Seq<char> {
    seq!['<'] + tag
}

pub open spec fn close_tag(tag: Seq<char>) -> Seq<char> {
    seq!['<', '/'] + tag + seq!['>']
}

pub open spec fn redact_tag(t: Seq<char>, tag: Seq<char>) -> Seq<char> {
    redact_element(t, open_tag(tag), close_tag(tag))
}

/// A read as the log shows it: control characters escaped, then the text of
/// `auth`, `password` and `token` elements and the values of `password`,
/// `token` and `access_token` attributes redacted.
pub open spec fn sanitize(t: Seq<char>) -> Seq<char> {
    let s = escape_controls(t);
    let s = redact_tag(s, "auth"@);
    let s = redact_tag(s, "password"@);
    let s = redact_tag(s, "token"@);
    let s = redact_attr(s, "password"@);
    let s = redact_attr(s, "token"@);
    redact_attr(s, "access_token"@)
}

pub fn sanitize_stream_text(text: &str) -> (r: String)
    ensures
        r@ == sanitize(text@),
{
    proof {
        reveal_strlit("password");
        reveal_strlit("token");
        reveal_strlit("access_token");
    }
    let t = chars_of(text);
    let s = escape_control_chars(t.as_slice());
    let s = redact_xml_element(s.as_slice(), "auth");
    let s = redact_xml_element(s.as_slice(), "password");
    let s = redact_xml_element(s.as_slice(), "token");
    let s = redact_attribute(s.as_slice(), "password");
    let s = redact_attribute(s.as_slice(), "token");
    let s = redact_attribute(s.as_slice(), "access_token");
    string_of(s.as_slice())
}

/// What `String::from_utf8_lossy` reads from some bytes.
pub uninterp spec fn utf8_lossy(bytes: Seq<u8>) -> Seq<char>;

/// `String::from_utf8_lossy`. Its result is named; per its documentation it
/// is the text the bytes encode where they are valid UTF-8 (elsewhere each
/// invalid sequence becomes U+FFFD, which is not stated here).
#[verifier::external_body]
fn utf8_lossy_text(bytes: &[u8]) -> (r: String)
    ensures
        r@ == utf8_lossy(bytes@),
        valid_utf8(bytes@) ==> r@ == decode_utf8(bytes@),
{
    String::from_utf8_lossy(bytes).into_owned()
}

/// The log's preview of read text: at most `STREAM_EVENT_PREVIEW_CHARS`
/// characters of it, with a note where more were cut.
pub open spec fn preview_of(sanitized: Seq<char>) -> Seq<char> {
    if sanitized.len() > STREAM_EVENT_PREVIEW_CHARS {
        sanitized.take(STREAM_EVENT_PREVIEW_CHARS as int) + " ... [truncated]"@
    } else {
        sanitized
    }
}

/// The preview of a read's text (see `preview_of`).
pub fn text_preview(text: &str) -> (r: String)
    ensures
        r@ == preview_of(sanitize(text@)),
{
    let sanitized = sanitize_stream_text(text);
    let s = chars_of(sanitized.as_str());
    if s.len() > STREAM_EVENT_PREVIEW_CHARS {
        let head = slice_vec(s.as_slice(), 0, STREAM_EVENT_PREVIEW_CHARS);
        let mut r = string_of(head.as_slice());
        push_str(&mut r, " ... [truncated]");
        r
    } else {
        sanitized
    }
}

/// The preview of a read (see `preview_of`), its bytes read as UTF-8 with
/// `String::from_utf8_lossy`; `(empty)` for no bytes.
pub fn stream_preview(bytes: &[u8]) -> (r: String)
    ensures
        bytes@.len() == 0 ==> r@ == "(empty)"@,
        bytes@.len() > 0 ==> r@ == preview_of(sanitize(utf8_lossy(bytes@))),
{
    if bytes.len() == 0 {
        return owned("(empty)");
    }
    let text = utf8_lossy_text(bytes);
    text_preview(text.as_str())
}

} // verus!

//! The host name a TLS ClientHello asks for (its `server_name` extension),
//! read from the first bytes of a connection for the log.
use vstd::prelude::*;

use vstd::utf8::{decode_utf8, valid_utf8};

use crate::text::{decimal, decimal_string, owned, push_str, utf8_str};

verus! {

/// The big-endian 16-bit number at `p`.
pub open spec fn be16(b: Seq<u8>, p: int) -> int {
    b[p] * 256 + b[p + 1]
}

fn read_be16(b: &[u8], p: usize) -> (r: usize)
    requires
        p + 1 < b@.len(),
    ensures
        r == be16(b@, p as int),
        r <= 65535,
{
    (b[p] as usize) * 256 + (b[p + 1] as usize)
}

/// The names of a `server_name` extension, from `pos` up to `end`: the first
/// of type 0 (a host name), as bytes; none where an entry runs past `end`.
pub open spec fn names_scan(e: Seq<u8>, pos: int, end: int) -> Option<Seq<u8>>
    decreases end - pos,
{
    if 0 <= pos && pos + 3 <= end && end <= e.len() {
        let n = be16(e, pos + 1);
        let p = pos + 3;
        if p + n > end {
            None
        } else if e[pos] == 0 {
            Some(e.subrange(p, p + n))
        } else {
            names_scan(e, p + n, end)
        }
    } else {
        None
    }
}

/// The host name in the body of a `server_name` extension.
pub open spec fn sni_extension(e: Seq<u8>) -> Option<Seq<u8>> {
    if e.len() < 5 {
        None
    } else {
        let end = if 2 + be16(e, 0) < e.len() {
            2 + be16(e, 0)
        } else {
            e.len() as int
        };
        names_scan(e, 2, end)
    }
}

/// The extensions from `pos` up to `end`: the body of the first of type 0,
/// read as a `server_name` extension; none where an extension runs past
/// `end`.
pub open spec fn extensions_scan(b: Seq<u8>, pos: int, end: int) -> Option<Seq<u8>>
    decreases end - pos,
{
    if 0 <= pos && pos + 4 <= end && end <= b.len() {
        let t = be16(b, pos);
        let l = be16(b, pos + 2);
        let p = pos + 4;
        if p + l > end {
            None
        } else if t == 0 {
            sni_extension(b.subrange(p, p + l))
        } else {
            extensions_scan(b, p + l, end)
        }
    } else {
        None
    }
}

/// The host name bytes of a TLS record that holds a ClientHello: past the
/// record header, the handshake header, the version and random, the
/// session id, the cipher suites and the compression methods, to the
/// extensions (their end capped at the end of the bytes).
pub open spec fn client_hello_sni(b: Seq<u8>) -> Option<Seq<u8>> {
    if b.len() < 5 || b[0] != 0x16 {
        None
    } else if b.len() < 9 || b[5] != 0x01 {
        None
    } else if b.len() < 44 {
        None
    } else {
        let p1 = 44 + b[43];
        if b.len() < p1 + 2 {
            None
        } else {
            let p2 = p1 + 2 + be16(b, p1);
            if b.len() < p2 + 1 {
                None
            } else {
                let p3 = p2 + 1 + b[p2];
                if b.len() < p3 + 2 {
                    None
                } else {
                    let p4 = p3 + 2;
                    let end = if p4 + be16(b, p3) < b.len() {
                        p4 + be16(b, p3)
                    } else {
                        b.len() as int
                    };
                    extensions_scan(b, p4, end)
                }
            }
        }
    }
}

fn names_scan_exec(e: &[u8], pos: usize, end: usize) -> (r: Option<(usize, usize)>)
    requires
        pos <= end <= e@.len(),
    ensures
        match r {
            Some((a, z)) => a <= z <= e@.len() && names_scan(e@, pos as int, end as int) == Some(
                e@.subrange(a as int, z as int),
            ),
            None => names_scan(e@, pos as int, end as int) is None,
        },
    decreases end - pos,
{
    if end - pos < 3 {
        return None;
    }
    let n = read_be16(e, pos + 1);
    let p = pos + 3;
    if n > end - p {
        return None;
    }
    if e[pos] == 0 {
        Some((p, p + n))
    } else {
        names_scan_exec(e, p + n, end)
    }
}

fn extensions_scan_exec(b: &[u8], pos: usize, end: usize) -> (r: Option<(usize, usize)>)
    requires
        pos <= end <= b@.len(),
    ensures
        match r {
            Some((a, z)) => a <= z <= b@.len() && extensions_scan(b@, pos as int, end as int)
                == sni_extension(b@.subrange(a as int, z as int)),
            None => extensions_scan(b@, pos as int, end as int) is None,
        },
    decreases end - pos,
{
    if end - pos < 4 {
        return None;
    }
    let t = read_be16(b, pos);
    let l = read_be16(b, pos + 2);
    let p = pos + 4;
    if l > end - p {
        return None;
    }
    if t == 0 {
        Some((p, p + l))
    } else {
        extensions_scan_exec(b, p + l, end)
    }
}

fn slice_bytes(b: &[u8], from: usize, to: usize) -> (r: Vec<u8>)
    requires
        from <= to <= b@.len(),
    ensures
        r@ == b@.subrange(from as int, to as int),
{
    let mut r: Vec<u8> = Vec::new();
    let mut i: usize = from;
    while i < to
        invariant
            from <= i <= to,
            to <= b@.len(),
            r@ == b@.subrange(from as int, i as int),
        decreases to - i,
    {
        r.push(b[i]);
        assert(b@.subrange(from as int, i + 1) =~= b@.subrange(from as int, i as int).push(
            b@[i as int],
        ));
        i += 1;
    }
    r
}

/// The host name bytes of a `server_name` extension body.
fn sni_extension_bytes(e: &[u8]) -> (r: Option<Vec<u8>>)
    ensures
        match r {
            Some(v) => sni_extension(e@) == Some(v@),
            None => sni_extension(e@) is None,
        },
{
    if e.len() < 5 {
        return None;
    }
    let list_len = read_be16(e, 0);
    let end = if list_len < e.len() - 2 {
        2 + list_len
    } else {
        e.len()
    };
    match names_scan_exec(e, 2, end) {
        Some((a, z)) => Some(slice_bytes(e, a, z)),
        None => None,
    }
}

/// The host name bytes a ClientHello asks for (see `client_hello_sni`).
pub fn client_hello_sni_bytes(bytes: &[u8]) -> (r: Option<Vec<u8>>)
    ensures
        match r {
            Some(v) => client_hello_sni(bytes@) == Some(v@),
            None => client_hello_sni(bytes@) is None,
        },
{
    let len = bytes.len();
    if len < 5 || bytes[0] != 0x16 {
        return None;
    }
    if len < 9 || bytes[5] != 0x01 {
        return None;
    }
    if len < 44 {
        return None;
    }
    let p1 = 44 + bytes[43] as usize;
    if len < p1 + 2 {
        return None;
    }
    let p2 = p1 + 2 + read_be16(bytes, p1);
    if len < p2 + 1 {
        return None;
    }
    let p3 = p2 + 1 + bytes[p2] as usize;
    if len < p3 + 2 {
        return None;
    }
    let ext_len = read_be16(bytes, p3);
    let p4 = p3 + 2;
    let end = if ext_len < len - p4 {
        p4 + ext_len
    } else {
        len
    };
    match extensions_scan_exec(bytes, p4, end) {
        Some((a, z)) => {
            let body = slice_bytes(bytes, a, z);
            sni_extension_bytes(body.as_slice())
        },
        None => None,
    }
}

/// The host name a ClientHello asks for, where its bytes are UTF-8.
pub fn parse_tls_sni(bytes: &[u8]) -> (r: Option<String>)
    ensures
        match r {
            Some(s) => client_hello_sni(bytes@) matches Some(n) && valid_utf8(n) && s@ == decode_utf8(n),
            None => client_hello_sni(bytes@) matches Some(n) ==> !valid_utf8(n),
        },
        r is Some ==> bytes@.len() >= 9 && bytes@[0] == 0x16 && bytes@[5] == 0x01,
{
    match client_hello_sni_bytes(bytes) {
        Some(name) => match utf8_str(name.as_slice()) {
            Some(s) => Some(owned(s)),
            None => None,
        },
        None => None,
    }
}

/// The two lowercase hexadecimal digits of a byte.
pub open spec fn hex2(b: u8) -> Seq<char> {
    seq![hex_digit(b / 16), hex_digit(b % 16)]
}

pub open spec fn hex_digit(d: u8) -> char {
    if d < 10 {
        (('0' as u8) + d) as char
    } else {
        (('a' as u8) + d - 10) as char
    }
}

fn hex_digit_exec(d: u8) -> (c: char)
    requires
        d < 16,
    ensures
        c == hex_digit(d),
{
    if d < 10 {
        ((48u8 + d) as char)
    } else {
        ((87u8 + d) as char)
    }
}

/// The log line for the first bytes of an incoming connection: the first
/// byte in hex, how many bytes there were, and the host name asked for
/// (`unknown` where none can be read).
pub open spec fn client_hello_line(b: Seq<u8>) -> Seq<char> {
    "Incoming client hello: first=0x"@ + hex2(b[0]) + ", bytes="@ + decimal(b.len()) + ", sni="@
        + match client_hello_sni(b) {
        Some(n) => if valid_utf8(n) {
            decode_utf8(n)
        } else {
            "unknown"@
        },
        None => "unknown"@,
    }
}

pub fn client_hello_message(bytes: &[u8]) -> (r: String)
    requires
        bytes@.len() > 0,
    ensures
        r@ == client_hello_line(bytes@),
{
    let first = bytes[0];
    let mut r = owned("Incoming client hello: first=0x");
    let mut h = String::new();
    crate::external::push_char(&mut h, hex_digit_exec(first / 16));
    crate::external::push_char(&mut h, hex_digit_exec(first % 16));
    assert(h@ =~= hex2(first));
    push_str(&mut r, h.as_str());
    push_str(&mut r, ", bytes=");
    let n = decimal_string(bytes.len() as u64);
    push_str(&mut r, n.as_str());
    push_str(&mut r, ", sni=");
    match parse_tls_sni(bytes) {
        Some(s) => push_str(&mut r, s.as_str()),
        None => push_str(&mut r, "unknown"),
    }
    r
}

} // verus!

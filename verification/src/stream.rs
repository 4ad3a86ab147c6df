//! Chat traffic as it passes the proxy: bytes cut inside a character, the
//! presence the server sends while the client starts, and the presence the
//! client sends.
use vstd::prelude::*;

use vstd::utf8::{decode_utf8, valid_utf8};

use vstd::utf8::encode_utf8;

use crate::external::now_millis;
use crate::jid::{jid_domains, jid_domains_spec};
use crate::presence::{
    find_char_spec, find_spec, insert_helper_friend, insert_helper_friend_spec, lemma_find_char_spec,
    lemma_find_spec, opt_chars, roster_item_count, ROSTER_NAMESPACE,
};
use crate::text::{
    chars_of, concat3, count_matches, count_str, decimal, decimal_string, ends_with, find,
    contains, contains_char, has_char, is_first_char, is_last_match, matches_at, owned, push_str,
    rfind_seq, str_contains, find_char_from, partial_marker_tail, partial_marker_tail_len,
    seq_ends_with, slice_vec, string_bytes, string_of, trim_end, trim_end_len, utf8_str,
};

verus! {

// ---------------------------------------------------------------------------
// Reads cut inside a character
// ---------------------------------------------------------------------------

/// Whether some bytes end with a character cut off by the end of the input:
/// one to three more bytes would make them valid UTF-8.
pub open spec fn utf8_cut_short(bytes: Seq<u8>) -> bool {
    exists|more: Seq<u8>| 1 <= more.len() <= 3 && valid_utf8(#[trigger] (bytes + more))
}

/// How some bytes read as UTF-8.
pub enum Utf8Check {
    Valid,
    /// Valid up to the given index; the rest is a character cut off by the end.
    Incomplete(usize),
    Invalid,
}

/// `std::str::from_utf8` and, on failure, its `Utf8Error`. Per the
/// documentation: it succeeds exactly on valid UTF-8; `valid_up_to` is the
/// longest valid prefix; `error_len` is `None` when the end of the input came
/// inside a character (one to three more bytes would complete it; see
/// `utf8_cut_short`), and then `valid_up_to` is 1 to 3 bytes from the end.
#[verifier::external_body]
fn check_utf8(bytes: &[u8]) -> (r: Utf8Check)
    ensures
        (r is Valid) == valid_utf8(bytes@),
        (r is Incomplete) == (!valid_utf8(bytes@) && utf8_cut_short(bytes@)),
        r matches Utf8Check::Incomplete(v) ==> v < bytes@.len() && bytes@.len() - v <= 3 && valid_utf8(
            bytes@.take(v as int),
        ) && forall|w: int| v < w <= bytes@.len() ==> !valid_utf8(#[trigger] bytes@.take(w)),
{
    match std::str::from_utf8(bytes) {
        Ok(_) => Utf8Check::Valid,
        Err(error) if error.error_len().is_none() => Utf8Check::Incomplete(error.valid_up_to()),
        Err(_) => Utf8Check::Invalid,
    }
}

/// A piece of a stream read as text.
#[derive(Debug)]
pub enum Utf8Chunk {
    /// Text, and the bytes it was read from.
    Text { content: String, bytes: Vec<u8> },
    /// Bytes that are not UTF-8.
    Binary(Vec<u8>),
    /// Nothing yet: only the start of a character.
    Pending,
}

pub enum ChunkView {
    Text(Seq<char>, Seq<u8>),
    Binary(Seq<u8>),
    Pending,
}

pub open spec fn chunk_view(c: Utf8Chunk) -> ChunkView {
    match c {
        Utf8Chunk::Text { content, bytes } => ChunkView::Text(content@, bytes@),
        Utf8Chunk::Binary(b) => ChunkView::Binary(b@),
        Utf8Chunk::Pending => ChunkView::Pending,
    }
}

/// One read through the buffer: what it hands on and the bytes it keeps.
/// Valid text is handed on whole; text that ends inside a character is
/// handed on up to that character, which is kept for the next read; bytes
/// that are not UTF-8 are handed on as they are.
pub open spec fn utf8_push_spec(pending: Seq<u8>, input: Seq<u8>) -> (ChunkView, Seq<u8>) {
    let combined = pending + input;
    if valid_utf8(combined) {
        (ChunkView::Text(decode_utf8(combined), combined), seq![])
    } else if utf8_cut_short(combined) {
        let v = choose|v: int|
            0 <= v < combined.len() && valid_utf8(combined.take(v)) && forall|w: int|
                v < w <= combined.len() ==> !valid_utf8(#[trigger] combined.take(w));
        if v == 0 {
            (ChunkView::Pending, combined)
        } else {
            (ChunkView::Text(decode_utf8(combined.take(v)), combined.take(v)), combined.skip(v))
        }
    } else {
        (ChunkView::Binary(combined), seq![])
    }
}

/// Holds the bytes of a character cut off at the end of a read.
#[derive(Debug)]
pub struct Utf8StreamBuffer {
    pub pending: Vec<u8>,
}

pub open spec fn handed_on(c: ChunkView) -> Seq<u8> {
    match c {
        ChunkView::Text(_, b) => b,
        ChunkView::Binary(b) => b,
        ChunkView::Pending => seq![],
    }
}

proof fn lemma_longest_valid_prefix(b: Seq<u8>, v: int, u: int)
    requires
        0 <= v < b.len(),
        valid_utf8(b.take(v)),
        forall|w: int| v < w <= b.len() ==> !valid_utf8(#[trigger] b.take(w)),
        0 <= u < b.len(),
        valid_utf8(b.take(u)),
        forall|w: int| u < w <= b.len() ==> !valid_utf8(#[trigger] b.take(w)),
    ensures
        u == v,
{
    if u < v {
        assert(!valid_utf8(b.take(v)));
    }
    if v < u {
        assert(!valid_utf8(b.take(u)));
    }
}

proof fn lemma_valid_prefix_search(b: Seq<u8>, k: int)
    requires
        0 <= k <= b.len(),
        !valid_utf8(b),
        forall|w: int| k < w <= b.len() ==> !valid_utf8(#[trigger] b.take(w)),
    ensures
        exists|v: int|
            0 <= v < b.len() && valid_utf8(b.take(v)) && forall|w: int|
                v < w <= b.len() ==> !valid_utf8(#[trigger] b.take(w)),
    decreases k,
{
    if k == b.len() {
        assert(b.take(k) =~= b);
    }
    if valid_utf8(b.take(k)) {
        assert(k < b.len()) by {
            if k == b.len() {
                assert(b.take(k) =~= b);
            }
        }
    } else {
        assert(k > 0) by {
            if k == 0 {
                assert(b.take(0).len() == 0);
            }
        }
        lemma_valid_prefix_search(b, k - 1);
    }
}

/// A read's bytes, handed on then kept, are the kept bytes before it, then
/// the read.
pub proof fn lemma_utf8_push_keeps_bytes(pending: Seq<u8>, input: Seq<u8>)
    ensures
        handed_on(utf8_push_spec(pending, input).0) + utf8_push_spec(pending, input).1 == pending + input,
{
    let combined = pending + input;
    if valid_utf8(combined) {
        assert(combined + Seq::<u8>::empty() =~= combined);
    } else if utf8_cut_short(combined) {
        lemma_valid_prefix_search(combined, combined.len() as int);
        let v = choose|v: int|
            0 <= v < combined.len() && valid_utf8(combined.take(v)) && forall|w: int|
                v < w <= combined.len() ==> !valid_utf8(#[trigger] combined.take(w));
        if v == 0 {
            assert(Seq::<u8>::empty() + combined =~= combined);
        } else {
            assert(combined.take(v) + combined.skip(v) =~= combined);
        }
    } else {
        assert(combined + Seq::<u8>::empty() =~= combined);
    }
}

/// The reads one after another.
pub open spec fn joined_reads(reads: Seq<Seq<u8>>) -> Seq<u8>
    decreases reads.len(),
{
    if reads.len() == 0 {
        seq![]
    } else {
        joined_reads(reads.drop_last()) + reads.last()
    }
}

/// A run of reads through the buffer (see `Utf8StreamBuffer::push`), from
/// the kept bytes `pending`: every byte handed on, in order, and what is kept
/// at the end.
pub open spec fn utf8_run(pending: Seq<u8>, reads: Seq<Seq<u8>>) -> (Seq<u8>, Seq<u8>)
    decreases reads.len(),
{
    if reads.len() == 0 {
        (seq![], pending)
    } else {
        let before = utf8_run(pending, reads.drop_last());
        let step = utf8_push_spec(before.1, reads.last());
        (before.0 + handed_on(step.0), step.1)
    }
}

/// Reads pushed one after another into the buffer, then a flush, give back
/// exactly the bytes read, in their order: nothing is lost, added or
/// reordered.
pub proof fn lemma_utf8_run_loses_nothing(pending: Seq<u8>, reads: Seq<Seq<u8>>)
    ensures
        utf8_run(pending, reads).0 + utf8_run(pending, reads).1 == pending + joined_reads(reads),
    decreases reads.len(),
{
    if reads.len() == 0 {
        assert(Seq::<u8>::empty() + pending =~= pending + Seq::<u8>::empty());
    } else {
        let rest = reads.drop_last();
        lemma_utf8_run_loses_nothing(pending, rest);
        let before = utf8_run(pending, rest);
        lemma_utf8_push_keeps_bytes(before.1, reads.last());
        let step = utf8_push_spec(before.1, reads.last());
        assert(before.0 + handed_on(step.0) + step.1 =~= before.0 + (handed_on(step.0) + step.1));
        assert(before.0 + (before.1 + reads.last()) =~= (before.0 + before.1) + reads.last());
        assert(pending + joined_reads(rest) + reads.last() =~= pending + (joined_reads(rest) + reads.last()));
    }
}

impl Utf8StreamBuffer {
    pub fn new() -> (r: Self)
        ensures
            r.pending@.len() == 0,
    {
        Utf8StreamBuffer { pending: Vec::new() }
    }

    /// Takes the bytes of one read (see `utf8_push_spec`). No byte is lost
    /// or reordered: what is handed on, then what is kept, is what was kept
    /// before, then the read.
    pub fn push(&mut self, bytes: Vec<u8>) -> (r: Utf8Chunk)
        ensures
            (chunk_view(r), final(self).pending@) == utf8_push_spec(old(self).pending@, bytes@),
            handed_on(chunk_view(r)) + final(self).pending@ == old(self).pending@ + bytes@,
            final(self).pending@.len() <= 3,
            r matches Utf8Chunk::Text { content, bytes } ==> valid_utf8(bytes@) && encode_utf8(content@)
                == bytes@,
    {
        broadcast use vstd::utf8::decode_utf8_encode_utf8;

        let mut combined: Vec<u8> = Vec::new();
        std::mem::swap(&mut combined, &mut self.pending);
        let ghost before = combined@;
        let mut i: usize = 0;
        while i < bytes.len()
            invariant
                i <= bytes@.len(),
                combined@ == before + bytes@.take(i as int),
                self.pending@.len() == 0,
            decreases bytes@.len() - i,
        {
            combined.push(bytes[i]);
            assert(before + bytes@.take(i + 1) =~= (before + bytes@.take(i as int)).push(bytes@[i as int]));
            i += 1;
        }
        assert(bytes@.take(bytes@.len() as int) =~= bytes@);
        match check_utf8(combined.as_slice()) {
            Utf8Check::Valid => {
                let content = match utf8_str(combined.as_slice()) {
                    Some(s) => s.to_owned(),
                    None => String::new(),
                };
                assert(combined@ + Seq::<u8>::empty() =~= combined@);
                Utf8Chunk::Text { content, bytes: combined }
            },
            Utf8Check::Incomplete(v) => {
                proof {
                    let w = choose|w: int|
                        0 <= w < combined@.len() && valid_utf8(combined@.take(w)) && forall|x: int|
                            w < x <= combined@.len() ==> !valid_utf8(#[trigger] combined@.take(x));
                    lemma_longest_valid_prefix(combined@, v as int, w);
                }
                let suffix = combined.split_off(v);
                self.pending = suffix;
                if combined.len() == 0 {
                    Utf8Chunk::Pending
                } else {
                    let content = match utf8_str(combined.as_slice()) {
                        Some(s) => s.to_owned(),
                        None => String::new(),
                    };
                    Utf8Chunk::Text { content, bytes: combined }
                }
            },
            Utf8Check::Invalid => {
                assert(combined@ + Seq::<u8>::empty() =~= combined@);
                Utf8Chunk::Binary(combined)
            },
        }
    }

    /// The kept bytes, handed on when the stream closes.
    pub fn flush(&mut self) -> (r: Vec<u8>)
        ensures
            r@ == old(self).pending@,
            final(self).pending@.len() == 0,
    {
        let mut out: Vec<u8> = Vec::new();
        std::mem::swap(&mut out, &mut self.pending);
        out
    }

    pub fn has_pending(&self) -> (r: bool)
        ensures
            r == (self.pending@.len() > 0),
    {
        self.pending.len() > 0
    }
}

// ---------------------------------------------------------------------------
// Presence the server sends while the client starts
// ---------------------------------------------------------------------------

pub const PRESENCE_OPEN: &'static str = "<presence";

pub const PRESENCE_CLOSE: &'static str = "</presence>";

/// The most bytes of presence kept for a replay.
pub const MAX_REPLAY_BYTES: usize = 768 * 1024;

/// How long no presence must have come before a replay.
pub const REPLAY_IDLE_MS: i64 = 350;

/// How long the first kept presence must have waited before a replay.
pub const REPLAY_MIN_AGE_MS: i64 = 1200;

/// Where the presence stanza at the start of `c` ends: just after its
/// opening tag where that tag closes itself (`/>`, whitespace before the `>`
/// aside), else just after the first `</presence>`.
pub open spec fn stanza_end(c: Seq<char>) -> Option<int> {
    match find_char_spec(c, '>', 0) {
        None => None,
        Some(o) => if ends_with(trim_end(c.take(o + 1)), seq!['/', '>']) {
            Some(o + 1)
        } else {
            match find_spec(c, PRESENCE_CLOSE@, 0) {
                Some(e) => Some(e + PRESENCE_CLOSE@.len()),
                None => None,
            }
        },
    }
}

pub fn presence_stanza_end(content: &[char]) -> (r: Option<usize>)
    ensures
        match r {
            Some(i) => stanza_end(content@) == Some(i as int) && 0 < i <= content@.len(),
            None => stanza_end(content@) is None,
        },
{
    let n = content.len();
    let o = find_char_from(content, '>', 0);
    proof {
        lemma_find_char_spec(
            content@,
            '>',
            0,
            match o {
                Some(i) => Some(i as int),
                None => None,
            },
        );
    }
    match o {
        None => {
            assert(find_char_spec(content@, '>', 0) is None);
            None
        },
        Some(o) => {
            assert(is_first_char(content@, '>', 0, o as int));
            let opening = slice_vec(content, 0, o + 1);
            assert(opening@ =~= content@.take(o + 1));
            let t = trim_end_len(opening.as_slice());
            let trimmed = slice_vec(opening.as_slice(), 0, t);
            assert(trimmed@ =~= opening@.take(t as int));
            let mut self_close: Vec<char> = Vec::new();
            self_close.push('/');
            self_close.push('>');
            assert(self_close@ =~= seq!['/', '>']);
            if seq_ends_with(trimmed.as_slice(), self_close.as_slice()) {
                return Some(o + 1);
            }
            let close = chars_of(PRESENCE_CLOSE);
            proof {
                reveal_strlit("</presence>");
            }
            assert(close@.len() == 11);
            let e = find(content, close.as_slice());
            proof {
                lemma_find_spec(
                    content@,
                    close@,
                    0,
                    match e {
                        Some(i) => Some(i as int),
                        None => None,
                    },
                );
            }
            match e {
                Some(e) => {
                    assert(matches_at(content@, close@, e as int));
                    Some(e + close.len())
                },
                None => None,
            }
        },
    }
}

/// What stays of text with no presence stanza in it: only an end that could
/// begin one.
pub open spec fn kept_tail(pending: Seq<char>) -> Seq<char> {
    pending.skip(pending.len() - partial_marker_tail(pending, PRESENCE_OPEN@))
}

/// Moves the whole presence stanzas at the front of `pending`, one by one,
/// into `replay` as bytes; anything before a stanza is dropped. Gives what
/// stays pending, the replay, `added` plus the number of stanzas moved, and
/// whether a stanza found no room within `MAX_REPLAY_BYTES` (which ends the
/// replay; that stanza is dropped).
pub open spec fn replay_scan(pending: Seq<char>, replay: Seq<u8>, added: nat) -> (
    Seq<char>,
    Seq<u8>,
    nat,
    bool,
)
    decreases pending.len(),
{
    match find_spec(pending, PRESENCE_OPEN@, 0) {
        None => (kept_tail(pending), replay, added, false),
        Some(start) => {
            let p = pending.skip(start);
            match stanza_end(p) {
                None => (p, replay, added, false),
                Some(end) => if 0 <= start <= pending.len() && 0 < end <= p.len() {
                    let bytes = encode_utf8(p.take(end));
                    if replay.len() + bytes.len() > MAX_REPLAY_BYTES {
                        (p.skip(end), replay, added, true)
                    } else {
                        replay_scan(p.skip(end), replay + bytes, added + 1)
                    }
                } else {
                    (p, replay, added, false)
                },
            }
        },
    }
}

pub proof fn lemma_encode_utf8_len(s: Seq<char>)
    ensures
        encode_utf8(s).len() >= s.len(),
    decreases s.len(),
{
    if s.len() > 0 {
        lemma_encode_utf8_len(s.drop_first());
    }
}

/// The presence stanzas the server sends while the client starts, kept to be
/// sent again once the client is ready for them.
pub struct StartupPresenceReplay {
    pub pending: Vec<char>,
    pub replay: Vec<u8>,
    pub stanzas: usize,
    pub replayed_stanzas: usize,
    /// When the first and the last kept stanza came, in milliseconds.
    pub first_seen: Option<i64>,
    pub last_seen: Option<i64>,
    pub replayed: bool,
}

impl StartupPresenceReplay {
    pub open spec fn wf(&self) -> bool {
        &&& self.replay@.len() <= MAX_REPLAY_BYTES
        &&& (self.replayed || self.stanzas <= self.replay@.len())
    }

    pub fn new() -> (r: Self)
        ensures
            r.wf(),
            r.pending@.len() == 0,
            r.replay@.len() == 0,
            r.stanzas == 0,
            r.replayed_stanzas == 0,
            r.first_seen.is_none(),
            r.last_seen.is_none(),
            !r.replayed,
    {
        StartupPresenceReplay {
            pending: Vec::new(),
            replay: Vec::new(),
            stanzas: 0,
            replayed_stanzas: 0,
            first_seen: None,
            last_seen: None,
            replayed: false,
        }
    }

    /// Adds a read from the server (see `replay_scan`) and gives the number
    /// of stanzas it completed. Once replayed it keeps nothing more. The times
    /// of the first and last kept stanza are taken from the clock.
    pub fn push(&mut self, content: &str) -> (added: usize)
        requires
            old(self).wf(),
        ensures
            final(self).wf(),
            final(self).replayed_stanzas == old(self).replayed_stanzas,
            old(self).replayed ==> {
                &&& added == 0
                &&& final(self).pending@ == old(self).pending@
                &&& final(self).replay@ == old(self).replay@
                &&& final(self).stanzas == old(self).stanzas
                &&& final(self).replayed
                &&& final(self).first_seen == old(self).first_seen
                &&& final(self).last_seen == old(self).last_seen
            },
            !old(self).replayed ==> {
                let (p, r, n, over) = replay_scan(old(self).pending@ + content@, old(self).replay@, 0);
                &&& final(self).pending@ == p
                &&& final(self).replay@ == r
                &&& added == n
                &&& final(self).stanzas == old(self).stanzas + n
                &&& final(self).replayed == over
                &&& (n == 0 ==> final(self).first_seen == old(self).first_seen
                    && final(self).last_seen == old(self).last_seen)
                &&& (n > 0 ==> final(self).last_seen is Some && final(self).first_seen is Some)
                &&& (old(self).first_seen is Some ==> final(self).first_seen == old(self).first_seen)
            },
    {
        if self.replayed {
            return 0;
        }
        let ghost p0 = self.pending@ + content@;
        let ghost r0 = self.replay@;
        let ghost s0 = self.stanzas;
        let ghost f0 = self.first_seen;
        let ghost l0 = self.last_seen;
        let mut pending: Vec<char> = Vec::new();
        std::mem::swap(&mut pending, &mut self.pending);
        let mut extra = chars_of(content);
        pending.append(&mut extra);
        let marker = chars_of(PRESENCE_OPEN);
        let mut added: usize = 0;
        let mut over = false;
        loop
            invariant_except_break
                replay_scan(pending@, self.replay@, added as nat) == replay_scan(p0, r0, 0),
                !over,
            invariant
                marker@ == PRESENCE_OPEN@,
                self.replay@.len() <= MAX_REPLAY_BYTES,
                self.stanzas == s0 + added,
                self.stanzas <= self.replay@.len(),
                !self.replayed,
                self.replayed_stanzas == old(self).replayed_stanzas,
                added == 0 ==> self.first_seen == f0 && self.last_seen == l0,
                added > 0 ==> self.first_seen is Some && self.last_seen is Some,
                f0 is Some ==> self.first_seen == f0,
            ensures
                (pending@, self.replay@, added as nat, over) == replay_scan(p0, r0, 0),
                self.replay@.len() <= MAX_REPLAY_BYTES,
                self.stanzas == s0 + added,
                self.stanzas <= self.replay@.len(),
                !self.replayed,
                self.replayed_stanzas == old(self).replayed_stanzas,
                added == 0 ==> self.first_seen == f0 && self.last_seen == l0,
                added > 0 ==> self.first_seen is Some && self.last_seen is Some,
                f0 is Some ==> self.first_seen == f0,
            decreases pending@.len(),
        {
            let start = find(pending.as_slice(), marker.as_slice());
            proof {
                lemma_find_spec(
                    pending@,
                    marker@,
                    0,
                    match start {
                        Some(i) => Some(i as int),
                        None => None,
                    },
                );
            }
            match start {
                None => {
                    let keep = partial_marker_tail_len(pending.as_slice(), marker.as_slice());
                    let len = pending.len();
                    let tail = slice_vec(pending.as_slice(), len - keep, len);
                    assert(tail@ =~= kept_tail(pending@));
                    pending = tail;
                    break ;
                },
                Some(start) => {
                    let len = pending.len();
                    let p = slice_vec(pending.as_slice(), start, len);
                    assert(p@ =~= pending@.skip(start as int));
                    match presence_stanza_end(p.as_slice()) {
                        None => {
                            pending = p;
                            break ;
                        },
                        Some(end) => {
                            let stanza = slice_vec(p.as_slice(), 0, end);
                            assert(stanza@ =~= p@.take(end as int));
                            let text = string_of(stanza.as_slice());
                            let mut bytes = string_bytes(text.as_str());
                            let plen = p.len();
                            pending = slice_vec(p.as_slice(), end, plen);
                            assert(pending@ =~= p@.skip(end as int));
                            if bytes.len() > MAX_REPLAY_BYTES - self.replay.len() {
                                over = true;
                                break ;
                            }
                            proof {
                                lemma_encode_utf8_len(stanza@);
                            }
                            let now = now_millis();
                            if self.first_seen.is_none() {
                                self.first_seen = Some(now);
                            }
                            self.last_seen = Some(now);
                            self.replay.append(&mut bytes);
                            self.stanzas = self.stanzas + 1;
                            added = added + 1;
                        },
                    }
                },
            }
        }
        self.pending = pending;
        self.replayed = over;
        added
    }

    pub fn stanza_count(&self) -> (r: usize)
        ensures
            r == self.stanzas,
    {
        self.stanzas
    }

    pub fn replayed_count(&self) -> (r: usize)
        ensures
            r == self.replayed_stanzas,
    {
        self.replayed_stanzas
    }

    pub fn replayed(&self) -> (r: bool)
        ensures
            r == self.replayed,
    {
        self.replayed
    }

    /// Whether, at `now`, the replay is due: there is one, it was not sent,
    /// its first stanza is at least `REPLAY_MIN_AGE_MS` old and its last at
    /// least `REPLAY_IDLE_MS`.
    pub open spec fn ready_at(&self, now: int) -> bool {
        !self.replayed && self.replay@.len() > 0 && match (self.first_seen, self.last_seen) {
            (Some(f), Some(l)) => now - f >= REPLAY_MIN_AGE_MS && now - l >= REPLAY_IDLE_MS,
            _ => false,
        }
    }

    pub fn is_ready_at(&self, now: i64) -> (r: bool)
        ensures
            r == self.ready_at(now as int),
    {
        if self.replayed || self.replay.len() == 0 {
            return false;
        }
        match (self.first_seen, self.last_seen) {
            (Some(f), Some(l)) => {
                let since_first = now as i128 - f as i128;
                let since_last = now as i128 - l as i128;
                since_first >= REPLAY_MIN_AGE_MS as i128 && since_last >= REPLAY_IDLE_MS as i128
            },
            _ => false,
        }
    }

    /// `is_ready_at` the current time (taken from the clock, so only that
    /// some time gives this answer is stated).
    pub fn is_ready(&self) -> (r: bool)
        ensures
            exists|now: i64| r == #[trigger] self.ready_at(now as int),
            r ==> !self.replayed && self.replay@.len() > 0,
    {
        let now = now_millis();
        self.is_ready_at(now)
    }

    /// Hands the replay out and ends it.
    pub fn take(&mut self) -> (r: Vec<u8>)
        ensures
            r@ == old(self).replay@,
            final(self).replayed,
            final(self).replayed_stanzas == old(self).stanzas,
            final(self).stanzas == old(self).stanzas,
            final(self).pending@.len() == 0,
            final(self).replay@.len() == 0,
            final(self).first_seen == old(self).first_seen,
            final(self).last_seen == old(self).last_seen,
            final(self).wf(),
    {
        self.replayed = true;
        self.replayed_stanzas = self.stanzas;
        self.pending = Vec::new();
        let mut out: Vec<u8> = Vec::new();
        std::mem::swap(&mut out, &mut self.replay);
        out
    }
}

// ---------------------------------------------------------------------------
// Counting the presence the server sends
// ---------------------------------------------------------------------------

pub open spec fn show_tag(s: Seq<char>) -> Seq<char> {
    "<show>"@ + s + "</show>"@
}

pub open spec fn league_tag(s: Seq<char>) -> Seq<char> {
    "<league_of_legends><st>"@ + s + "</st>"@
}

pub open spec fn presence_count(c: Seq<char>) -> nat {
    count_matches(c, "<presence"@)
}

pub open spec fn unavailable_count(c: Seq<char>) -> nat {
    count_matches(c, "type='unavailable'"@) + count_matches(c, "type=\"unavailable\""@)
}

pub open spec fn show_count(c: Seq<char>, s: Seq<char>) -> nat {
    count_matches(c, show_tag(s))
}

pub open spec fn league_count(c: Seq<char>, s: Seq<char>) -> nat {
    count_matches(c, league_tag(s))
}

/// The presence counts of one read from the server.
pub struct PresenceBatchStats {
    pub presence: usize,
    pub unavailable: usize,
    pub show_chat: usize,
    pub show_dnd: usize,
    pub show_away: usize,
    pub show_offline: usize,
    pub show_mobile: usize,
    pub league_chat: usize,
    pub league_dnd: usize,
    pub league_away: usize,
    pub league_offline: usize,
    pub league_mobile: usize,
}

impl PresenceBatchStats {
    pub open spec fn counts_of(&self, c: Seq<char>) -> bool {
        &&& self.presence == presence_count(c)
        &&& self.unavailable == unavailable_count(c)
        &&& self.show_chat == show_count(c, "chat"@)
        &&& self.show_dnd == show_count(c, "dnd"@)
        &&& self.show_away == show_count(c, "away"@)
        &&& self.show_offline == show_count(c, "offline"@)
        &&& self.show_mobile == show_count(c, "mobile"@)
        &&& self.league_chat == league_count(c, "chat"@)
        &&& self.league_dnd == league_count(c, "dnd"@)
        &&& self.league_away == league_count(c, "away"@)
        &&& self.league_offline == league_count(c, "offline"@)
        &&& self.league_mobile == league_count(c, "mobile"@)
    }

    pub fn from_content(content: &str) -> (r: Self)
        requires
            unavailable_count(content@) <= usize::MAX,
        ensures
            r.counts_of(content@),
    {
        proof {
            reveal_strlit("<presence");
            reveal_strlit("type='unavailable'");
            reveal_strlit("type=\"unavailable\"");
        }
        let unavailable_single = count_str(content, "type='unavailable'");
        let unavailable_double = count_str(content, "type=\"unavailable\"");
        PresenceBatchStats {
            presence: count_str(content, "<presence"),
            unavailable: unavailable_single + unavailable_double,
            show_chat: show_matches(content, "chat"),
            show_dnd: show_matches(content, "dnd"),
            show_away: show_matches(content, "away"),
            show_offline: show_matches(content, "offline"),
            show_mobile: show_matches(content, "mobile"),
            league_chat: league_matches(content, "chat"),
            league_dnd: league_matches(content, "dnd"),
            league_away: league_matches(content, "away"),
            league_offline: league_matches(content, "offline"),
            league_mobile: league_matches(content, "mobile"),
        }
    }
}

fn show_matches(content: &str, status: &str) -> (r: usize)
    ensures
        r == show_count(content@, status@),
{
    let needle = concat3("<show>", status, "</show>");
    proof {
        reveal_strlit("<show>");
    }
    count_str(content, needle.as_str())
}

/// `content.match_indices("<league_of_legends><st>{status}</st>").count()`.
pub fn league_matches(content: &str, status: &str) -> (r: usize)
    ensures
        r == league_count(content@, status@),
{
    let needle = concat3("<league_of_legends><st>", status, "</st>");
    proof {
        reveal_strlit("<league_of_legends><st>");
    }
    count_str(content, needle.as_str())
}

pub open spec fn dec(n: nat) -> Seq<char> {
    decimal(n)
}

/// The log line of a counted read: its number, its counts, the domains of
/// its senders, and the totals so far.
pub open spec fn batch_message(no: nat, c: Seq<char>, total_presence: nat, total_unavailable: nat) -> Seq<
    char,
> {
    "Server presence batch #"@ + dec(no) + ": batch="@ + dec(presence_count(c)) + " unavailable="@
        + dec(unavailable_count(c)) + " show(chat/dnd/away/offline/mobile)="@ + dec(
        show_count(c, "chat"@),
    ) + "/"@ + dec(show_count(c, "dnd"@)) + "/"@ + dec(show_count(c, "away"@)) + "/"@ + dec(
        show_count(c, "offline"@),
    ) + "/"@ + dec(show_count(c, "mobile"@)) + " league_st(chat/dnd/away/offline/mobile)="@ + dec(
        league_count(c, "chat"@),
    ) + "/"@ + dec(league_count(c, "dnd"@)) + "/"@ + dec(league_count(c, "away"@)) + "/"@ + dec(
        league_count(c, "offline"@),
    ) + "/"@ + dec(league_count(c, "mobile"@)) + "; domains="@ + jid_domains_spec(c, "from"@)
        + "; totals presence="@ + dec(total_presence) + " unavailable="@ + dec(total_unavailable)
}

/// The presence the server has sent since the connection opened.
pub struct PresenceStats {
    pub batches_logged: usize,
    pub total_presence: usize,
    pub total_unavailable: usize,
    pub total_show_chat: usize,
    pub total_show_dnd: usize,
    pub total_show_away: usize,
    pub total_show_offline: usize,
    pub total_show_mobile: usize,
    pub total_league_chat: usize,
    pub total_league_dnd: usize,
    pub total_league_away: usize,
    pub total_league_offline: usize,
    pub total_league_mobile: usize,
}

/// At most this many reads are logged.
pub const MAX_LOGGED_BATCHES: usize = 12;

/// The presence count, and the count of reads, after which the client is
/// taken to be warmed up.
pub const WARMUP_MIN_PRESENCE: usize = 40;

pub const WARMUP_MIN_BATCHES: usize = 4;

fn add_decimal(s: &mut String, n: usize)
    ensures
        final(s)@ == old(s)@ + dec(n as nat),
{
    let d = decimal_string(n as u64);
    push_str(s, d.as_str());
}

impl PresenceStats {
    pub fn new() -> (r: Self)
        ensures
            r.batches_logged == 0,
            r.total_presence == 0,
            r.total_unavailable == 0,
            r.league_presence_total() == 0,
            r.total_show_chat == 0 && r.total_show_dnd == 0 && r.total_show_away == 0
                && r.total_show_offline == 0 && r.total_show_mobile == 0,
    {
        PresenceStats {
            batches_logged: 0,
            total_presence: 0,
            total_unavailable: 0,
            total_show_chat: 0,
            total_show_dnd: 0,
            total_show_away: 0,
            total_show_offline: 0,
            total_show_mobile: 0,
            total_league_chat: 0,
            total_league_dnd: 0,
            total_league_away: 0,
            total_league_offline: 0,
            total_league_mobile: 0,
        }
    }

    pub open spec fn league_presence_total(&self) -> nat {
        (self.total_league_chat + self.total_league_dnd + self.total_league_away
            + self.total_league_offline + self.total_league_mobile) as nat
    }

    /// Whether the totals after adding the counts of `c` fit in a `usize`.
    pub open spec fn fits(&self, c: Seq<char>) -> bool {
        &&& self.total_presence + presence_count(c) <= usize::MAX
        &&& self.total_unavailable + unavailable_count(c) <= usize::MAX
        &&& self.total_show_chat + show_count(c, "chat"@) <= usize::MAX
        &&& self.total_show_dnd + show_count(c, "dnd"@) <= usize::MAX
        &&& self.total_show_away + show_count(c, "away"@) <= usize::MAX
        &&& self.total_show_offline + show_count(c, "offline"@) <= usize::MAX
        &&& self.total_show_mobile + show_count(c, "mobile"@) <= usize::MAX
        &&& self.total_league_chat + league_count(c, "chat"@) <= usize::MAX
        &&& self.total_league_dnd + league_count(c, "dnd"@) <= usize::MAX
        &&& self.total_league_away + league_count(c, "away"@) <= usize::MAX
        &&& self.total_league_offline + league_count(c, "offline"@) <= usize::MAX
        &&& self.total_league_mobile + league_count(c, "mobile"@) <= usize::MAX
    }

    /// `self` is `before` after a read from the server with text `c`: its
    /// counts added where they fit and it holds presence, and the read
    /// counted among the logged ones while fewer than `MAX_LOGGED_BATCHES`
    /// were.
    pub open spec fn recorded_from(&self, before: PresenceStats, c: Seq<char>) -> bool {
        if !before.fits(c) || presence_count(c) == 0 {
            *self == before
        } else {
            &&& self.total_presence == before.total_presence + presence_count(c)
            &&& self.total_unavailable == before.total_unavailable + unavailable_count(c)
            &&& self.total_show_chat == before.total_show_chat + show_count(c, "chat"@)
            &&& self.total_show_dnd == before.total_show_dnd + show_count(c, "dnd"@)
            &&& self.total_show_away == before.total_show_away + show_count(c, "away"@)
            &&& self.total_show_offline == before.total_show_offline + show_count(c, "offline"@)
            &&& self.total_show_mobile == before.total_show_mobile + show_count(c, "mobile"@)
            &&& self.total_league_chat == before.total_league_chat + league_count(c, "chat"@)
            &&& self.total_league_dnd == before.total_league_dnd + league_count(c, "dnd"@)
            &&& self.total_league_away == before.total_league_away + league_count(c, "away"@)
            &&& self.total_league_offline == before.total_league_offline + league_count(c, "offline"@)
            &&& self.total_league_mobile == before.total_league_mobile + league_count(c, "mobile"@)
            &&& self.batches_logged == if before.batches_logged < MAX_LOGGED_BATCHES {
                before.batches_logged + 1
            } else {
                before.batches_logged as int
            }
        }
    }

    /// Any League presence, `WARMUP_MIN_PRESENCE` stanzas, or
    /// `WARMUP_MIN_BATCHES` logged reads.
    pub open spec fn warmed_up(&self) -> bool {
        self.league_presence_total() > 0 || self.total_presence >= WARMUP_MIN_PRESENCE
            || self.batches_logged >= WARMUP_MIN_BATCHES
    }

    /// Whether the counts of `c` can be added (see `fits`).
    pub fn can_record(&self, content: &str) -> (r: bool)
        ensures
            r == self.fits(content@),
    {
        proof {
            reveal_strlit("<presence");
            reveal_strlit("type='unavailable'");
            reveal_strlit("type=\"unavailable\"");
        }
        let max = usize::MAX as u128;
        let presence = count_str(content, "<presence") as u128;
        let unavailable = count_str(content, "type='unavailable'") as u128 + count_str(
            content,
            "type=\"unavailable\"",
        ) as u128;
        self.total_presence as u128 + presence <= max && self.total_unavailable as u128 + unavailable <= max
            && self.total_show_chat as u128 + show_matches(content, "chat") as u128 <= max
            && self.total_show_dnd as u128 + show_matches(content, "dnd") as u128 <= max
            && self.total_show_away as u128 + show_matches(content, "away") as u128 <= max
            && self.total_show_offline as u128 + show_matches(content, "offline") as u128 <= max
            && self.total_show_mobile as u128 + show_matches(content, "mobile") as u128 <= max
            && self.total_league_chat as u128 + league_matches(content, "chat") as u128 <= max
            && self.total_league_dnd as u128 + league_matches(content, "dnd") as u128 <= max
            && self.total_league_away as u128 + league_matches(content, "away") as u128 <= max
            && self.total_league_offline as u128 + league_matches(content, "offline") as u128 <= max
            && self.total_league_mobile as u128 + league_matches(content, "mobile") as u128 <= max
    }

    /// Counts a read from the server. A read with no `<presence` changes
    /// nothing. Otherwise every total grows by the read's count, and the
    /// first `MAX_LOGGED_BATCHES` such reads each give their log line.
    pub fn record_server_batch(&mut self, content: &str) -> (r: Option<String>)
        requires
            old(self).fits(content@),
        ensures
            presence_count(content@) == 0 ==> r is None && *final(self) == *old(self),
            presence_count(content@) > 0 ==> {
                &&& final(self).total_presence == old(self).total_presence + presence_count(content@)
                &&& final(self).total_unavailable == old(self).total_unavailable + unavailable_count(content@)
                &&& final(self).total_show_chat == old(self).total_show_chat + show_count(content@, "chat"@)
                &&& final(self).total_show_dnd == old(self).total_show_dnd + show_count(content@, "dnd"@)
                &&& final(self).total_show_away == old(self).total_show_away + show_count(content@, "away"@)
                &&& final(self).total_show_offline == old(self).total_show_offline + show_count(content@, "offline"@)
                &&& final(self).total_show_mobile == old(self).total_show_mobile + show_count(content@, "mobile"@)
                &&& final(self).total_league_chat == old(self).total_league_chat + league_count(content@, "chat"@)
                &&& final(self).total_league_dnd == old(self).total_league_dnd + league_count(content@, "dnd"@)
                &&& final(self).total_league_away == old(self).total_league_away + league_count(content@, "away"@)
                &&& final(self).total_league_offline == old(self).total_league_offline + league_count(content@, "offline"@)
                &&& final(self).total_league_mobile == old(self).total_league_mobile + league_count(content@, "mobile"@)
                &&& old(self).batches_logged >= MAX_LOGGED_BATCHES ==> r is None
                    && final(self).batches_logged == old(self).batches_logged
                &&& old(self).batches_logged < MAX_LOGGED_BATCHES ==> {
                    &&& final(self).batches_logged == old(self).batches_logged + 1
                    &&& r matches Some(m) && m@ == batch_message(
                        final(self).batches_logged as nat,
                        content@,
                        final(self).total_presence as nat,
                        final(self).total_unavailable as nat,
                    )
                }
            },
    {
        let batch = PresenceBatchStats::from_content(content);
        if batch.presence == 0 {
            return None;
        }
        self.total_presence = self.total_presence + batch.presence;
        self.total_unavailable = self.total_unavailable + batch.unavailable;
        self.total_show_chat = self.total_show_chat + batch.show_chat;
        self.total_show_dnd = self.total_show_dnd + batch.show_dnd;
        self.total_show_away = self.total_show_away + batch.show_away;
        self.total_show_offline = self.total_show_offline + batch.show_offline;
        self.total_show_mobile = self.total_show_mobile + batch.show_mobile;
        self.total_league_chat = self.total_league_chat + batch.league_chat;
        self.total_league_dnd = self.total_league_dnd + batch.league_dnd;
        self.total_league_away = self.total_league_away + batch.league_away;
        self.total_league_offline = self.total_league_offline + batch.league_offline;
        self.total_league_mobile = self.total_league_mobile + batch.league_mobile;
        if self.batches_logged >= MAX_LOGGED_BATCHES {
            return None;
        }
        self.batches_logged = self.batches_logged + 1;
        let mut m = owned("Server presence batch #");
        add_decimal(&mut m, self.batches_logged);
        push_str(&mut m, ": batch=");
        add_decimal(&mut m, batch.presence);
        push_str(&mut m, " unavailable=");
        add_decimal(&mut m, batch.unavailable);
        push_str(&mut m, " show(chat/dnd/away/offline/mobile)=");
        add_decimal(&mut m, batch.show_chat);
        push_str(&mut m, "/");
        add_decimal(&mut m, batch.show_dnd);
        push_str(&mut m, "/");
        add_decimal(&mut m, batch.show_away);
        push_str(&mut m, "/");
        add_decimal(&mut m, batch.show_offline);
        push_str(&mut m, "/");
        add_decimal(&mut m, batch.show_mobile);
        push_str(&mut m, " league_st(chat/dnd/away/offline/mobile)=");
        add_decimal(&mut m, batch.league_chat);
        push_str(&mut m, "/");
        add_decimal(&mut m, batch.league_dnd);
        push_str(&mut m, "/");
        add_decimal(&mut m, batch.league_away);
        push_str(&mut m, "/");
        add_decimal(&mut m, batch.league_offline);
        push_str(&mut m, "/");
        add_decimal(&mut m, batch.league_mobile);
        push_str(&mut m, "; domains=");
        let domains = jid_domains(content, "from");
        push_str(&mut m, domains.as_str());
        push_str(&mut m, "; totals presence=");
        add_decimal(&mut m, self.total_presence);
        push_str(&mut m, " unavailable=");
        add_decimal(&mut m, self.total_unavailable);
        Some(m)
    }

    /// Whether the server has sent enough presence for the client to be
    /// warmed up: any League presence, `WARMUP_MIN_PRESENCE` stanzas, or
    /// `WARMUP_MIN_BATCHES` logged reads.
    pub fn is_warmup_ready(&self) -> (r: bool)
        ensures
            r == self.warmed_up(),
    {
        self.total_league_chat > 0 || self.total_league_dnd > 0 || self.total_league_away > 0
            || self.total_league_offline > 0 || self.total_league_mobile > 0 || self.total_presence
            >= WARMUP_MIN_PRESENCE || self.batches_logged >= WARMUP_MIN_BATCHES
    }

    /// The League presence counted so far, of every status.
    pub fn total_league_presence(&self) -> (r: usize)
        requires
            self.league_presence_total() <= usize::MAX,
        ensures
            r == self.league_presence_total(),
    {
        self.total_league_chat + self.total_league_dnd + self.total_league_away
            + self.total_league_offline + self.total_league_mobile
    }
}

// ---------------------------------------------------------------------------
// Adding the helper to the roster the server sends
// ---------------------------------------------------------------------------

pub const QUERY_OPEN: &'static str = "<query";

/// Where `needle` last occurs in `hay`, if anywhere.
pub open spec fn rfind_spec(hay: Seq<char>, needle: Seq<char>) -> Option<int> {
    if exists|i: int| is_last_match(hay, needle, i) {
        Some(choose|i: int| is_last_match(hay, needle, i))
    } else {
        None
    }
}

proof fn lemma_rfind_spec(hay: Seq<char>, needle: Seq<char>, r: Option<int>)
    requires
        match r {
            Some(i) => is_last_match(hay, needle, i),
            None => !contains(hay, needle),
        },
    ensures
        rfind_spec(hay, needle) == r,
{
    match r {
        Some(i) => {
            let j = choose|j: int| is_last_match(hay, needle, j);
            assert(is_last_match(hay, needle, j));
            if j < i {
                assert(!matches_at(hay, needle, i));
            }
            if i < j {
                assert(!matches_at(hay, needle, j));
            }
        },
        None => {
            assert(!exists|i: int| is_last_match(hay, needle, i));
        },
    }
}

/// How many characters at the end of `c` may belong to a roster query not
/// yet complete: from the last `<query` on, where that tag is not closed yet
/// or names the roster namespace; else the longest end that could begin
/// `<query`.
pub open spec fn roster_prefix_len(c: Seq<char>) -> nat {
    match rfind_spec(c, QUERY_OPEN@) {
        Some(q) => {
            let tail = c.skip(q);
            if 0 <= q <= c.len() && (!contains_char(tail, '>') || contains(tail, ROSTER_NAMESPACE@)) {
                tail.len()
            } else {
                partial_marker_tail(c, QUERY_OPEN@)
            }
        },
        None => partial_marker_tail(c, QUERY_OPEN@),
    }
}

pub fn possible_roster_prefix_len(content: &str) -> (r: usize)
    ensures
        r == roster_prefix_len(content@),
        r <= content@.len(),
{
    let c = chars_of(content);
    let marker = chars_of(QUERY_OPEN);
    let q = rfind_seq(c.as_slice(), marker.as_slice());
    proof {
        lemma_rfind_spec(
            c@,
            marker@,
            match q {
                Some(i) => Some(i as int),
                None => None,
            },
        );
    }
    if let Some(q) = q {
        let len = c.len();
        let tail = slice_vec(c.as_slice(), q, len);
        assert(tail@ =~= c@.skip(q as int));
        let tail_text = string_of(tail.as_slice());
        if !has_char(tail.as_slice(), '>') || str_contains(tail_text.as_str(), ROSTER_NAMESPACE) {
            return tail.len();
        }
    }
    partial_marker_tail_len(c.as_slice(), marker.as_slice())
}

/// The items of a roster payload: the `<item` tags where the text names the
/// roster namespace, else none.
pub open spec fn roster_items(c: Seq<char>) -> nat {
    if contains(c, ROSTER_NAMESPACE@) {
        count_matches(c, "<item"@)
    } else {
        0
    }
}

/// What one read through the injector hands on.
pub struct HelperInjection {
    pub bytes: Vec<u8>,
    pub inserted: bool,
    pub roster_items_before: Option<usize>,
    pub roster_items_after: Option<usize>,
}

/// Adds the helper to the roster the server sends, across reads that may cut
/// the roster anywhere: what could still turn out to be the roster query is
/// held back.
pub struct HelperFriendInjector {
    pub pending: Vec<char>,
    pub helper_jid: String,
}

impl HelperFriendInjector {
    pub fn new(helper_jid: String) -> (r: Self)
        ensures
            r.pending@.len() == 0,
            r.helper_jid@ == helper_jid@,
    {
        HelperFriendInjector { pending: Vec::new(), helper_jid }
    }

    /// Takes a read. Where the text held so far can take the helper, it goes
    /// out with the helper added, with the roster's item counts before and
    /// after. Else all of it but what may still be the start of a roster
    /// query goes out.
    pub fn push(&mut self, content: &str) -> (r: HelperInjection)
        ensures
            final(self).helper_jid@ == old(self).helper_jid@,
            ({
                let p = old(self).pending@ + content@;
                match insert_helper_friend_spec(p, old(self).helper_jid@) {
                    Some(u) => {
                        &&& r.inserted
                        &&& r.bytes@ == encode_utf8(u)
                        &&& r.roster_items_before matches Some(n) && n == roster_items(p)
                        &&& r.roster_items_after matches Some(n) && n == roster_items(u)
                        &&& final(self).pending@.len() == 0
                    },
                    None => {
                        let keep = roster_prefix_len(p);
                        &&& !r.inserted
                        &&& r.roster_items_before is None
                        &&& r.roster_items_after is None
                        &&& r.bytes@ == encode_utf8(p.take(p.len() - keep))
                        &&& final(self).pending@ == p.skip(p.len() - keep)
                    },
                }
            }),
    {
        let mut extra = chars_of(content);
        self.pending.append(&mut extra);
        let text = string_of(self.pending.as_slice());
        if let Some(updated) = insert_helper_friend(text.as_str(), self.helper_jid.as_str()) {
            let before = roster_item_count(text.as_str());
            let after = roster_item_count(updated.as_str());
            self.pending = Vec::new();
            return HelperInjection {
                bytes: string_bytes(updated.as_str()),
                inserted: true,
                roster_items_before: Some(before),
                roster_items_after: Some(after),
            };
        }
        let keep = possible_roster_prefix_len(text.as_str());
        let len = self.pending.len();
        let out = slice_vec(self.pending.as_slice(), 0, len - keep);
        let rest = slice_vec(self.pending.as_slice(), len - keep, len);
        assert(out@ =~= self.pending@.take(len - keep));
        assert(rest@ =~= self.pending@.skip(len - keep));
        self.pending = rest;
        let out_text = string_of(out.as_slice());
        HelperInjection {
            bytes: string_bytes(out_text.as_str()),
            inserted: false,
            roster_items_before: None,
            roster_items_after: None,
        }
    }

    /// Hands out what is held back, when the stream closes.
    pub fn flush(&mut self) -> (r: Vec<u8>)
        ensures
            r@ == encode_utf8(old(self).pending@),
            final(self).pending@.len() == 0,
            final(self).helper_jid@ == old(self).helper_jid@,
    {
        let text = string_of(self.pending.as_slice());
        self.pending = Vec::new();
        string_bytes(text.as_str())
    }

    pub fn is_empty(&self) -> (r: bool)
        ensures
            r == (self.pending@.len() == 0),
    {
        self.pending.len() == 0
    }
}

} // verus!

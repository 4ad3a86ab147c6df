//! JIDs in chat traffic: their domains, counted for the log, and the domain
//! the server uses for a friend put back to the one the roster gives.
use vstd::prelude::*;

use crate::config_proxy::{lemma_lookup_push, lookup};
use crate::presence::{find_char_spec, find_spec, lemma_find_char_spec, lemma_find_spec};
use crate::tally::{tally_add, tally_insert, tally_of, tally_view, counts_below, lemma_tally_insert_counts};
use crate::text::{
    after_char, before_char, chars_of, contains_char, decimal, decimal_string, ends_with,
    find_char_from, find_from, push_chars, push_str, seq_eq, seq_ends_with, slice_vec,
    split_once_char, string_of,
};

verus! {

/// The local part and domain of a JID (`local@domain/resource`), when both
/// are present.
pub open spec fn jid_parts_spec(jid: Seq<char>) -> Option<(Seq<char>, Seq<char>)> {
    if contains_char(jid, '@') && before_char(jid, '@').len() > 0 && before_char(after_char(jid, '@'), '/').len() > 0 {
        Some((before_char(jid, '@'), before_char(after_char(jid, '@'), '/')))
    } else {
        None
    }
}

/// The domain of a JID, when present.
pub open spec fn jid_domain_spec(jid: Seq<char>) -> Option<Seq<char>> {
    if contains_char(jid, '@') && before_char(after_char(jid, '@'), '/').len() > 0 {
        Some(before_char(after_char(jid, '@'), '/'))
    } else {
        None
    }
}

pub fn jid_parts(jid: &[char]) -> (r: Option<(Vec<char>, Vec<char>)>)
    ensures
        match r {
            Some(p) => jid_parts_spec(jid@) == Some((p.0@, p.1@)),
            None => jid_parts_spec(jid@) is None,
        },
{
    let (local, rest) = match split_once_char(jid, '@') {
        Some(p) => p,
        None => return None,
    };
    if local.len() == 0 {
        return None;
    }
    let domain = match split_once_char(rest.as_slice(), '/') {
        Some((d, _)) => d,
        None => rest,
    };
    if domain.len() == 0 {
        return None;
    }
    Some((local, domain))
}

pub fn jid_domain(jid: &[char]) -> (r: Option<Vec<char>>)
    ensures
        match r {
            Some(d) => jid_domain_spec(jid@) == Some(d@),
            None => jid_domain_spec(jid@) is None,
        },
{
    let (_, rest) = match split_once_char(jid, '@') {
        Some(p) => p,
        None => return None,
    };
    let domain = match split_once_char(rest.as_slice(), '/') {
        Some((d, _)) => d,
        None => rest,
    };
    if domain.len() == 0 {
        return None;
    }
    Some(domain)
}

/// The values of the attributes that start with `marker` (an attribute name,
/// `=` and a quote), in order, each up to the matching quote; scanning stops
/// at a value without one.
pub open spec fn attr_values(c: Seq<char>, marker: Seq<char>, quote: char) -> Seq<Seq<char>>
    decreases c.len(),
{
    if marker.len() == 0 {
        seq![]
    } else {
        match find_spec(c, marker, 0) {
            None => seq![],
            Some(f) => if 0 <= f && f + marker.len() <= c.len() {
                let value = c.skip(f + marker.len());
                match find_char_spec(value, quote, 0) {
                    None => seq![],
                    Some(e) => if 0 <= e < value.len() {
                        seq![value.take(e)] + attr_values(value.skip(e + 1), marker, quote)
                    } else {
                        seq![]
                    },
                }
            } else {
                seq![]
            },
        }
    }
}

pub open spec fn vec_views(v: Seq<Vec<char>>) -> Seq<Seq<char>> {
    v.map_values(|w: Vec<char>| w@)
}

fn collect_attr_values(c: &[char], marker: &[char], quote: char) -> (r: Vec<Vec<char>>)
    ensures
        vec_views(r@) == attr_values(c@, marker@, quote),
    decreases c@.len(),
{
    if marker.len() == 0 {
        return Vec::new();
    }
    let found = find_from(c, marker, 0);
    proof {
        lemma_find_spec(c@, marker@, 0, match found {
            Some(i) => Some(i as int),
            None => None,
        });
    }
    let f = match found {
        Some(f) => f,
        None => return Vec::new(),
    };
    let n = c.len();
    assert(f + marker@.len() <= n);
    let value = slice_vec(c, f + marker.len(), n);
    assert(value@ =~= c@.skip(f + marker@.len()));
    let close = find_char_from(value.as_slice(), quote, 0);
    proof {
        lemma_find_char_spec(value@, quote, 0, match close {
            Some(i) => Some(i as int),
            None => None,
        });
    }
    let e = match close {
        Some(e) => e,
        None => return Vec::new(),
    };
    let v = slice_vec(value.as_slice(), 0, e);
    let rest = slice_vec(value.as_slice(), e + 1, value.len());
    assert(v@ =~= value@.take(e as int));
    assert(rest@ =~= value@.skip(e + 1));
    let tail = collect_attr_values(rest.as_slice(), marker, quote);
    let mut r: Vec<Vec<char>> = Vec::new();
    r.push(v);
    let mut i: usize = 0;
    while i < tail.len()
        invariant
            i <= tail@.len(),
            vec_views(r@) == seq![value@.take(e as int)] + vec_views(tail@).take(i as int),
        decreases tail@.len() - i,
    {
        let ghost prev = r@;
        r.push(slice_vec(tail[i].as_slice(), 0, tail[i].len()));
        assert(tail@[i as int]@.subrange(0, tail@[i as int]@.len() as int) =~= tail@[i as int]@);
        assert(vec_views(r@) =~= vec_views(prev).push(tail@[i as int]@));
        assert(vec_views(tail@).take(i + 1) =~= vec_views(tail@).take(i as int).push(tail@[i as int]@));
        i += 1;
    }
    assert(vec_views(tail@).take(tail@.len() as int) =~= vec_views(tail@));
    r
}

pub open spec fn single_marker(attr: Seq<char>) -> Seq<char> {
    attr + "='"@
}

pub open spec fn double_marker(attr: Seq<char>) -> Seq<char> {
    attr + "=\""@
}

/// The values of an attribute in a fragment: those in single quotes, then
/// those in double quotes.
pub open spec fn attribute_values(c: Seq<char>, attr: Seq<char>) -> Seq<Seq<char>> {
    attr_values(c, single_marker(attr), '\'') + attr_values(c, double_marker(attr), '"')
}

fn all_attribute_values(c: &[char], attr: &str) -> (r: Vec<Vec<char>>)
    ensures
        vec_views(r@) == attribute_values(c@, attr@),
{
    let single = crate::text::concat2(attr, "='");
    let double = crate::text::concat2(attr, "=\"");
    let sm = chars_of(single.as_str());
    let dm = chars_of(double.as_str());
    let mut r = collect_attr_values(c, sm.as_slice(), '\'');
    let d = collect_attr_values(c, dm.as_slice(), '"');
    let ghost first = vec_views(r@);
    let mut i: usize = 0;
    while i < d.len()
        invariant
            i <= d@.len(),
            vec_views(r@) == first + vec_views(d@).take(i as int),
        decreases d@.len() - i,
    {
        let ghost prev = r@;
        r.push(slice_vec(d[i].as_slice(), 0, d[i].len()));
        assert(d@[i as int]@.subrange(0, d@[i as int]@.len() as int) =~= d@[i as int]@);
        assert(vec_views(r@) =~= vec_views(prev).push(d@[i as int]@));
        assert(vec_views(d@).take(i + 1) =~= vec_views(d@).take(i as int).push(d@[i as int]@));
        i += 1;
    }
    assert(vec_views(d@).take(d@.len() as int) =~= vec_views(d@));
    r
}

/// The domains of the JIDs in some values, in order.
pub open spec fn domains_of(values: Seq<Seq<char>>) -> Seq<Seq<char>>
    decreases values.len(),
{
    if values.len() == 0 {
        seq![]
    } else {
        match jid_domain_spec(values.last()) {
            Some(d) => domains_of(values.drop_last()).push(d),
            None => domains_of(values.drop_last()),
        }
    }
}

/// The text of a domain tally: `domain=count` joined by `,`, or `none`.
pub open spec fn tally_text(t: Seq<(Seq<char>, nat)>) -> Seq<char>
    decreases t.len(),
{
    if t.len() == 0 {
        seq![]
    } else if t.len() == 1 {
        t[0].0 + "="@ + decimal(t[0].1)
    } else {
        tally_text(t.drop_last()) + ","@ + t.last().0 + "="@ + decimal(t.last().1)
    }
}

pub open spec fn jid_domains_spec(c: Seq<char>, attr: Seq<char>) -> Seq<char> {
    let t = tally_of(domains_of(attribute_values(c, attr)));
    if t.len() == 0 {
        "none"@
    } else {
        tally_text(t)
    }
}

/// How many JIDs of each domain an attribute names in a fragment, for the
/// log (`na1.pvp.net=2,na2.pvp.net=1`, or `none`).
pub fn jid_domains(content: &str, attribute: &str) -> (r: String)
    ensures
        r@ == jid_domains_spec(content@, attribute@),
{
    let c = chars_of(content);
    let values = all_attribute_values(c.as_slice(), attribute);
    let mut t: Vec<(String, usize)> = Vec::new();
    let mut i: usize = 0;
    while i < values.len()
        invariant
            i <= values@.len(),
            tally_view(t@) == tally_of(domains_of(vec_views(values@).take(i as int))),
            domains_of(vec_views(values@).take(i as int)).len() <= i,
            counts_below(tally_view(t@), i as nat),
            forall|m: int| 0 <= m < t@.len() ==> t@[m].1 as nat == tally_view(t@)[m].1,
        decreases values@.len() - i,
    {
        let ghost pre = vec_views(values@).take(i as int);
        assert(vec_views(values@).take(i + 1).drop_last() =~= pre);
        assert(vec_views(values@).take(i + 1).last() == values@[i as int]@);
        match jid_domain(values[i].as_slice()) {
            Some(d) => {
                let ds = string_of(d.as_slice());
                proof {
                    assert(domains_of(pre).push(d@).drop_last() =~= domains_of(pre));
                    assert(domains_of(vec_views(values@).take(i + 1)) == domains_of(pre).push(d@));
                    assert forall|m: int| 0 <= m < t@.len() implies t@[m].1 < usize::MAX by {
                        assert(tally_view(t@)[m].1 <= i);
                    }
                    lemma_tally_insert_counts(tally_view(t@), ds@, i as nat);
                }
                tally_add(&mut t, ds.as_str());
            },
            None => {
                proof {
                    assert(counts_below(tally_view(t@), (i + 1) as nat));
                }
            },
        }
        proof {
            assert forall|m: int| 0 <= m < t@.len() implies t@[m].1 as nat == tally_view(t@)[m].1 by {}
        }
        i += 1;
    }
    assert(vec_views(values@).take(values@.len() as int) =~= vec_views(values@));
    if t.len() == 0 {
        return "none".to_owned();
    }
    let mut out = String::new();
    let mut k: usize = 0;
    while k < t.len()
        invariant
            0 < t@.len(),
            k <= t@.len(),
            out@ == tally_text(tally_view(t@).take(k as int)),
        decreases t@.len() - k,
    {
        let ghost pre = tally_view(t@).take(k + 1);
        assert(pre.drop_last() =~= tally_view(t@).take(k as int));
        assert(pre.last() == (t@[k as int].0@, t@[k as int].1 as nat));
        if k > 0 {
            push_str(&mut out, ",");
        }
        push_str(&mut out, t[k].0.as_str());
        push_str(&mut out, "=");
        let n = decimal_string(t[k].1 as u64);
        push_str(&mut out, n.as_str());
        proof {
            if k == 0 {
                assert(pre.len() == 1);
                assert(pre[0] == pre.last());
            }
        }
        k += 1;
    }
    assert(tally_view(t@).take(t@.len() as int) =~= tally_view(t@));
    out
}

/// `label: domains` for the log, unless no JID is named.
pub fn jid_domain_summary(content: &str, attribute: &str, label: &str) -> (r: Option<String>)
    ensures
        jid_domains_spec(content@, attribute@) == "none"@ ==> r is None,
        jid_domains_spec(content@, attribute@) != "none"@ ==> (r matches Some(s) && s@ == label@ + ": "@
            + jid_domains_spec(content@, attribute@)),
{
    let domains = jid_domains(content, attribute);
    let dv = chars_of(domains.as_str());
    let none = chars_of("none");
    if seq_eq(dv.as_slice(), none.as_slice()) {
        None
    } else {
        let mut s = crate::text::concat2(label, ": ");
        push_str(&mut s, domains.as_str());
        Some(s)
    }
}

/// The JID pairs (local part, domain) of some values, in order.
pub open spec fn parts_of(values: Seq<Seq<char>>) -> Seq<(Seq<char>, Seq<char>)>
    decreases values.len(),
{
    if values.len() == 0 {
        seq![]
    } else {
        match jid_parts_spec(values.last()) {
            Some(p) => parts_of(values.drop_last()).push(p),
            None => parts_of(values.drop_last()),
        }
    }
}

/// Each local part with the domain of its first JID.
pub open spec fn first_domains(pairs: Seq<(Seq<char>, Seq<char>)>) -> Seq<(Seq<char>, Seq<char>)>
    decreases pairs.len(),
{
    if pairs.len() == 0 {
        seq![]
    } else {
        let prev = first_domains(pairs.drop_last());
        if lookup(prev, pairs.last().0) is Some {
            prev
        } else {
            prev.push(pairs.last())
        }
    }
}

pub open spec fn pair_views(v: Seq<(String, String)>) -> Seq<(Seq<char>, Seq<char>)> {
    v.map_values(|p: (String, String)| (p.0@, p.1@))
}

/// The domain of each local part, as the roster names it.
#[derive(Debug, Clone)]
pub struct DomainMap {
    pub entries: Vec<(String, String)>,
}

impl DomainMap {
    pub fn new() -> (r: Self)
        ensures
            pair_views(r.entries@).len() == 0,
    {
        DomainMap { entries: Vec::new() }
    }

    pub fn is_empty(&self) -> (r: bool)
        ensures
            r == (self.entries@.len() == 0),
    {
        self.entries.len() == 0
    }

    /// The domain recorded for a local part.
    pub fn get(&self, local: &str) -> (r: Option<String>)
        ensures
            match r {
                Some(d) => lookup(pair_views(self.entries@), local@) == Some(d@),
                None => lookup(pair_views(self.entries@), local@) is None,
            },
    {
        let k = chars_of(local);
        let ghost entries = pair_views(self.entries@);
        let mut i: usize = 0;
        assert(entries.skip(0) =~= entries);
        while i < self.entries.len()
            invariant
                i <= self.entries@.len(),
                entries == pair_views(self.entries@),
                k@ == local@,
                lookup(entries, local@) == lookup(entries.skip(i as int), local@),
            decreases self.entries@.len() - i,
        {
            let ghost rest = entries.skip(i as int);
            assert(rest[0] == (self.entries@[i as int].0@, self.entries@[i as int].1@));
            let name = chars_of(self.entries[i].0.as_str());
            if seq_eq(name.as_slice(), k.as_slice()) {
                return Some(self.entries[i].1.clone());
            }
            assert(rest.drop_first() =~= entries.skip(i + 1));
            i += 1;
        }
        None
    }
}

pub open spec fn jid_domain_map_spec(c: Seq<char>, attr: Seq<char>) -> Seq<(Seq<char>, Seq<char>)> {
    first_domains(parts_of(attribute_values(c, attr)))
}

/// The domain of each JID an attribute names in a fragment, by local part
/// (the first JID of a local part wins).
pub fn jid_domain_map(content: &str, attribute: &str) -> (r: DomainMap)
    ensures
        pair_views(r.entries@) == jid_domain_map_spec(content@, attribute@),
{
    let c = chars_of(content);
    let values = all_attribute_values(c.as_slice(), attribute);
    let mut map = DomainMap::new();
    let mut i: usize = 0;
    while i < values.len()
        invariant
            i <= values@.len(),
            pair_views(map.entries@) == first_domains(parts_of(vec_views(values@).take(i as int))),
        decreases values@.len() - i,
    {
        let ghost pre = vec_views(values@).take(i as int);
        assert(vec_views(values@).take(i + 1).drop_last() =~= pre);
        assert(vec_views(values@).take(i + 1).last() == values@[i as int]@);
        match jid_parts(values[i].as_slice()) {
            Some((local, domain)) => {
                let ls = string_of(local.as_slice());
                proof {
                    assert(parts_of(pre).push((local@, domain@)).drop_last() =~= parts_of(pre));
                    assert(parts_of(vec_views(values@).take(i + 1)) == parts_of(pre).push((local@, domain@)));
                }
                match map.get(ls.as_str()) {
                    Some(_) => {},
                    None => {
                        let ghost prev = map.entries@;
                        map.entries.push((ls, string_of(domain.as_slice())));
                        assert(pair_views(map.entries@) =~= pair_views(prev).push((local@, domain@)));
                    },
                }
            },
            None => {},
        }
        i += 1;
    }
    assert(vec_views(values@).take(values@.len() as int) =~= vec_views(values@));
    map
}

/// A JID with its domain replaced by the roster's domain for its local part,
/// when both are Riot chat domains (not a lobby's) and they differ.
pub open spec fn rewrite_jid_domain_spec(jid: Seq<char>, map: Seq<(Seq<char>, Seq<char>)>) -> Option<Seq<char>> {
    match jid_parts_spec(jid) {
        None => None,
        Some(p) => match lookup(map, p.0) {
            None => None,
            Some(target) => if p.1 == target || p.1 == "conference.pvp.net"@ || !ends_with(p.1, ".pvp.net"@)
                || !ends_with(target, ".pvp.net"@) {
                None
            } else {
                let rest = after_char(jid, '@');
                Some(before_char(jid, '@') + "@"@ + target + rest.skip(before_char(rest, '/').len() as int))
            },
        },
    }
}

fn is_lit(v: &[char], literal: &str) -> (r: bool)
    ensures
        r == (v@ == literal@),
{
    let l = chars_of(literal);
    seq_eq(v, l.as_slice())
}

pub fn rewrite_jid_domain_from_map(jid: &[char], map: &DomainMap) -> (r: Option<Vec<char>>)
    ensures
        match r {
            Some(v) => rewrite_jid_domain_spec(jid@, pair_views(map.entries@)) == Some(v@),
            None => rewrite_jid_domain_spec(jid@, pair_views(map.entries@)) is None,
        },
{
    let (local, current) = match jid_parts(jid) {
        Some(p) => p,
        None => return None,
    };
    let ls = string_of(local.as_slice());
    let target = match map.get(ls.as_str()) {
        Some(t) => t,
        None => return None,
    };
    let tv = chars_of(target.as_str());
    let suffix = chars_of(".pvp.net");
    if seq_eq(current.as_slice(), tv.as_slice()) || is_lit(current.as_slice(), "conference.pvp.net")
        || !seq_ends_with(current.as_slice(), suffix.as_slice()) || !seq_ends_with(tv.as_slice(), suffix.as_slice()) {
        return None;
    }
    let (before, rest) = match split_once_char(jid, '@') {
        Some(p) => p,
        None => return None,
    };
    let domain_len = match split_once_char(rest.as_slice(), '/') {
        Some((d, _)) => d.len(),
        None => rest.len(),
    };
    proof {
        crate::text::lemma_before_char_len(rest@, '/');
    }
    let mut out = before;
    out.push('@');
    let mut i: usize = 0;
    let ghost base = out@;
    while i < tv.len()
        invariant
            i <= tv@.len(),
            out@ == base + tv@.take(i as int),
        decreases tv@.len() - i,
    {
        out.push(tv[i]);
        assert(tv@.take(i + 1) =~= tv@.take(i as int).push(tv@[i as int]));
        i += 1;
    }
    assert(tv@.take(tv@.len() as int) =~= tv@);
    let tail = slice_vec(rest.as_slice(), domain_len, rest.len());
    let mut j: usize = 0;
    let ghost base2 = out@;
    while j < tail.len()
        invariant
            j <= tail@.len(),
            out@ == base2 + tail@.take(j as int),
        decreases tail@.len() - j,
    {
        out.push(tail[j]);
        assert(tail@.take(j + 1) =~= tail@.take(j as int).push(tail@[j as int]));
        j += 1;
    }
    assert(tail@.take(tail@.len() as int) =~= tail@);
    assert(rest@.skip(domain_len as int) =~= tail@);
    assert(base =~= before@ + "@"@) by {
        reveal_strlit("@");
    }
    Some(out)
}

/// The first attribute marker in a fragment: where it starts, its quote, and
/// its length (a single-quoted one first when both start at once).
pub open spec fn next_marker(c: Seq<char>, attr: Seq<char>) -> Option<(int, char, int)> {
    let ml: int = attr.len() as int + 2;
    match (find_spec(c, single_marker(attr), 0), find_spec(c, double_marker(attr), 0)) {
        (Some(a), Some(b)) => if a <= b {
            Some((a, '\'', ml))
        } else {
            Some((b, '"', ml))
        },
        (Some(a), None) => Some((a, '\'', ml)),
        (None, Some(b)) => Some((b, '"', ml)),
        (None, None) => None,
    }
}

/// A fragment with each JID the attribute names rewritten to the roster's
/// domain (see `rewrite_jid_domain_spec`), and whether any was.
pub open spec fn rewrite_attrs(c: Seq<char>, attr: Seq<char>, map: Seq<(Seq<char>, Seq<char>)>) -> (Seq<char>, bool)
    decreases c.len(),
{
    match next_marker(c, attr) {
        None => (c, false),
        Some(m) => {
            let vs = m.0 + m.2;
            if 0 <= m.0 && vs <= c.len() {
                let after = c.skip(vs);
                match find_char_spec(after, m.1, 0) {
                    None => (c, false),
                    Some(e) => if 0 <= e < after.len() {
                        let value = after.take(e);
                        let rest = rewrite_attrs(after.skip(e + 1), attr, map);
                        match rewrite_jid_domain_spec(value, map) {
                            Some(rw) => (c.take(vs) + rw + seq![m.1] + rest.0, true),
                            None => (c.take(vs) + value + seq![m.1] + rest.0, rest.1),
                        }
                    } else {
                        (c, false)
                    },
                }
            } else {
                (c, false)
            }
        },
    }
}

fn push_all(out: &mut Vec<char>, v: &[char])
    ensures
        final(out)@ == old(out)@ + v@,
{
    let mut i: usize = 0;
    while i < v.len()
        invariant
            i <= v@.len(),
            out@ == old(out)@ + v@.take(i as int),
        decreases v@.len() - i,
    {
        out.push(v[i]);
        assert(v@.take(i + 1) =~= v@.take(i as int).push(v@[i as int]));
        assert(old(out)@ + v@.take(i + 1) =~= (old(out)@ + v@.take(i as int)).push(v@[i as int]));
        i += 1;
    }
    assert(v@.take(v@.len() as int) =~= v@);
}

fn rewrite_attrs_exec(c: &[char], attr: &str, map: &DomainMap) -> (r: (Vec<char>, bool))
    ensures
        (r.0@, r.1) == rewrite_attrs(c@, attr@, pair_views(map.entries@)),
    decreases c@.len(),
{
    let single = crate::text::concat2(attr, "='");
    let double = crate::text::concat2(attr, "=\"");
    let sm = chars_of(single.as_str());
    let dm = chars_of(double.as_str());
    let fs = find_from(c, sm.as_slice(), 0);
    let fd = find_from(c, dm.as_slice(), 0);
    proof {
        lemma_find_spec(c@, sm@, 0, match fs {
            Some(i) => Some(i as int),
            None => None,
        });
        lemma_find_spec(c@, dm@, 0, match fd {
            Some(i) => Some(i as int),
            None => None,
        });
        reveal_strlit("='");
        reveal_strlit("=\"");
    }
    let ml = sm.len();
    let (start, quote) = match (fs, fd) {
        (Some(a), Some(b)) => if a <= b {
            (a, '\'')
        } else {
            (b, '"')
        },
        (Some(a), None) => (a, '\''),
        (None, Some(b)) => (b, '"'),
        (None, None) => return (slice_all(c), false),
    };
    let n = c.len();
    assert(start + ml <= n);
    let vs = start + ml;
    let after = slice_vec(c, vs, n);
    assert(after@ =~= c@.skip(vs as int));
    let close = find_char_from(after.as_slice(), quote, 0);
    proof {
        lemma_find_char_spec(after@, quote, 0, match close {
            Some(i) => Some(i as int),
            None => None,
        });
    }
    let e = match close {
        Some(e) => e,
        None => return (slice_all(c), false),
    };
    let value = slice_vec(after.as_slice(), 0, e);
    let rest_in = slice_vec(after.as_slice(), e + 1, after.len());
    assert(value@ =~= after@.take(e as int));
    assert(rest_in@ =~= after@.skip(e + 1));
    let (rest_out, rest_changed) = rewrite_attrs_exec(rest_in.as_slice(), attr, map);
    let mut out = slice_vec(c, 0, vs);
    assert(out@ =~= c@.take(vs as int));
    match rewrite_jid_domain_from_map(value.as_slice(), map) {
        Some(rw) => {
            push_all(&mut out, rw.as_slice());
            out.push(quote);
            push_all(&mut out, rest_out.as_slice());
            (out, true)
        },
        None => {
            push_all(&mut out, value.as_slice());
            out.push(quote);
            push_all(&mut out, rest_out.as_slice());
            (out, rest_changed)
        },
    }
}

fn slice_all(v: &[char]) -> (r: Vec<char>)
    ensures
        r@ == v@,
{
    let r = slice_vec(v, 0, v.len());
    assert(v@.subrange(0, v@.len() as int) =~= v@);
    r
}

/// Puts back, in the JIDs an attribute names, the domain the roster gives
/// each friend; `None` when nothing changes.
pub fn rewrite_jid_attribute_domains_from_map(content: &str, attribute: &str, roster_domains: &DomainMap) -> (r:
    Option<String>)
    ensures
        ({
            let x = rewrite_attrs(content@, attribute@, pair_views(roster_domains.entries@));
            &&& x.1 ==> (r matches Some(s) && s@ == x.0)
            &&& !x.1 ==> r is None
        }),
{
    let c = chars_of(content);
    let (out, changed) = rewrite_attrs_exec(c.as_slice(), attribute, roster_domains);
    if changed {
        Some(string_of(out.as_slice()))
    } else {
        None
    }
}

} // verus!

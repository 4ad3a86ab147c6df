//! League Client API helpers: request checks, Riot IDs read from client
//! data, op.gg links and the friends summary.
use vstd::prelude::*;

use vstd::utf8::encode_utf8;

use crate::json::{
    as_str, as_u64, get, get_str, items_view, json_serialize, json_view, lemma_items_view_index, lemma_items_view_len,
    serialize_json, JsonValue, JsonView,
};
use crate::text::utf8_str;
use vstd::utf8::{decode_utf8, valid_utf8};
use crate::text::{
    parse_u64, parse_u64_str, chars_of, concat2, contains, contains_char, find, has_char, lower_seq, lowercase, match_at, push_chars,
    push_str, rfind_char, seq_eq, slice_vec, starts_with, string_of, trim, trim_str, trim_vec, upper_seq,
    uppercase, is_ws, trim_start, trim_end,
};

verus! {

/// Why a League Client API request was refused before it was sent.
#[derive(Debug, Clone, PartialEq, Eq)]
pub enum LcuError {
    InvalidMethod,
    EmptyEndpoint,
    NotRelative,
    NotLcuPath,
    NoRiotId,
}

/// The text shown for a refused League Client API request.
pub open spec fn lcu_error_text(e: LcuError) -> Seq<char> {
    match e {
        LcuError::InvalidMethod => "Method must be GET, POST, PUT, PATCH, or DELETE."@,
        LcuError::EmptyEndpoint => "Choose a League Client API endpoint first."@,
        LcuError::NotRelative => "Only relative League Client API endpoints are allowed."@,
        LcuError::NotLcuPath => "Endpoint must be a relative League Client API path, like /lol-summoner/v1/current-summoner."@,
        LcuError::NoRiotId => "Unable to read your Riot ID from League Client. Open your profile once, then try again."@,
    }
}

impl LcuError {
    pub fn message(&self) -> (r: String)
        ensures
            r@ == lcu_error_text(*self),
    {
        match self {
            LcuError::InvalidMethod => "Method must be GET, POST, PUT, PATCH, or DELETE.".to_owned(),
            LcuError::EmptyEndpoint => "Choose a League Client API endpoint first.".to_owned(),
            LcuError::NotRelative => "Only relative League Client API endpoints are allowed.".to_owned(),
            LcuError::NotLcuPath => "Endpoint must be a relative League Client API path, like /lol-summoner/v1/current-summoner.".to_owned(),
            LcuError::NoRiotId => "Unable to read your Riot ID from League Client. Open your profile once, then try again.".to_owned(),
        }
    }
}

pub open spec fn string_result(r: Result<String, LcuError>) -> Result<Seq<char>, LcuError> {
    match r {
        Ok(s) => Ok(s@),
        Err(e) => Err(e),
    }
}

fn is(v: &[char], literal: &str) -> (r: bool)
    ensures
        r == (v@ == literal@),
{
    let l = chars_of(literal);
    seq_eq(v, l.as_slice())
}

fn begins(v: &[char], literal: &str) -> (r: bool)
    ensures
        r == starts_with(v@, literal@),
{
    let l = chars_of(literal);
    match_at(v, l.as_slice(), 0)
}

// ---------------------------------------------------------------------------
// Requests
// ---------------------------------------------------------------------------

pub open spec fn normalize_method_spec(method: Seq<char>) -> Result<Seq<char>, LcuError> {
    let m = upper_seq(trim(method));
    if m == "GET"@ || m == "POST"@ || m == "PUT"@ || m == "PATCH"@ || m == "DELETE"@ {
        Ok(m)
    } else {
        Err(LcuError::InvalidMethod)
    }
}

/// The HTTP method, trimmed and upper-cased; only GET, POST, PUT, PATCH and
/// DELETE are allowed.
pub fn normalize_method(method: &str) -> (r: Result<String, LcuError>)
    ensures
        string_result(r) == normalize_method_spec(method@),
{
    let v = chars_of(method);
    let t = trim_vec(v.as_slice());
    let m = uppercase(t.as_slice());
    if is(m.as_slice(), "GET") || is(m.as_slice(), "POST") || is(m.as_slice(), "PUT") || is(
        m.as_slice(),
        "PATCH",
    ) || is(m.as_slice(), "DELETE") {
        Ok(string_of(m.as_slice()))
    } else {
        Err(LcuError::InvalidMethod)
    }
}

/// The API path prefixes a request may use.
pub open spec fn lcu_prefix(e: Seq<char>) -> bool {
    starts_with(e, "/lol-"@) || starts_with(e, "/riotclient/"@) || starts_with(e, "/rso-auth/"@)
        || starts_with(e, "/entitlements/"@) || starts_with(e, "/chat/"@)
}

pub open spec fn normalize_endpoint_spec(endpoint: Seq<char>) -> Result<Seq<char>, LcuError> {
    let e = trim(endpoint);
    if e.len() == 0 {
        Err(LcuError::EmptyEndpoint)
    } else if starts_with(e, "http://"@) || starts_with(e, "https://"@) || starts_with(e, "//"@)
        || contains_char(e, '\\') || contains(e, ".."@) || contains_char(e, '#') {
        Err(LcuError::NotRelative)
    } else {
        let p = if starts_with(e, "/"@) {
            e
        } else {
            "/"@ + e
        };
        if lcu_prefix(p) {
            Ok(p)
        } else {
            Err(LcuError::NotLcuPath)
        }
    }
}

/// A League Client API endpoint: trimmed, relative (no scheme, `//`, `\`,
/// `..` or `#`), with a leading `/`, under one of the API's prefixes.
pub fn normalize_endpoint(endpoint: &str) -> (r: Result<String, LcuError>)
    ensures
        string_result(r) == normalize_endpoint_spec(endpoint@),
{
    let v = chars_of(endpoint);
    let e = trim_vec(v.as_slice());
    if e.len() == 0 {
        return Err(LcuError::EmptyEndpoint);
    }
    let dots = chars_of("..");
    if begins(e.as_slice(), "http://") || begins(e.as_slice(), "https://") || begins(
        e.as_slice(),
        "//",
    ) || has_char(e.as_slice(), '\\') || find(e.as_slice(), dots.as_slice()).is_some() || has_char(
        e.as_slice(),
        '#',
    ) {
        return Err(LcuError::NotRelative);
    }
    let p = if begins(e.as_slice(), "/") {
        string_of(e.as_slice())
    } else {
        let mut p = "/".to_owned();
        push_chars(&mut p, e.as_slice());
        p
    };
    let pv = chars_of(p.as_str());
    if begins(pv.as_slice(), "/lol-") || begins(pv.as_slice(), "/riotclient/") || begins(
        pv.as_slice(),
        "/rso-auth/",
    ) || begins(pv.as_slice(), "/entitlements/") || begins(pv.as_slice(), "/chat/") {
        Ok(p)
    } else {
        Err(LcuError::NotLcuPath)
    }
}

// ---------------------------------------------------------------------------
// Riot IDs
// ---------------------------------------------------------------------------

/// `s` split at its last `c`: the text before it and the text after it.
pub open spec fn split_last(s: Seq<char>, c: char) -> Option<(Seq<char>, Seq<char>)>
    decreases s.len(),
{
    if s.len() == 0 {
        None
    } else if s.last() == c {
        Some((s.drop_last(), seq![]))
    } else {
        match split_last(s.drop_last(), c) {
            Some(p) => Some((p.0, p.1.push(s.last()))),
            None => None,
        }
    }
}

proof fn lemma_split_last(s: Seq<char>, c: char, i: int)
    requires
        0 <= i < s.len(),
        s[i] == c,
        forall|k: int| i < k < s.len() ==> s[k] != c,
    ensures
        split_last(s, c) == Some((s.take(i), s.skip(i + 1))),
    decreases s.len(),
{
    if i < s.len() - 1 {
        lemma_split_last(s.drop_last(), c, i);
        assert(s.drop_last().take(i) =~= s.take(i));
        assert(s.drop_last().skip(i + 1).push(s.last()) =~= s.skip(i + 1));
    } else {
        assert(s.drop_last() =~= s.take(i));
        assert(s.skip(i + 1) =~= Seq::<char>::empty());
    }
}

proof fn lemma_split_last_none(s: Seq<char>, c: char)
    requires
        forall|k: int| 0 <= k < s.len() ==> s[k] != c,
    ensures
        split_last(s, c) is None,
    decreases s.len(),
{
    if s.len() > 0 {
        lemma_split_last_none(s.drop_last(), c);
    }
}

/// A `name#tag` Riot ID: split at the last `#`, both parts trimmed and not
/// empty.
pub open spec fn split_riot_id_spec(value: Seq<char>) -> Option<(Seq<char>, Seq<char>)> {
    match split_last(value, '#') {
        Some(p) => if trim(p.0).len() > 0 && trim(p.1).len() > 0 {
            Some((trim(p.0), trim(p.1)))
        } else {
            None
        },
        None => None,
    }
}

pub open spec fn pair_view(p: Option<(String, String)>) -> Option<(Seq<char>, Seq<char>)> {
    match p {
        Some(x) => Some((x.0@, x.1@)),
        None => None,
    }
}

pub fn split_riot_id(value: &str) -> (r: Option<(String, String)>)
    ensures
        pair_view(r) == split_riot_id_spec(value@),
{
    let v = chars_of(value);
    match rfind_char(v.as_slice(), '#') {
        Some(i) => {
            proof {
                lemma_split_last(v@, '#', i as int);
            }
            let a = slice_vec(v.as_slice(), 0, i);
            let b = slice_vec(v.as_slice(), i + 1, v.len());
            assert(a@ =~= v@.take(i as int));
            assert(b@ =~= v@.skip(i + 1));
            let ga = trim_vec(a.as_slice());
            let gb = trim_vec(b.as_slice());
            if ga.len() > 0 && gb.len() > 0 {
                Some((string_of(ga.as_slice()), string_of(gb.as_slice())))
            } else {
                None
            }
        },
        None => {
            proof {
                lemma_split_last_none(v@, '#');
            }
            None
        },
    }
}

pub open spec fn str_views(v: Seq<&str>) -> Seq<Seq<char>> {
    v.map_values(|s: &str| s@)
}

/// The first of `keys` that names a string member.
pub open spec fn first_str(json: JsonView, keys: Seq<Seq<char>>) -> Option<Seq<char>>
    decreases keys.len(),
{
    if keys.len() == 0 {
        None
    } else if get_str(json, keys[0]) is Some {
        get_str(json, keys[0])
    } else {
        first_str(json, keys.drop_first())
    }
}

pub open spec fn opt_chars(o: Option<String>) -> Option<Seq<char>> {
    match o {
        Some(s) => Some(s@),
        None => None,
    }
}

fn first_field(json: &JsonValue, keys: &[&str]) -> (r: Option<String>)
    ensures
        opt_chars(r) == first_str(json@, str_views(keys@)),
{
    let mut i: usize = 0;
    assert(str_views(keys@).skip(0) =~= str_views(keys@));
    while i < keys.len()
        invariant
            i <= keys@.len(),
            first_str(json@, str_views(keys@)) == first_str(json@, str_views(keys@).skip(i as int)),
        decreases keys@.len() - i,
    {
        let ghost rest = str_views(keys@).skip(i as int);
        assert(rest[0] == keys@[i as int]@);
        match json.get_str(keys[i]) {
            Some(s) => return Some(s.clone()),
            None => {},
        }
        assert(rest.drop_first() =~= str_views(keys@).skip(i + 1));
        i += 1;
    }
    None
}

pub open spec fn game_name_keys() -> Seq<Seq<char>> {
    seq!["gameName"@, "game_name"@, "riotIdGameName"@, "riot_id_game_name"@]
}

pub open spec fn tag_line_keys() -> Seq<Seq<char>> {
    seq![
        "tagLine"@,
        "tagline"@,
        "gameTag"@,
        "game_tag"@,
        "riotIdTagLine"@,
        "riotIdTagline"@,
        "riot_id_tag_line"@,
        "riot_id_tagline"@,
    ]
}

pub open spec fn display_name_keys() -> Seq<Seq<char>> {
    seq!["displayName"@, "summonerName"@, "name"@]
}

/// The Riot ID in a client object: its game name and tag line fields (the
/// first of each spelling that is present), both trimmed and not blank; else
/// a `name#tag` display name.
pub open spec fn riot_id_spec(json: JsonView) -> Option<(Seq<char>, Seq<char>)> {
    let g = first_str(json, game_name_keys());
    let t = first_str(json, tag_line_keys());
    if g is Some && t is Some && trim(g->0).len() > 0 && trim(t->0).len() > 0 {
        Some((trim(g->0), trim(t->0)))
    } else {
        match first_str(json, display_name_keys()) {
            Some(d) => split_riot_id_spec(d),
            None => None,
        }
    }
}

pub fn riot_id_from_value(body: &JsonValue) -> (r: Option<(String, String)>)
    ensures
        pair_view(r) == riot_id_spec(body@),
{
    let gk: [&str; 4] = ["gameName", "game_name", "riotIdGameName", "riot_id_game_name"];
    let tk: [&str; 8] = [
        "tagLine",
        "tagline",
        "gameTag",
        "game_tag",
        "riotIdTagLine",
        "riotIdTagline",
        "riot_id_tag_line",
        "riot_id_tagline",
    ];
    let dk: [&str; 3] = ["displayName", "summonerName", "name"];
    assert(str_views(gk@) =~= game_name_keys());
    assert(str_views(tk@) =~= tag_line_keys());
    assert(str_views(dk@) =~= display_name_keys());
    let g = first_field(body, &gk);
    let t = first_field(body, &tk);
    match (&g, &t) {
        (Some(g), Some(t)) => {
            let gt = trim_str(g.as_str());
            let tt = trim_str(t.as_str());
            if !gt.as_str().is_empty() && !tt.as_str().is_empty() {
                return Some((gt, tt));
            }
        },
        _ => {},
    }
    match first_field(body, &dk) {
        Some(d) => split_riot_id(d.as_str()),
        None => None,
    }
}

/// Your Riot ID, from the current-summoner object.
pub fn current_summoner_riot_id(body: &JsonValue) -> (r: Result<(String, String), LcuError>)
    ensures
        match riot_id_spec(body@) {
            Some(id) => r matches Ok(p) && p.0@ == id.0 && p.1@ == id.1,
            None => r == Err::<(String, String), LcuError>(LcuError::NoRiotId),
        },
{
    match riot_id_from_value(body) {
        Some(id) => Ok(id),
        None => Err(LcuError::NoRiotId),
    }
}

/// The key two Riot IDs are told apart by: both parts lower-cased, joined by `#`.
pub open spec fn riot_id_key(id: (Seq<char>, Seq<char>)) -> Seq<char> {
    lower_seq(id.0) + "#"@ + lower_seq(id.1)
}

pub open spec fn has_key(ids: Seq<(Seq<char>, Seq<char>)>, key: Seq<char>) -> bool {
    exists|j: int| 0 <= j < ids.len() && riot_id_key(ids[j]) == key
}

/// The Riot IDs in order, each kept only at its first occurrence (by key).
pub open spec fn dedupe_spec(ids: Seq<(Seq<char>, Seq<char>)>) -> Seq<(Seq<char>, Seq<char>)>
    decreases ids.len(),
{
    if ids.len() == 0 {
        seq![]
    } else {
        let prev = dedupe_spec(ids.drop_last());
        if has_key(prev, riot_id_key(ids.last())) {
            prev
        } else {
            prev.push(ids.last())
        }
    }
}

pub open spec fn id_views(v: Seq<(String, String)>) -> Seq<(Seq<char>, Seq<char>)> {
    v.map_values(|p: (String, String)| (p.0@, p.1@))
}

fn key_of(id: &(String, String)) -> (r: Vec<char>)
    ensures
        r@ == riot_id_key((id.0@, id.1@)),
{
    let a = chars_of(id.0.as_str());
    let b = chars_of(id.1.as_str());
    let mut k = lowercase(a.as_slice());
    k.push('#');
    let lb = lowercase(b.as_slice());
    let mut i: usize = 0;
    let ghost base = k@;
    while i < lb.len()
        invariant
            i <= lb@.len(),
            k@ == base + lb@.take(i as int),
        decreases lb@.len() - i,
    {
        k.push(lb[i]);
        assert(lb@.take(i + 1) =~= lb@.take(i as int).push(lb@[i as int]));
        i += 1;
    }
    assert(lb@.take(lb@.len() as int) =~= lb@);
    assert(base =~= lower_seq(id.0@) + "#"@) by {
        reveal_strlit("#");
    }
    k
}

/// No two Riot IDs left by `dedupe_spec` share a key, and each kept ID came
/// from the input.
pub proof fn lemma_dedupe_distinct(ids: Seq<(Seq<char>, Seq<char>)>)
    ensures
        forall|i: int, j: int|
            0 <= i < j < dedupe_spec(ids).len() ==> riot_id_key(#[trigger] dedupe_spec(ids)[i])
                != riot_id_key(#[trigger] dedupe_spec(ids)[j]),
        forall|i: int| 0 <= i < dedupe_spec(ids).len() ==> ids.contains(#[trigger] dedupe_spec(ids)[i]),
    decreases ids.len(),
{
    if ids.len() > 0 {
        let prev = ids.drop_last();
        lemma_dedupe_distinct(prev);
        let p = dedupe_spec(prev);
        let r = dedupe_spec(ids);
        if !has_key(p, riot_id_key(ids.last())) {
            assert forall|i: int, j: int| 0 <= i < j < r.len() implies riot_id_key(#[trigger] r[i])
                != riot_id_key(#[trigger] r[j]) by {
                if j == p.len() {
                    assert(r[i] == p[i]);
                    if riot_id_key(p[i]) == riot_id_key(ids.last()) {
                        assert(has_key(p, riot_id_key(ids.last())));
                    }
                } else {
                    assert(r[i] == p[i]);
                    assert(r[j] == p[j]);
                }
            }
            assert forall|i: int| 0 <= i < r.len() implies ids.contains(#[trigger] r[i]) by {
                if i < p.len() {
                    assert(r[i] == p[i]);
                    assert(prev.contains(p[i]));
                    let k = choose|k: int| 0 <= k < prev.len() && prev[k] == p[i];
                    assert(ids[k] == prev[k]);
                } else {
                    assert(ids[ids.len() - 1] == ids.last());
                }
            }
        } else {
            assert forall|i: int| 0 <= i < r.len() implies ids.contains(#[trigger] r[i]) by {
                assert(prev.contains(p[i]));
                let k = choose|k: int| 0 <= k < prev.len() && prev[k] == p[i];
                assert(ids[k] == prev[k]);
            }
        }
    }
}

/// Drops every Riot ID whose key occurred before, keeping the order.
pub fn dedupe_riot_ids(ids: &mut Vec<(String, String)>)
    ensures
        id_views(final(ids)@) == dedupe_spec(id_views(old(ids)@)),
{
    let ghost orig = id_views(ids@);
    let mut kept: Vec<(String, String)> = Vec::new();
    let mut keys: Vec<Vec<char>> = Vec::new();
    let mut i: usize = 0;
    while i < ids.len()
        invariant
            i <= ids@.len(),
            orig == id_views(ids@),
            id_views(kept@) == dedupe_spec(orig.take(i as int)),
            keys@.len() == kept@.len(),
            forall|j: int| 0 <= j < keys@.len() ==> #[trigger] keys@[j]@ == riot_id_key(id_views(kept@)[j]),
        decreases ids@.len() - i,
    {
        let key = key_of(&ids[i]);
        let ghost prev = id_views(kept@);
        assert(orig.take(i + 1).drop_last() =~= orig.take(i as int));
        assert(orig.take(i + 1).last() == (ids@[i as int].0@, ids@[i as int].1@));
        let mut found = false;
        let mut j: usize = 0;
        while j < keys.len()
            invariant
                j <= keys@.len() == prev.len(),
                forall|m: int| 0 <= m < keys@.len() ==> #[trigger] keys@[m]@ == riot_id_key(prev[m]),
                found <==> exists|m: int| 0 <= m < j && riot_id_key(prev[m]) == key@,
            decreases keys@.len() - j,
        {
            if seq_eq(keys[j].as_slice(), key.as_slice()) {
                found = true;
            }
            j += 1;
        }
        if !found {
            let id = (ids[i].0.clone(), ids[i].1.clone());
            kept.push(id);
            keys.push(key);
            assert(id_views(kept@) =~= prev.push((ids@[i as int].0@, ids@[i as int].1@)));
        }
        i += 1;
    }
    assert(orig.take(ids@.len() as int) =~= orig);
    *ids = kept;
}

/// A participant of a League chat room.
#[derive(Debug, Clone)]
pub struct ChatParticipant {
    pub cid: String,
    pub game_name: String,
    pub game_tag: String,
    pub name: String,
}

pub open spec fn participant_riot_id(p: ChatParticipant) -> Option<(Seq<char>, Seq<char>)> {
    if trim(p.game_name@).len() > 0 && trim(p.game_tag@).len() > 0 {
        Some((trim(p.game_name@), trim(p.game_tag@)))
    } else {
        split_riot_id_spec(p.name@)
    }
}

/// The Riot IDs of the champ-select chat's participants, in order, without
/// repeats.
pub open spec fn chat_participant_ids(ps: Seq<ChatParticipant>) -> Seq<(Seq<char>, Seq<char>)>
    decreases ps.len(),
{
    if ps.len() == 0 {
        seq![]
    } else {
        let prev = chat_participant_ids(ps.drop_last());
        let p = ps.last();
        if contains(p.cid@, "champ-select"@) && participant_riot_id(p) is Some {
            prev.push(participant_riot_id(p)->0)
        } else {
            prev
        }
    }
}

pub fn riot_ids_from_chat_participants(participants: &[ChatParticipant]) -> (r: Vec<(String, String)>)
    ensures
        id_views(r@) == dedupe_spec(chat_participant_ids(participants@)),
{
    let mut ids: Vec<(String, String)> = Vec::new();
    let mut i: usize = 0;
    while i < participants.len()
        invariant
            i <= participants@.len(),
            id_views(ids@) == chat_participant_ids(participants@.take(i as int)),
        decreases participants@.len() - i,
    {
        let p = &participants[i];
        assert(participants@.take(i + 1).drop_last() =~= participants@.take(i as int));
        let ghost prev = id_views(ids@);
        if crate::text::str_contains(p.cid.as_str(), "champ-select") {
            let g = trim_str(p.game_name.as_str());
            let t = trim_str(p.game_tag.as_str());
            let id = if !g.as_str().is_empty() && !t.as_str().is_empty() {
                Some((g, t))
            } else {
                split_riot_id(p.name.as_str())
            };
            match id {
                Some(id) => {
                    ids.push(id);
                    assert(id_views(ids@) =~= prev.push(participant_riot_id(*p)->0));
                },
                None => {},
            }
        }
        i += 1;
    }
    assert(participants@.take(participants@.len() as int) =~= participants@);
    dedupe_riot_ids(&mut ids);
    ids
}

/// A player of your champ-select team.
#[derive(Debug, Clone)]
pub struct ChampSelectPlayer {
    pub game_name: String,
    pub tag_line: String,
    pub summoner_id: u64,
}

pub open spec fn player_riot_id(p: ChampSelectPlayer) -> Option<(Seq<char>, Seq<char>)> {
    if trim(p.game_name@).len() > 0 && trim(p.tag_line@).len() > 0 {
        Some((trim(p.game_name@), trim(p.tag_line@)))
    } else {
        None
    }
}

pub open spec fn player_ids(ps: Seq<ChampSelectPlayer>) -> Seq<(Seq<char>, Seq<char>)>
    decreases ps.len(),
{
    if ps.len() == 0 {
        seq![]
    } else {
        let prev = player_ids(ps.drop_last());
        if player_riot_id(ps.last()) is Some {
            prev.push(player_riot_id(ps.last())->0)
        } else {
            prev
        }
    }
}

/// The Riot IDs of your champ-select team, in order, without repeats.
pub fn riot_ids_from_champ_select_players(players: &[ChampSelectPlayer]) -> (r: Vec<(String, String)>)
    ensures
        id_views(r@) == dedupe_spec(player_ids(players@)),
{
    let mut ids: Vec<(String, String)> = Vec::new();
    let mut i: usize = 0;
    while i < players.len()
        invariant
            i <= players@.len(),
            id_views(ids@) == player_ids(players@.take(i as int)),
        decreases players@.len() - i,
    {
        let p = &players[i];
        assert(players@.take(i + 1).drop_last() =~= players@.take(i as int));
        let ghost prev = id_views(ids@);
        let g = trim_str(p.game_name.as_str());
        let t = trim_str(p.tag_line.as_str());
        if !g.as_str().is_empty() && !t.as_str().is_empty() {
            ids.push((g, t));
            assert(id_views(ids@) =~= prev.push(player_riot_id(*p)->0));
        }
        i += 1;
    }
    assert(players@.take(players@.len() as int) =~= players@);
    dedupe_riot_ids(&mut ids);
    ids
}

/// The Riot IDs of a champ-select session's own team (`myTeam`), in order,
/// without repeats.
pub open spec fn session_ids(items: Seq<JsonView>) -> Seq<(Seq<char>, Seq<char>)>
    decreases items.len(),
{
    if items.len() == 0 {
        seq![]
    } else {
        let prev = session_ids(items.drop_last());
        match riot_id_spec(items.last()) {
            Some(id) => prev.push(id),
            None => prev,
        }
    }
}

pub open spec fn array_field(json: JsonView, key: Seq<char>) -> Seq<JsonView> {
    match get(json, key) {
        Some(JsonView::Array(items)) => items,
        _ => seq![],
    }
}

fn array_of<'a>(json: &'a JsonValue, key: &str) -> (r: &'a [JsonValue])
    ensures
        items_view(r@) == array_field(json@, key@),
{
    match json.get(key) {
        Some(JsonValue::Array(items)) => items.as_slice(),
        _ => {
            let empty: &[JsonValue] = &[];
            assert(items_view(empty@) =~= Seq::<JsonView>::empty());
            empty
        },
    }
}

pub fn riot_ids_from_champ_select_session(body: &JsonValue) -> (r: Vec<(String, String)>)
    ensures
        id_views(r@) == dedupe_spec(session_ids(array_field(body@, "myTeam"@))),
{
    let items = array_of(body, "myTeam");
    let mut ids: Vec<(String, String)> = Vec::new();
    let mut i: usize = 0;
    proof {
        lemma_items_view_len(items@);
    }
    while i < items.len()
        invariant
            i <= items@.len() == items_view(items@).len(),
            id_views(ids@) == session_ids(items_view(items@).take(i as int)),
        decreases items@.len() - i,
    {
        proof {
            lemma_items_view_index(items@, i as int);
            assert(items_view(items@).take(i + 1).drop_last() =~= items_view(items@).take(i as int));
        }
        let ghost prev = id_views(ids@);
        match riot_id_from_value(&items[i]) {
            Some(id) => {
                ids.push(id);
                assert(id_views(ids@) =~= prev.push(riot_id_spec(json_view(items@[i as int]))->0));
            },
            None => {},
        }
        i += 1;
    }
    assert(items_view(items@).take(items@.len() as int) =~= items_view(items@));
    dedupe_riot_ids(&mut ids);
    ids
}

// ---------------------------------------------------------------------------
// op.gg links
// ---------------------------------------------------------------------------

/// Bytes written as themselves in a URL: ASCII letters and digits and `-_.~`.
pub open spec fn unreserved(b: u8) -> bool {
    (48 <= b <= 57) || (65 <= b <= 90) || (97 <= b <= 122) || b == 45 || b == 95 || b == 46 || b == 126
}

/// An upper-case hexadecimal digit.
pub open spec fn hex_digit(d: u8) -> char {
    if d < 10 {
        ((48 + d) as u8) as char
    } else {
        ((55 + d) as u8) as char
    }
}

pub open spec fn encode_byte(b: u8) -> Seq<char> {
    if unreserved(b) {
        seq![b as char]
    } else {
        seq!['%', hex_digit(b / 16), hex_digit(b % 16)]
    }
}

/// Percent-encoding of some bytes: unreserved bytes as themselves, every
/// other byte as `%` and two upper-case hexadecimal digits.
pub open spec fn percent_encoded(bytes: Seq<u8>) -> Seq<char>
    decreases bytes.len(),
{
    if bytes.len() == 0 {
        seq![]
    } else {
        percent_encoded(bytes.drop_last()) + encode_byte(bytes.last())
    }
}

fn hex_char(d: u8) -> (c: char)
    requires
        d < 16,
    ensures
        c == hex_digit(d),
{
    if d < 10 {
        let b: u8 = 48 + d;
        b as char
    } else {
        let b: u8 = 55 + d;
        b as char
    }
}

fn percent_encode(value: &str) -> (r: String)
    ensures
        r@ == percent_encoded(encode_utf8(value@)),
{
    let bytes = value.as_bytes();
    let mut out = String::new();
    let mut i: usize = 0;
    while i < bytes.len()
        invariant
            i <= bytes@.len(),
            out@ == percent_encoded(bytes@.take(i as int)),
        decreases bytes@.len() - i,
    {
        let b = bytes[i];
        assert(bytes@.take(i + 1).drop_last() =~= bytes@.take(i as int));
        let ghost prev = out@;
        if (48 <= b && b <= 57) || (65 <= b && b <= 90) || (97 <= b && b <= 122) || b == 45 || b
            == 95 || b == 46 || b == 126 {
            crate::external::push_char(&mut out, b as char);
            assert(out@ =~= prev + encode_byte(b));
        } else {
            crate::external::push_char(&mut out, '%');
            crate::external::push_char(&mut out, hex_char(b / 16));
            crate::external::push_char(&mut out, hex_char(b % 16));
            assert(out@ =~= prev + encode_byte(b));
        }
        i += 1;
    }
    assert(bytes@.take(bytes@.len() as int) =~= bytes@);
    out
}

/// A path segment, percent-encoded.
pub fn percent_encode_path_segment(value: &str) -> (r: String)
    ensures
        r@ == percent_encoded(encode_utf8(value@)),
{
    percent_encode(value)
}

/// A query component, percent-encoded.
pub fn percent_encode_query_component(value: &str) -> (r: String)
    ensures
        r@ == percent_encoded(encode_utf8(value@)),
{
    percent_encode(value)
}

/// The op.gg name of a League region, read trimmed and in any case; an
/// unknown region is passed on in lower case.
pub open spec fn region_slug_spec(region: Seq<char>) -> Seq<char> {
    let n = upper_seq(trim(region));
    if n == "BR"@ || n == "BR1"@ {
        "br"@
    } else if n == "EUN"@ || n == "EUN1"@ || n == "EUNE"@ {
        "eune"@
    } else if n == "EUW"@ || n == "EUW1"@ {
        "euw"@
    } else if n == "JP"@ || n == "JP1"@ {
        "jp"@
    } else if n == "KR"@ {
        "kr"@
    } else if n == "LA1"@ || n == "LAN"@ {
        "lan"@
    } else if n == "LA2"@ || n == "LAS"@ {
        "las"@
    } else if n == "NA"@ || n == "NA1"@ {
        "na"@
    } else if n == "OC"@ || n == "OC1"@ || n == "OCE"@ {
        "oce"@
    } else if n == "PBE"@ || n == "PBE1"@ {
        "pbe"@
    } else if n == "RU"@ {
        "ru"@
    } else if n == "TR"@ || n == "TR1"@ {
        "tr"@
    } else {
        lower_seq(n)
    }
}

proof fn lemma_region_code_as_written(s: Seq<char>)
    requires
        s.len() > 0,
        forall|k: int| 0 <= k < s.len() ==> ('A' <= #[trigger] s[k] <= 'Z') || ('0' <= s[k] <= '9'),
    ensures
        upper_seq(trim(s)) == s,
{
    assert(!is_ws(s[0]));
    assert(!is_ws(s.last()));
    assert(trim_start(s) == s);
    assert(trim_end(s) == s);
    assert(upper_seq(s) =~= s);
}

/// Each League region, by its short name or its server id, opens op.gg's
/// page for that region: Latin America North (`LAN`, `LA1`) is `lan` and
/// Latin America South (`LAS`, `LA2`) is `las`, Europe Nordic & East
/// (`EUN`, `EUNE`, `EUN1`) is `eune`, Oceania (`OC`, `OCE`, `OC1`) is `oce`,
/// and the others are their short names in lower case.
pub proof fn lemma_region_slugs()
    ensures
        region_slug_spec("BR"@) == "br"@,
        region_slug_spec("BR1"@) == "br"@,
        region_slug_spec("EUN"@) == "eune"@,
        region_slug_spec("EUN1"@) == "eune"@,
        region_slug_spec("EUNE"@) == "eune"@,
        region_slug_spec("EUW"@) == "euw"@,
        region_slug_spec("EUW1"@) == "euw"@,
        region_slug_spec("JP"@) == "jp"@,
        region_slug_spec("JP1"@) == "jp"@,
        region_slug_spec("KR"@) == "kr"@,
        region_slug_spec("LA1"@) == "lan"@,
        region_slug_spec("LAN"@) == "lan"@,
        region_slug_spec("LA2"@) == "las"@,
        region_slug_spec("LAS"@) == "las"@,
        region_slug_spec("NA"@) == "na"@,
        region_slug_spec("NA1"@) == "na"@,
        region_slug_spec("OC"@) == "oce"@,
        region_slug_spec("OC1"@) == "oce"@,
        region_slug_spec("OCE"@) == "oce"@,
        region_slug_spec("PBE"@) == "pbe"@,
        region_slug_spec("PBE1"@) == "pbe"@,
        region_slug_spec("RU"@) == "ru"@,
        region_slug_spec("TR"@) == "tr"@,
        region_slug_spec("TR1"@) == "tr"@,
{
    reveal_strlit("BR");
    reveal_strlit("BR1");
    reveal_strlit("EUN");
    reveal_strlit("EUN1");
    reveal_strlit("EUNE");
    reveal_strlit("EUW");
    reveal_strlit("EUW1");
    reveal_strlit("JP");
    reveal_strlit("JP1");
    reveal_strlit("KR");
    reveal_strlit("LA1");
    reveal_strlit("LAN");
    reveal_strlit("LA2");
    reveal_strlit("LAS");
    reveal_strlit("NA");
    reveal_strlit("NA1");
    reveal_strlit("OC");
    reveal_strlit("OC1");
    reveal_strlit("OCE");
    reveal_strlit("PBE");
    reveal_strlit("PBE1");
    reveal_strlit("RU");
    reveal_strlit("TR");
    reveal_strlit("TR1");
    assert("BR"@.len() == 2 && "BR"@[0] == 'B' && "BR"@[1] == 'R');
    assert("BR1"@.len() == 3 && "BR1"@[0] == 'B' && "BR1"@[1] == 'R' && "BR1"@[2] == '1');
    assert("EUN"@.len() == 3 && "EUN"@[0] == 'E' && "EUN"@[1] == 'U' && "EUN"@[2] == 'N');
    assert("EUN1"@.len() == 4 && "EUN1"@[0] == 'E' && "EUN1"@[1] == 'U' && "EUN1"@[2] == 'N' && "EUN1"@[3] == '1');
    assert("EUNE"@.len() == 4 && "EUNE"@[0] == 'E' && "EUNE"@[1] == 'U' && "EUNE"@[2] == 'N' && "EUNE"@[3] == 'E');
    assert("EUW"@.len() == 3 && "EUW"@[0] == 'E' && "EUW"@[1] == 'U' && "EUW"@[2] == 'W');
    assert("EUW1"@.len() == 4 && "EUW1"@[0] == 'E' && "EUW1"@[1] == 'U' && "EUW1"@[2] == 'W' && "EUW1"@[3] == '1');
    assert("JP"@.len() == 2 && "JP"@[0] == 'J' && "JP"@[1] == 'P');
    assert("JP1"@.len() == 3 && "JP1"@[0] == 'J' && "JP1"@[1] == 'P' && "JP1"@[2] == '1');
    assert("KR"@.len() == 2 && "KR"@[0] == 'K' && "KR"@[1] == 'R');
    assert("LA1"@.len() == 3 && "LA1"@[0] == 'L' && "LA1"@[1] == 'A' && "LA1"@[2] == '1');
    assert("LAN"@.len() == 3 && "LAN"@[0] == 'L' && "LAN"@[1] == 'A' && "LAN"@[2] == 'N');
    assert("LA2"@.len() == 3 && "LA2"@[0] == 'L' && "LA2"@[1] == 'A' && "LA2"@[2] == '2');
    assert("LAS"@.len() == 3 && "LAS"@[0] == 'L' && "LAS"@[1] == 'A' && "LAS"@[2] == 'S');
    assert("NA"@.len() == 2 && "NA"@[0] == 'N' && "NA"@[1] == 'A');
    assert("NA1"@.len() == 3 && "NA1"@[0] == 'N' && "NA1"@[1] == 'A' && "NA1"@[2] == '1');
    assert("OC"@.len() == 2 && "OC"@[0] == 'O' && "OC"@[1] == 'C');
    assert("OC1"@.len() == 3 && "OC1"@[0] == 'O' && "OC1"@[1] == 'C' && "OC1"@[2] == '1');
    assert("OCE"@.len() == 3 && "OCE"@[0] == 'O' && "OCE"@[1] == 'C' && "OCE"@[2] == 'E');
    assert("PBE"@.len() == 3 && "PBE"@[0] == 'P' && "PBE"@[1] == 'B' && "PBE"@[2] == 'E');
    assert("PBE1"@.len() == 4 && "PBE1"@[0] == 'P' && "PBE1"@[1] == 'B' && "PBE1"@[2] == 'E' && "PBE1"@[3] == '1');
    assert("RU"@.len() == 2 && "RU"@[0] == 'R' && "RU"@[1] == 'U');
    assert("TR"@.len() == 2 && "TR"@[0] == 'T' && "TR"@[1] == 'R');
    assert("TR1"@.len() == 3 && "TR1"@[0] == 'T' && "TR1"@[1] == 'R' && "TR1"@[2] == '1');
    lemma_region_code_as_written("BR"@);
    lemma_region_code_as_written("BR1"@);
    lemma_region_code_as_written("EUN"@);
    lemma_region_code_as_written("EUN1"@);
    lemma_region_code_as_written("EUNE"@);
    lemma_region_code_as_written("EUW"@);
    lemma_region_code_as_written("EUW1"@);
    lemma_region_code_as_written("JP"@);
    lemma_region_code_as_written("JP1"@);
    lemma_region_code_as_written("KR"@);
    lemma_region_code_as_written("LA1"@);
    lemma_region_code_as_written("LAN"@);
    lemma_region_code_as_written("LA2"@);
    lemma_region_code_as_written("LAS"@);
    lemma_region_code_as_written("NA"@);
    lemma_region_code_as_written("NA1"@);
    lemma_region_code_as_written("OC"@);
    lemma_region_code_as_written("OC1"@);
    lemma_region_code_as_written("OCE"@);
    lemma_region_code_as_written("PBE"@);
    lemma_region_code_as_written("PBE1"@);
    lemma_region_code_as_written("RU"@);
    lemma_region_code_as_written("TR"@);
    lemma_region_code_as_written("TR1"@);
}

/// A region that is none of the known codes (read trimmed and in any case)
/// is passed on to op.gg as written, in lower case.
pub proof fn lemma_unknown_region_kept(region: Seq<char>)
    ensures
        ({
            let n = upper_seq(trim(region));
            n != "BR"@ && n != "BR1"@ && n != "EUN"@ && n != "EUN1"@ && n != "EUNE"@ && n != "EUW"@ && n != "EUW1"@ && n != "JP"@ && n != "JP1"@ && n != "KR"@ && n != "LA1"@ && n != "LAN"@ && n != "LA2"@ && n != "LAS"@ && n != "NA"@ && n != "NA1"@ && n != "OC"@ && n != "OC1"@ && n != "OCE"@ && n != "PBE"@ && n != "PBE1"@ && n != "RU"@ && n != "TR"@ && n != "TR1"@ ==> region_slug_spec(region) == lower_seq(n)
        }),
{
}

pub fn opgg_region_slug(region: &str) -> (r: String)
    ensures
        r@ == region_slug_spec(region@),
{
    let v = chars_of(region);
    let t = trim_vec(v.as_slice());
    let n = uppercase(t.as_slice());
    let n = n.as_slice();
    if is(n, "BR") || is(n, "BR1") {
        "br".to_owned()
    } else if is(n, "EUN") || is(n, "EUN1") || is(n, "EUNE") {
        "eune".to_owned()
    } else if is(n, "EUW") || is(n, "EUW1") {
        "euw".to_owned()
    } else if is(n, "JP") || is(n, "JP1") {
        "jp".to_owned()
    } else if is(n, "KR") {
        "kr".to_owned()
    } else if is(n, "LA1") || is(n, "LAN") {
        "lan".to_owned()
    } else if is(n, "LA2") || is(n, "LAS") {
        "las".to_owned()
    } else if is(n, "NA") || is(n, "NA1") {
        "na".to_owned()
    } else if is(n, "OC") || is(n, "OC1") || is(n, "OCE") {
        "oce".to_owned()
    } else if is(n, "PBE") || is(n, "PBE1") {
        "pbe".to_owned()
    } else if is(n, "RU") {
        "ru".to_owned()
    } else if is(n, "TR") || is(n, "TR1") {
        "tr".to_owned()
    } else {
        let l = lowercase(n);
        string_of(l.as_slice())
    }
}

/// The op.gg profile of a Riot ID.
pub open spec fn summoner_link_spec(region: Seq<char>, game_name: Seq<char>, tag_line: Seq<char>) -> Seq<
    char,
> {
    "https://www.op.gg/summoners/"@ + region_slug_spec(region) + "/"@ + percent_encoded(
        encode_utf8(trim(game_name)),
    ) + "-"@ + percent_encoded(encode_utf8(trim(tag_line)))
}

pub fn build_opgg_summoner_link(region: &str, game_name: &str, tag_line: &str) -> (r: String)
    ensures
        r@ == summoner_link_spec(region@, game_name@, tag_line@),
{
    let mut link = "https://www.op.gg/summoners/".to_owned();
    let slug = opgg_region_slug(region);
    push_str(&mut link, slug.as_str());
    push_str(&mut link, "/");
    let g = trim_str(game_name);
    let ge = percent_encode_path_segment(g.as_str());
    push_str(&mut link, ge.as_str());
    push_str(&mut link, "-");
    let t = trim_str(tag_line);
    let te = percent_encode_path_segment(t.as_str());
    push_str(&mut link, te.as_str());
    link
}

/// A Riot ID as `name#tag`, both parts trimmed.
pub open spec fn riot_id_text(id: (Seq<char>, Seq<char>)) -> Seq<char> {
    trim(id.0) + "#"@ + trim(id.1)
}

/// Riot IDs as text, joined by `,`.
pub open spec fn joined_ids(ids: Seq<(Seq<char>, Seq<char>)>) -> Seq<char>
    decreases ids.len(),
{
    if ids.len() == 0 {
        seq![]
    } else if ids.len() == 1 {
        riot_id_text(ids[0])
    } else {
        joined_ids(ids.drop_last()) + ","@ + riot_id_text(ids.last())
    }
}

/// The op.gg multi-search of some Riot IDs.
pub open spec fn multisearch_link_spec(region: Seq<char>, ids: Seq<(Seq<char>, Seq<char>)>) -> Seq<char> {
    "https://op.gg/lol/multisearch?summoners="@ + percent_encoded(encode_utf8(joined_ids(ids)))
        + "&region="@ + region_slug_spec(region)
}

pub fn build_opgg_multisearch_link(region: &str, summoners: &[(String, String)]) -> (r: String)
    ensures
        r@ == multisearch_link_spec(region@, id_views(summoners@)),
{
    let mut joined = String::new();
    let mut i: usize = 0;
    while i < summoners.len()
        invariant
            i <= summoners@.len(),
            joined@ == joined_ids(id_views(summoners@).take(i as int)),
        decreases summoners@.len() - i,
    {
        let ghost ids = id_views(summoners@).take(i + 1);
        assert(ids.drop_last() =~= id_views(summoners@).take(i as int));
        assert(ids.last() == (summoners@[i as int].0@, summoners@[i as int].1@));
        if i > 0 {
            push_str(&mut joined, ",");
        }
        let g = trim_str(summoners[i].0.as_str());
        let t = trim_str(summoners[i].1.as_str());
        push_str(&mut joined, g.as_str());
        push_str(&mut joined, "#");
        push_str(&mut joined, t.as_str());
        proof {
            if i == 0 {
                assert(ids.len() == 1);
                assert(ids[0] == ids.last());
            }
        }
        i += 1;
    }
    assert(id_views(summoners@).take(summoners@.len() as int) =~= id_views(summoners@));
    let mut link = "https://op.gg/lol/multisearch?summoners=".to_owned();
    let enc = percent_encode_query_component(joined.as_str());
    push_str(&mut link, enc.as_str());
    push_str(&mut link, "&region=");
    let slug = opgg_region_slug(region);
    push_str(&mut link, slug.as_str());
    link
}

// ---------------------------------------------------------------------------
// Summoner ids
// ---------------------------------------------------------------------------

/// The summoner id of a client object: its `summonerId` field (else its
/// `summoner_id` field) as a number, or as text holding one.
pub open spec fn summoner_id_spec(v: JsonView) -> Option<u64> {
    let f = match get(v, "summonerId"@) {
        Some(x) => Some(x),
        None => get(v, "summoner_id"@),
    };
    match f {
        Some(x) => match as_u64(x) {
            Some(n) => Some(n),
            None => match as_str(x) {
                Some(t) => parse_u64(t),
                None => None,
            },
        },
        None => None,
    }
}

pub fn summoner_id_from_value(body: &JsonValue) -> (r: Option<u64>)
    ensures
        r == summoner_id_spec(body@),
{
    let field = match body.get("summonerId") {
        Some(x) => Some(x),
        None => body.get("summoner_id"),
    };
    match field {
        Some(x) => match x.as_u64() {
            Some(n) => Some(n),
            None => match x.as_str() {
                Some(t) => parse_u64_str(t.as_str()),
                None => None,
            },
        },
        None => None,
    }
}

/// The summoner ids of some client objects, in order, where they have one.
pub open spec fn summoner_ids_of(items: Seq<JsonView>) -> Seq<u64>
    decreases items.len(),
{
    if items.len() == 0 {
        seq![]
    } else {
        let prev = summoner_ids_of(items.drop_last());
        match summoner_id_spec(items.last()) {
            Some(n) => prev.push(n),
            None => prev,
        }
    }
}

/// `r` holds exactly the numbers of `ids`, each once, in increasing order.
pub open spec fn sorted_distinct_of(r: Seq<u64>, ids: Seq<u64>) -> bool {
    &&& forall|i: int, j: int| 0 <= i < j < r.len() ==> r[i] < r[j]
    &&& forall|x: u64| r.contains(x) <==> ids.contains(x)
}

/// Adds `x` to a vector kept increasing without repeats.
fn insert_sorted(v: &mut Vec<u64>, x: u64)
    requires
        forall|i: int, j: int| 0 <= i < j < old(v)@.len() ==> old(v)@[i] < old(v)@[j],
    ensures
        forall|i: int, j: int| 0 <= i < j < final(v)@.len() ==> final(v)@[i] < final(v)@[j],
        forall|y: u64| final(v)@.contains(y) <==> (old(v)@.contains(y) || y == x),
{
    let mut i: usize = 0;
    while i < v.len() && v[i] < x
        invariant
            i <= v@.len(),
            v@ == old(v)@,
            forall|k: int| 0 <= k < i ==> v@[k] < x,
        decreases v@.len() - i,
    {
        i += 1;
    }
    if i < v.len() && v[i] == x {
        assert forall|y: u64| v@.contains(y) <==> (old(v)@.contains(y) || y == x) by {
            if y == x {
                assert(v@[i as int] == x);
            }
        }
        return;
    }
    let ghost before = v@;
    assert(before == old(v)@);
    v.insert(i, x);
    assert forall|y: u64| v@.contains(y) <==> (before.contains(y) || y == x) by {
        if v@.contains(y) {
            let k = choose|k: int| 0 <= k < v@.len() && v@[k] == y;
            if k < i {
                assert(before[k] == y);
            } else if k > i {
                assert(before[k - 1] == y);
            }
        }
        if before.contains(y) {
            let k = choose|k: int| 0 <= k < before.len() && before[k] == y;
            if k < i {
                assert(v@[k] == y);
            } else {
                assert(v@[k + 1] == y);
            }
        }
        if y == x {
            assert(v@[i as int] == x);
        }
    }
    assert(forall|y: u64| v@.contains(y) <==> (old(v)@.contains(y) || y == x));
}

/// The summoner ids in an array field of a client object, increasing, each
/// once.
pub fn summoner_ids_from_array_field(body: &JsonValue, field: &str) -> (r: Vec<u64>)
    ensures
        sorted_distinct_of(r@, summoner_ids_of(array_field(body@, field@))),
{
    let items = array_of(body, field);
    let ghost all = summoner_ids_of(items_view(items@));
    let mut ids: Vec<u64> = Vec::new();
    let mut i: usize = 0;
    proof {
        lemma_items_view_len(items@);
    }
    while i < items.len()
        invariant
            i <= items@.len() == items_view(items@).len(),
            all == summoner_ids_of(items_view(items@)),
            sorted_distinct_of(ids@, summoner_ids_of(items_view(items@).take(i as int))),
        decreases items@.len() - i,
    {
        let ghost seen = summoner_ids_of(items_view(items@).take(i as int));
        proof {
            lemma_items_view_index(items@, i as int);
            assert(items_view(items@).take(i + 1).drop_last() =~= items_view(items@).take(i as int));
        }
        match summoner_id_from_value(&items[i]) {
            Some(n) => {
                insert_sorted(&mut ids, n);
                assert forall|y: u64| ids@.contains(y) <==> seen.push(n).contains(y) by {
                    if seen.push(n).contains(y) && y != n {
                        let k = choose|k: int| 0 <= k < seen.push(n).len() && seen.push(n)[k] == y;
                        assert(seen[k] == y);
                    }
                    if seen.contains(y) {
                        let k = choose|k: int| 0 <= k < seen.len() && seen[k] == y;
                        assert(seen.push(n)[k] == y);
                    }
                    if y == n {
                        assert(seen.push(n)[seen.len() as int] == n);
                    }
                }
            },
            None => {},
        }
        i += 1;
    }
    assert(items_view(items@).take(items@.len() as int) =~= items_view(items@));
    ids
}

pub fn summoner_ids_from_champ_select_session(body: &JsonValue) -> (r: Vec<u64>)
    ensures
        sorted_distinct_of(r@, summoner_ids_of(array_field(body@, "myTeam"@))),
{
    summoner_ids_from_array_field(body, "myTeam")
}

pub fn summoner_ids_from_lobby(body: &JsonValue) -> (r: Vec<u64>)
    ensures
        sorted_distinct_of(r@, summoner_ids_of(array_field(body@, "members"@))),
{
    summoner_ids_from_array_field(body, "members")
}

// ---------------------------------------------------------------------------
// Answers of the League Client API
// ---------------------------------------------------------------------------

/// A League Client API answer as the control panel shows it.
#[derive(Debug)]
pub struct LcuApiResponse {
    pub method: String,
    pub endpoint: String,
    pub url: String,
    pub port: u16,
    pub status: u16,
    pub ok: bool,
    pub body: Option<JsonValue>,
    pub text: String,
}

/// The text of an answer's body: serde_json's compact JSON, empty for a
/// `null` body.
pub open spec fn body_text_spec(body: JsonView) -> Seq<char> {
    if body is Null {
        Seq::<char>::empty()
    } else if valid_utf8(json_serialize(body)) {
        decode_utf8(json_serialize(body))
    } else {
        Seq::<char>::empty()
    }
}

/// A successful answer: its status, whether that status is a success
/// (2xx), the body, and the body's JSON text (see `body_text_spec`).
pub fn lcu_response_from_value(
    method: &str,
    endpoint: &str,
    url: &str,
    port: u16,
    status: u16,
    body: JsonValue,
) -> (r: LcuApiResponse)
    ensures
        r.method@ == method@,
        r.endpoint@ == endpoint@,
        r.url@ == url@,
        r.port == port,
        r.status == status,
        r.ok == (200 <= status <= 299),
        r.body matches Some(b) && b@ == body@,
        r.text@ == body_text_spec(body@),
{
    let text = match &body {
        JsonValue::Null => String::new(),
        _ => {
            let bytes = serialize_json(&body);
            match utf8_str(bytes.as_slice()) {
                Some(t) => t.to_owned(),
                None => String::new(),
            }
        },
    };
    LcuApiResponse {
        method: method.to_owned(),
        endpoint: endpoint.to_owned(),
        url: url.to_owned(),
        port,
        status,
        ok: 200 <= status && status <= 299,
        body: Some(body),
        text,
    }
}

/// An answer with an error status: never ok, its text as sent and its body
/// where that text reads as JSON.
pub fn lcu_error_response(
    method: &str,
    endpoint: &str,
    url: &str,
    port: u16,
    status: u16,
    body: Option<JsonValue>,
    text: String,
) -> (r: LcuApiResponse)
    ensures
        r.method@ == method@,
        r.endpoint@ == endpoint@,
        r.url@ == url@,
        r.port == port,
        r.status == status,
        !r.ok,
        r.text@ == text@,
        crate::json::opt_json_view(r.body) == crate::json::opt_json_view(body),
{
    LcuApiResponse {
        method: method.to_owned(),
        endpoint: endpoint.to_owned(),
        url: url.to_owned(),
        port,
        status,
        ok: false,
        body,
        text,
    }
}

/// An answer with an error status from its text as sent: the body is that
/// text read as JSON, where it reads.
pub fn lcu_error_response_from_text(
    method: &str,
    endpoint: &str,
    url: &str,
    port: u16,
    status: u16,
    text: String,
) -> (r: LcuApiResponse)
    ensures
        r.method@ == method@,
        r.endpoint@ == endpoint@,
        r.url@ == url@,
        r.port == port,
        r.status == status,
        !r.ok,
        r.text@ == text@,
        crate::json::opt_json_view(r.body) == crate::json::json_parse(encode_utf8(text@)),
{
    let bytes = crate::text::string_bytes(text.as_str());
    let body = crate::json::parse_json(bytes.as_slice());
    lcu_error_response(method, endpoint, url, port, status, body, text)
}

/// Whether an answer says the cached credentials are stale (401 or 403).
pub fn credentials_response_needs_refresh(response: &LcuApiResponse) -> (r: bool)
    ensures
        r == (response.status == 401 || response.status == 403),
{
    response.status == 401 || response.status == 403
}

/// `s` without the `"` at its start.
pub open spec fn quote_start(s: Seq<char>) -> Seq<char>
    decreases s.len(),
{
    if s.len() > 0 && s[0] == '"' {
        quote_start(s.drop_first())
    } else {
        s
    }
}

/// `s` without the `"` at its end.
pub open spec fn quote_end(s: Seq<char>) -> Seq<char>
    decreases s.len(),
{
    if s.len() > 0 && s.last() == '"' {
        quote_end(s.drop_last())
    } else {
        s
    }
}

/// The game flow phase of an answer: its string body, else its text
/// without the quotes around it.
pub open spec fn gameflow_phase_spec(response: LcuApiResponse) -> Seq<char> {
    match response.body {
        Some(JsonValue::Str(p)) => p@,
        _ => quote_end(quote_start(response.text@)),
    }
}

pub fn gameflow_phase_of(response: &LcuApiResponse) -> (r: String)
    ensures
        r@ == gameflow_phase_spec(*response),
{
    match &response.body {
        Some(JsonValue::Str(p)) => p.clone(),
        _ => {
            let t = chars_of(response.text.as_str());
            let mut from: usize = 0;
            assert(t@.subrange(0, t@.len() as int) =~= t@);
            while from < t.len() && t[from] == '"'
                invariant
                    from <= t@.len(),
                    quote_start(t@) == quote_start(t@.subrange(from as int, t@.len() as int)),
                decreases t@.len() - from,
            {
                assert(t@.subrange(from as int, t@.len() as int).drop_first() =~= t@.subrange(
                    from + 1,
                    t@.len() as int,
                ));
                from += 1;
            }
            let mut to: usize = t.len();
            assert(t@.subrange(from as int, to as int) == quote_start(t@));
            while to > from && t[to - 1] == '"'
                invariant
                    from <= to <= t@.len(),
                    quote_end(quote_start(t@)) == quote_end(t@.subrange(from as int, to as int)),
                decreases to,
            {
                assert(t@.subrange(from as int, to as int).drop_last() =~= t@.subrange(from as int, to - 1));
                to -= 1;
            }
            let v = slice_vec(t.as_slice(), from, to);
            string_of(v.as_slice())
        },
    }
}

/// The op.gg region of the League Client's `/riotclient/region-locale`
/// answer: its `region`, else its `webRegion`, as `opgg_region_slug` names
/// it.
pub open spec fn locale_region_spec(body: JsonView) -> Option<Seq<char>> {
    match get_str(body, "region"@) {
        Some(r) => Some(region_slug_spec(r)),
        None => match get_str(body, "webRegion"@) {
            Some(r) => Some(region_slug_spec(r)),
            None => None,
        },
    }
}

pub fn opgg_region_from_locale(body: &JsonValue) -> (r: Option<String>)
    ensures
        match r {
            Some(s) => locale_region_spec(body@) == Some(s@),
            None => locale_region_spec(body@) is None,
        },
{
    match body.get_str("region") {
        Some(r) => Some(opgg_region_slug(r.as_str())),
        None => match body.get_str("webRegion") {
            Some(r) => Some(opgg_region_slug(r.as_str())),
            None => None,
        },
    }
}

/// A Riot ID as the client shows it: `game#tag`.
pub fn riot_id_display(game_name: &str, tag_line: &str) -> (r: String)
    ensures
        r@ == game_name@ + "#"@ + tag_line@,
{
    let mut t = game_name.to_owned();
    push_str(&mut t, "#");
    push_str(&mut t, tag_line);
    t
}

} // verus!

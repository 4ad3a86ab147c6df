//! The helper friend and presence rewriting: roster and presence stanzas the
//! proxy injects, and presence the client sends rewritten to the status the
//! player chose.
use vstd::prelude::*;

use base64::Engine;
use vstd::utf8::encode_utf8;

use crate::encoding::{b64_encode, base64_decode, base64_encode, b64_decode_spec, json_escaped, json_string};
use crate::json::{get, get_str, json_parse, parse_json};
use crate::models::{xmpp_show, PresenceStatus};
use crate::xml::{
    attribute, element_text_of, fragment_parse, has_attribute, parse_fragment, serialize_element,
    child_index, copy_element, element_view, first_text, first_text_child, has_child, is_element_named,
    is_first_child, lemma_first_child_unique, lemma_has_first_child, lemma_nodes_view, node_view, nodes_view, XmlElement,
    XmlElementView, XmlNode, XmlNodeView,
};
use crate::external::{now_millis, now_stamp};
use crate::text::{
    before_char, partial_marker_tail, partial_marker_tail_len, signed_decimal, signed_decimal_string, string_bytes, chars_of, concat2, contains, count_matches, count_str, decimal, decimal_string,
    find_char_from, find_from, is_first_char, is_first_match, match_at, matches_at, push_str,
    slice_vec, split_once_char, str_contains, string_of, trim, trim_str,
};

verus! {

pub const HELPER_PUUID: &'static str = "41c322a1-b328-495b-a004-5ccd3e45eae8";

pub const HELPER_NAME: &'static str = "Ghosty Active!";

pub const HELPER_PROFILE_ICON: &'static str = "3151";

pub const ROSTER_NAMESPACE: &'static str = "jabber:iq:riotgames:roster";

/// What becomes of a fragment of client traffic that held presence.
#[derive(Debug)]
pub enum PresenceRewrite {
    /// Send this text instead.
    Forward(String),
    /// Send nothing.
    Drop,
}

pub open spec fn opt_chars(o: Option<String>) -> Option<Seq<char>> {
    match o {
        Some(s) => Some(s@),
        None => None,
    }
}

pub open spec fn str_opt(o: Option<&str>) -> Option<Seq<char>> {
    match o {
        Some(s) => Some(s@),
        None => None,
    }
}

// ---------------------------------------------------------------------------
// The helper friend's identity
// ---------------------------------------------------------------------------

/// The helper's chat region: the given affinity, trimmed, when it is not
/// blank; else the first label of the chat host, when it is not empty; else
/// `eu1`.
pub open spec fn helper_region(host: Seq<char>, affinity: Option<Seq<char>>) -> Seq<char> {
    match affinity {
        Some(a) if trim(a).len() > 0 => trim(a),
        _ => if before_char(host, '.').len() > 0 {
            before_char(host, '.')
        } else {
            "eu1"@
        },
    }
}

pub open spec fn helper_jid_spec(host: Seq<char>, affinity: Option<Seq<char>>) -> Seq<char> {
    HELPER_PUUID@ + "@"@ + helper_region(host, affinity) + ".pvp.net"@
}

/// The helper friend's JID on the chat server the client uses.
pub fn helper_jid_for_chat_identity(host: &str, affinity: Option<&str>) -> (r: String)
    ensures
        r@ == helper_jid_spec(host@, str_opt(affinity)),
{
    let from_affinity = match affinity {
        Some(a) => {
            let t = trim_str(a);
            if t.as_str().is_empty() {
                None
            } else {
                Some(t)
            }
        },
        None => None,
    };
    let region = match from_affinity {
        Some(t) => t,
        None => {
            let h = chars_of(host);
            let first = match split_once_char(h.as_slice(), '.') {
                Some((first, _)) => first,
                None => h,
            };
            if first.len() > 0 {
                string_of(first.as_slice())
            } else {
                "eu1".to_owned()
            }
        },
    };
    let mut jid = concat2(HELPER_PUUID, "@");
    push_str(&mut jid, region.as_str());
    push_str(&mut jid, ".pvp.net");
    jid
}

/// The roster item that shows the helper friend.
pub open spec fn helper_roster_item_spec(jid: Seq<char>) -> Seq<char> {
    "<item jid='"@ + jid + "' name='&#9;"@ + HELPER_NAME@ + "' subscription='both' puuid='"@
        + HELPER_PUUID@ + "'><group priority='9999'>Ghosty</group><state>online</state><id name='&#9;"@
        + HELPER_NAME@ + "' tagline='...'/><lol name='&#9;"@ + HELPER_NAME@
        + "'/><platforms><riot name='&#9;Ghosty Active' tagline='...'/></platforms></item>"@
}

pub fn helper_roster_item(helper_jid: &str) -> (r: String)
    ensures
        r@ == helper_roster_item_spec(helper_jid@),
{
    let mut s = "<item jid='".to_owned();
    push_str(&mut s, helper_jid);
    push_str(&mut s, "' name='&#9;");
    push_str(&mut s, HELPER_NAME);
    push_str(&mut s, "' subscription='both' puuid='");
    push_str(&mut s, HELPER_PUUID);
    push_str(
        &mut s,
        "'><group priority='9999'>Ghosty</group><state>online</state><id name='&#9;",
    );
    push_str(&mut s, HELPER_NAME);
    push_str(&mut s, "' tagline='...'/><lol name='&#9;");
    push_str(&mut s, HELPER_NAME);
    push_str(&mut s, "'/><platforms><riot name='&#9;Ghosty Active' tagline='...'/></platforms></item>");
    s
}

// ---------------------------------------------------------------------------
// Finding the roster query
// ---------------------------------------------------------------------------

/// The first position at or after `from` where `needle` occurs.
pub open spec fn find_spec(hay: Seq<char>, needle: Seq<char>, from: int) -> Option<int> {
    if exists|i: int| is_first_match(hay, needle, from, i) {
        Some(choose|i: int| is_first_match(hay, needle, from, i))
    } else {
        None
    }
}

/// The first position at or after `from` of the character `c`.
pub open spec fn find_char_spec(s: Seq<char>, c: char, from: int) -> Option<int> {
    if exists|i: int| is_first_char(s, c, from, i) {
        Some(choose|i: int| is_first_char(s, c, from, i))
    } else {
        None
    }
}

pub proof fn lemma_find_spec(hay: Seq<char>, needle: Seq<char>, from: int, r: Option<int>)
    requires
        match r {
            Some(i) => is_first_match(hay, needle, from, i),
            None => forall|k: int| from <= k ==> !matches_at(hay, needle, k),
        },
    ensures
        find_spec(hay, needle, from) == r,
{
    match r {
        Some(i) => {
            let j = choose|j: int| is_first_match(hay, needle, from, j);
            assert(is_first_match(hay, needle, from, j));
            if j < i {
                assert(!matches_at(hay, needle, j));
            }
            if i < j {
                assert(!matches_at(hay, needle, i));
            }
        },
        None => {},
    }
}

pub proof fn lemma_find_char_spec(s: Seq<char>, c: char, from: int, r: Option<int>)
    requires
        match r {
            Some(i) => is_first_char(s, c, from, i),
            None => forall|k: int| from <= k < s.len() ==> s[k] != c,
        },
    ensures
        find_char_spec(s, c, from) == r,
{
    match r {
        Some(i) => {
            let j = choose|j: int| is_first_char(s, c, from, j);
            assert(is_first_char(s, c, from, j));
        },
        None => {},
    }
}

/// Where the helper item goes in a roster result: before the `</query>` that
/// closes the first `<query ...>` tag naming the roster namespace, scanning
/// `<query` tags from `from`.
pub open spec fn roster_insert_from(c: Seq<char>, from: int) -> Option<int>
    decreases c.len() + 1 - from,
{
    if from < 0 || from > c.len() {
        None
    } else {
        match find_spec(c, "<query"@, from) {
            None => None,
            Some(q) => match find_char_spec(c, '>', q) {
                None => None,
                Some(t) => if contains(c.subrange(q, t + 1), ROSTER_NAMESPACE@) {
                    find_spec(c, "</query>"@, t + 1)
                } else if from < t + 1 {
                    roster_insert_from(c, t + 1)
                } else {
                    None
                },
            },
        }
    }
}

fn roster_query_insert_at(content: &[char]) -> (r: Option<usize>)
    ensures
        match r {
            Some(i) => roster_insert_from(content@, 0) == Some(i as int) && i <= content@.len(),
            None => roster_insert_from(content@, 0) is None,
        },
{
    let query = chars_of("<query");
    let close = chars_of("</query>");
    let ns = chars_of(ROSTER_NAMESPACE);
    let mut search_from: usize = 0;
    while search_from <= content.len()
        invariant
            search_from <= content@.len(),
            query@ == "<query"@,
            close@ == "</query>"@,
            ns@ == ROSTER_NAMESPACE@,
            roster_insert_from(content@, 0) == roster_insert_from(content@, search_from as int),
        decreases content@.len() + 1 - search_from,
    {
        let found = find_from(content, query.as_slice(), search_from);
        proof {
            lemma_find_spec(content@, query@, search_from as int, match found {
                Some(i) => Some(i as int),
                None => None,
            });
        }
        let query_at = match found {
            Some(q) => q,
            None => return None,
        };
        let gt = find_char_from(content, '>', query_at);
        proof {
            lemma_find_char_spec(content@, '>', query_at as int, match gt {
                Some(i) => Some(i as int),
                None => None,
            });
        }
        let tag_end = match gt {
            Some(t) => t,
            None => return None,
        };
        let tag = slice_vec(content, query_at, tag_end + 1);
        if crate::text::contains_seq(tag.as_slice(), ns.as_slice()) {
            let closing = find_from(content, close.as_slice(), tag_end + 1);
            proof {
                lemma_find_spec(content@, close@, tag_end + 1, match closing {
                    Some(i) => Some(i as int),
                    None => None,
                });
            }
            return match closing {
                Some(i) => Some(i),
                None => None,
            };
        }
        search_from = tag_end + 1;
    }
    None
}

/// The roster text with the helper item placed before the first roster
/// `</query>`; `None` when the text already names the helper or holds no
/// roster query.
pub open spec fn insert_helper_friend_spec(content: Seq<char>, jid: Seq<char>) -> Option<Seq<char>> {
    if contains(content, jid) {
        None
    } else {
        match roster_insert_from(content, 0) {
            Some(i) => if 0 <= i <= content.len() {
                Some(content.take(i) + helper_roster_item_spec(jid) + content.skip(i))
            } else {
                None
            },
            None => None,
        }
    }
}

/// The helper is added to a roster once: a roster it was added to takes it
/// no more.
pub proof fn lemma_helper_friend_added_once(content: Seq<char>, jid: Seq<char>)
    ensures
        insert_helper_friend_spec(content, jid) matches Some(u) ==> insert_helper_friend_spec(u, jid) is None,
{
    if let Some(u) = insert_helper_friend_spec(content, jid) {
        let i = roster_insert_from(content, 0)->0;
        let item = helper_roster_item_spec(jid);
        let a = "<item jid='"@;
        assert(u == content.take(i) + item + content.skip(i));
        assert forall|k: int| 0 <= k < jid.len() implies item[a.len() + k] == jid[k] by {
            assert((a + jid)[a.len() + k] == jid[k]);
        }
        let pos = i + a.len();
        assert forall|k: int| 0 <= k < jid.len() implies u[pos + k] == jid[k] by {
            assert(u[pos + k] == item[a.len() + k]);
        }
        assert(u.subrange(pos, pos + jid.len()) =~= jid);
        assert(matches_at(u, jid, pos));
    }
}

pub fn insert_helper_friend(content: &str, helper_jid: &str) -> (r: Option<String>)
    ensures
        opt_chars(r) == insert_helper_friend_spec(content@, helper_jid@),
{
    if str_contains(content, helper_jid) {
        return None;
    }
    let c = chars_of(content);
    let at = match roster_query_insert_at(c.as_slice()) {
        Some(at) => at,
        None => return None,
    };
    let head = crate::text::substring(c.as_slice(), 0, at);
    let tail = crate::text::substring(c.as_slice(), at, c.len());
    let item = helper_roster_item(helper_jid);
    let mut out = head;
    push_str(&mut out, item.as_str());
    push_str(&mut out, tail.as_str());
    assert(c@.subrange(0, at as int) =~= c@.take(at as int));
    assert(c@.subrange(at as int, c@.len() as int) =~= c@.skip(at as int));
    Some(out)
}

/// Whether a fragment belongs to a roster (names the roster namespace).
pub fn contains_roster_marker(content: &str) -> (r: bool)
    ensures
        r == contains(content@, ROSTER_NAMESPACE@),
{
    str_contains(content, ROSTER_NAMESPACE)
}

/// The number of `<item` tags of a roster fragment (none outside rosters).
pub fn roster_item_count(content: &str) -> (r: usize)
    ensures
        r == if contains(content@, ROSTER_NAMESPACE@) {
            count_matches(content@, "<item"@)
        } else {
            0
        },
{
    if !contains_roster_marker(content) {
        return 0;
    }
    proof {
        reveal_strlit("<item");
    }
    count_str(content, "<item")
}

/// Whether a fragment holds a message addressed to the helper.
pub open spec fn contains_helper_message_spec(content: Seq<char>, jid: Seq<char>) -> bool {
    contains(content, "<message"@) && (contains(content, "to='"@ + jid) || contains(
        content,
        "to=\""@ + jid,
    ))
}

pub fn contains_helper_message(content: &str, helper_jid: &str) -> (r: bool)
    ensures
        r == contains_helper_message_spec(content@, helper_jid@),
{
    if !str_contains(content, "<message") {
        return false;
    }
    let single = concat2("to='", helper_jid);
    let double = concat2("to=\"", helper_jid);
    str_contains(content, single.as_str()) || str_contains(content, double.as_str())
}

// ---------------------------------------------------------------------------
// Escaping
// ---------------------------------------------------------------------------

pub open spec fn escape_char(c: char) -> Seq<char> {
    if c == '&' {
        "&amp;"@
    } else if c == '<' {
        "&lt;"@
    } else if c == '>' {
        "&gt;"@
    } else if c == '"' {
        "&quot;"@
    } else if c == '\'' {
        "&apos;"@
    } else {
        seq![c]
    }
}

/// Text made safe for XML content and attribute values: `&`, `<`, `>`, `"`
/// and `'` become entities.
pub open spec fn escape_xml_spec(s: Seq<char>) -> Seq<char>
    decreases s.len(),
{
    if s.len() == 0 {
        seq![]
    } else {
        escape_xml_spec(s.drop_last()) + escape_char(s.last())
    }
}

/// Escaped text holds none of the characters that XML markup is made of,
/// apart from the `&` that starts each escape.
pub proof fn lemma_escape_xml_plain(s: Seq<char>)
    ensures
        forall|i: int|
            0 <= i < escape_xml_spec(s).len() ==> #[trigger] escape_xml_spec(s)[i] != '<'
                && escape_xml_spec(s)[i] != '>' && escape_xml_spec(s)[i] != '"' && escape_xml_spec(s)[i]
                != '\'',
    decreases s.len(),
{
    reveal_strlit("&amp;");
    reveal_strlit("&lt;");
    reveal_strlit("&gt;");
    reveal_strlit("&quot;");
    reveal_strlit("&apos;");
    if s.len() > 0 {
        lemma_escape_xml_plain(s.drop_last());
        let p = escape_xml_spec(s.drop_last());
        let e = escape_char(s.last());
        let r = escape_xml_spec(s);
        assert forall|i: int| 0 <= i < r.len() implies #[trigger] r[i] != '<' && r[i] != '>' && r[i] != '"'
            && r[i] != '\'' by {
            if i < p.len() {
                assert(r[i] == p[i]);
            } else {
                assert(r[i] == e[i - p.len()]);
            }
        }
    }
}

pub fn escape_xml(value: &str) -> (r: String)
    ensures
        r@ == escape_xml_spec(value@),
{
    let v = chars_of(value);
    let mut out = String::new();
    let mut i: usize = 0;
    while i < v.len()
        invariant
            i <= v@.len(),
            out@ == escape_xml_spec(v@.take(i as int)),
        decreases v@.len() - i,
    {
        let c = v[i];
        assert(v@.take(i + 1).drop_last() =~= v@.take(i as int));
        if c == '&' {
            push_str(&mut out, "&amp;");
        } else if c == '<' {
            push_str(&mut out, "&lt;");
        } else if c == '>' {
            push_str(&mut out, "&gt;");
        } else if c == '"' {
            push_str(&mut out, "&quot;");
        } else if c == '\'' {
            push_str(&mut out, "&apos;");
        } else {
            crate::external::push_char(&mut out, c);
        }
        i += 1;
    }
    assert(v@.take(v@.len() as int) =~= v@);
    out
}

// ---------------------------------------------------------------------------
// Stanzas from the helper friend
// ---------------------------------------------------------------------------

/// A roster push that adds the helper friend.
pub open spec fn helper_roster_push_spec(jid: Seq<char>, now: int) -> Seq<char> {
    "<iq type='set' id='ghosty-roster-"@ + signed_decimal(now) + "'><query xmlns='"@
        + ROSTER_NAMESPACE@ + "'>"@ + helper_roster_item_spec(jid) + "</query></iq>"@
}

/// The roster push for the helper friend at time `now` (milliseconds).
pub fn helper_roster_push_at(helper_jid: &str, now: i64) -> (r: String)
    ensures
        r@ == helper_roster_push_spec(helper_jid@, now as int),
{
    let mut s = "<iq type='set' id='ghosty-roster-".to_owned();
    let n = signed_decimal_string(now);
    push_str(&mut s, n.as_str());
    push_str(&mut s, "'><query xmlns='");
    push_str(&mut s, ROSTER_NAMESPACE);
    push_str(&mut s, "'>");
    let item = helper_roster_item(helper_jid);
    push_str(&mut s, item.as_str());
    push_str(&mut s, "</query></iq>");
    s
}

/// The roster push for the helper friend, stamped with the current time.
pub fn helper_roster_push(helper_jid: &str) -> (r: String)
    ensures
        exists|now: int| r@ == helper_roster_push_spec(helper_jid@, now),
{
    let now = now_millis();
    helper_roster_push_at(helper_jid, now)
}

/// A chat message from the helper friend.
pub open spec fn helper_chat_message_spec(jid: Seq<char>, message: Seq<char>, stamp: Seq<char>) -> Seq<
    char,
> {
    "<message from='"@ + jid + "/RC-Ghosty' stamp='"@ + stamp + "' id='ghosty-"@ + stamp
        + "' type='chat'><body>"@ + escape_xml_spec(message) + "</body></message>"@
}

pub fn helper_chat_message_at(helper_jid: &str, message: &str, stamp: &str) -> (r: String)
    ensures
        r@ == helper_chat_message_spec(helper_jid@, message@, stamp@),
{
    let mut s = "<message from='".to_owned();
    push_str(&mut s, helper_jid);
    push_str(&mut s, "/RC-Ghosty' stamp='");
    push_str(&mut s, stamp);
    push_str(&mut s, "' id='ghosty-");
    push_str(&mut s, stamp);
    push_str(&mut s, "' type='chat'><body>");
    let body = escape_xml(message);
    push_str(&mut s, body.as_str());
    push_str(&mut s, "</body></message>");
    s
}

/// A chat message from the helper friend, stamped with the current time.
pub fn helper_chat_message(helper_jid: &str, message: &str) -> (r: String)
    ensures
        exists|stamp: Seq<char>| r@ == helper_chat_message_spec(helper_jid@, message@, stamp),
{
    let stamp = now_stamp();
    helper_chat_message_at(helper_jid, message, stamp.as_str())
}

/// The League presence payload of the helper friend, as JSON text.
pub open spec fn league_payload_spec() -> Seq<char> {
    LEAGUE_PAYLOAD_START@ + HELPER_PROFILE_ICON@ + LEAGUE_PAYLOAD_MIDDLE@ + HELPER_PUUID@
        + LEAGUE_PAYLOAD_END@
}

pub const LEAGUE_PAYLOAD_START: &'static str = "{\n            \"championId\": \"\",\n            \"gameQueueType\": \"\",\n            \"gameStatus\": \"outOfGame\",\n            \"level\": \"1\",\n            \"profileIcon\": \"";

pub const LEAGUE_PAYLOAD_MIDDLE: &'static str = "\",\n            \"puuid\": \"";

pub const LEAGUE_PAYLOAD_END: &'static str = "\",\n            \"queueId\": null\n        }";

pub const VALORANT_PAYLOAD_START: &'static str = "{\n            \"isValid\": true,\n            \"isIdle\": false,\n            \"queueId\": \"competitive\",\n            \"provisioningFlow\": \"Invalid\",\n            \"partyId\": \"00000000-0000-0000-0000-000000000000\",\n            \"partySize\": 1,\n            \"maxPartySize\": 5,\n            \"premierPresenceData\": {\n                \"rosterId\": \"\",\n                \"rosterName\": \"Ghosty is active. Ignore any version mismatch warnings.\",\n                \"rosterTag\": \"Ghosty Active!\",\n                \"rosterType\": \"VCT\",\n                \"division\": 0,\n                \"score\": 0,\n                \"plating\": 0,\n                \"showAura\": false,\n                \"showTag\": true,\n                \"showPlating\": false\n            },\n            \"matchPresenceData\": {\n                \"sessionLoopState\": \"MENUS\",\n                \"provisioningFlow\": \"Invalid\",\n                \"matchMap\": \"\",\n                \"queueId\": \"competitive\"\n            },\n            \"partyPresenceData\": {\n                \"partyId\": \"00000000-0000-0000-0000-000000000000\",\n                \"isPartyOwner\": true,\n                \"partyState\": \"DEFAULT\",\n                \"partyAccessibility\": \"CLOSED\",\n                \"partyLFM\": false,\n                \"partyClientVersion\": \"";

pub const VALORANT_PAYLOAD_END: &'static str = "\",\n                \"partyVersion\": 1768830115681,\n                \"partySize\": 1,\n                \"queueEntryTime\": \"0001.01.01-00.00.00\",\n                \"isPartyCrossPlayEnabled\": false,\n                \"isPlayerCrossPlayEnabled\": false,\n                \"partyPrecisePlatformTypes\": 1,\n                \"customGameName\": \"Ghosty Active!\",\n                \"customGameTeam\": \"\",\n                \"maxPartySize\": 5,\n                \"tournamentId\": \"\",\n                \"rosterId\": \"\",\n                \"partyOwnerSessionLoopState\": \"MENUS\",\n                \"partyOwnerMatchMap\": \"\",\n                \"partyOwnerProvisioningFlow\": \"Invalid\",\n                \"partyOwnerMatchScoreAllyTeam\": 0,\n                \"partyOwnerMatchScoreEnemyTeam\": 0\n            },\n            \"playerPresenceData\": {\n                \"playerCardId\": \"893deca1-4123-9c1f-2985-aa9de74cb512\",\n                \"playerTitleId\": \"e3ca05a4-4e44-9afe-3791-7d96ca8f71fa\",\n                \"accountLevel\": 999,\n                \"competitiveTier\": 0,\n                \"leaderboardPosition\": 0\n            }\n        }";

/// The VALORANT presence payload of the helper friend for a client version.
pub open spec fn valorant_payload_spec(version: Seq<char>) -> Seq<char> {
    VALORANT_PAYLOAD_START@ + version + VALORANT_PAYLOAD_END@
}

/// The League payload as the presence carries it: the JSON text written as
/// a JSON string, its UTF-8 bytes in base64.
pub open spec fn league_presence_spec() -> Seq<char> {
    b64_encode(encode_utf8(seq!['"'] + json_escaped(league_payload_spec()) + seq!['"']))
}

pub open spec fn valorant_presence_spec(version: Seq<char>) -> Seq<char> {
    b64_encode(encode_utf8(valorant_payload_spec(version)))
}

fn helper_league_presence() -> (r: String)
    ensures
        r@ == league_presence_spec(),
{
    let mut payload = LEAGUE_PAYLOAD_START.to_owned();
    push_str(&mut payload, HELPER_PROFILE_ICON);
    push_str(&mut payload, LEAGUE_PAYLOAD_MIDDLE);
    push_str(&mut payload, HELPER_PUUID);
    push_str(&mut payload, LEAGUE_PAYLOAD_END);
    let quoted = json_string(payload.as_str());
    let bytes = string_bytes(quoted.as_str());
    base64_encode(bytes.as_slice())
}

fn helper_valorant_presence(version: &str) -> (r: String)
    ensures
        r@ == valorant_presence_spec(version@),
{
    let mut payload = VALORANT_PAYLOAD_START.to_owned();
    push_str(&mut payload, version);
    push_str(&mut payload, VALORANT_PAYLOAD_END);
    let bytes = string_bytes(payload.as_str());
    base64_encode(bytes.as_slice())
}

/// The helper friend's presence: online in the Riot Client, League, VALORANT
/// (with the client version seen, else `unknown`) and Runeterra.
pub open spec fn helper_presence_spec(jid: Seq<char>, version: Option<Seq<char>>, now: int) -> Seq<char> {
    let t = signed_decimal(now);
    let v = match version {
        Some(v) => v,
        None => "unknown"@,
    };
    "<presence from='"@ + jid + "/RC-Ghosty' id='ghosty-"@ + t
        + "'><games><keystone><st>chat</st><s.t>"@ + t
        + "</s.t><s.p>keystone</s.p><pty/></keystone><league_of_legends><st>chat</st><s.t>"@ + t
        + "</s.t><s.r>NA1</s.r><s.p>league_of_legends</s.p><s.c>live</s.c><p>"@
        + league_presence_spec() + "</p><pty/></league_of_legends><valorant><st>chat</st><s.t>"@
        + t + "</s.t><s.p>valorant</s.p><s.r>PC</s.r><p>"@ + valorant_presence_spec(v)
        + "</p><pty/></valorant><bacon><st>chat</st><s.t>"@ + t
        + "</s.t><s.l>bacon_availability_online</s.l><s.p>bacon</s.p></bacon></games><show>chat</show><platform>riot</platform><status/></presence>"@
}

pub fn helper_presence_at(helper_jid: &str, valorant_version: Option<&str>, now: i64) -> (r: String)
    ensures
        r@ == helper_presence_spec(helper_jid@, str_opt(valorant_version), now as int),
{
    let t = signed_decimal_string(now);
    let league = helper_league_presence();
    let version = match valorant_version {
        Some(v) => v,
        None => "unknown",
    };
    let valorant = helper_valorant_presence(version);
    let mut s = "<presence from='".to_owned();
    push_str(&mut s, helper_jid);
    push_str(&mut s, "/RC-Ghosty' id='ghosty-");
    push_str(&mut s, t.as_str());
    push_str(&mut s, "'><games><keystone><st>chat</st><s.t>");
    push_str(&mut s, t.as_str());
    push_str(&mut s, "</s.t><s.p>keystone</s.p><pty/></keystone><league_of_legends><st>chat</st><s.t>");
    push_str(&mut s, t.as_str());
    push_str(&mut s, "</s.t><s.r>NA1</s.r><s.p>league_of_legends</s.p><s.c>live</s.c><p>");
    push_str(&mut s, league.as_str());
    push_str(&mut s, "</p><pty/></league_of_legends><valorant><st>chat</st><s.t>");
    push_str(&mut s, t.as_str());
    push_str(&mut s, "</s.t><s.p>valorant</s.p><s.r>PC</s.r><p>");
    push_str(&mut s, valorant.as_str());
    push_str(&mut s, "</p><pty/></valorant><bacon><st>chat</st><s.t>");
    push_str(&mut s, t.as_str());
    push_str(
        &mut s,
        "</s.t><s.l>bacon_availability_online</s.l><s.p>bacon</s.p></bacon></games><show>chat</show><platform>riot</platform><status/></presence>",
    );
    s
}

/// The helper friend's presence, stamped with the current time.
pub fn helper_presence(helper_jid: &str, valorant_version: Option<&str>) -> (r: String)
    ensures
        exists|now: int| r@ == helper_presence_spec(helper_jid@, str_opt(valorant_version), now),
{
    let now = now_millis();
    helper_presence_at(helper_jid, valorant_version, now)
}

// ---------------------------------------------------------------------------
// Rewriting presence
// ---------------------------------------------------------------------------

pub open spec fn str_views(v: Seq<&str>) -> Seq<Seq<char>> {
    v.map_values(|s: &str| s@)
}

pub open spec fn with_children(e: XmlElementView, children: Seq<XmlNodeView>) -> XmlElementView {
    XmlElementView {
        prefix: e.prefix,
        namespace: e.namespace,
        namespaces: e.namespaces,
        name: e.name,
        attributes: e.attributes,
        children,
    }
}

/// The index of the first child element named `name`.
pub open spec fn child_at(e: XmlElementView, name: Seq<char>) -> int {
    choose|i: int| is_first_child(e.children, name, i)
}

/// The element at the end of a path of first children.
pub open spec fn get_at(e: XmlElementView, path: Seq<Seq<char>>) -> Option<XmlElementView>
    decreases path.len(),
{
    if path.len() == 0 {
        Some(e)
    } else if has_child(e.children, path[0]) {
        match e.children[child_at(e, path[0])] {
            XmlNodeView::Element(c) => get_at(c, path.drop_first()),
            _ => None,
        }
    } else {
        None
    }
}

/// The element with the content of the element at `path` replaced by a
/// single text; unchanged when the path is missing.
pub open spec fn set_text_at(e: XmlElementView, path: Seq<Seq<char>>, text: Seq<char>) -> XmlElementView
    decreases path.len(),
{
    if path.len() == 0 {
        with_children(e, seq![XmlNodeView::Text(text)])
    } else if has_child(e.children, path[0]) {
        let i = child_at(e, path[0]);
        match e.children[i] {
            XmlNodeView::Element(c) => with_children(
                e,
                e.children.update(i, XmlNodeView::Element(set_text_at(c, path.drop_first(), text))),
            ),
            _ => e,
        }
    } else {
        e
    }
}

/// Whether a node is an element with one of the names.
pub open spec fn named_in(n: XmlNodeView, names: Seq<Seq<char>>) -> bool {
    match n {
        XmlNodeView::Element(c) => names.contains(c.name),
        _ => false,
    }
}

/// The element without its child elements that have one of the names, at the
/// end of a path of first children; unchanged when the path is missing.
pub open spec fn remove_at(e: XmlElementView, path: Seq<Seq<char>>, names: Seq<Seq<char>>) -> XmlElementView
    decreases path.len(),
{
    if path.len() == 0 {
        with_children(e, e.children.filter(|n: XmlNodeView| !named_in(n, names)))
    } else if has_child(e.children, path[0]) {
        let i = child_at(e, path[0]);
        match e.children[i] {
            XmlNodeView::Element(c) => with_children(
                e,
                e.children.update(i, XmlNodeView::Element(remove_at(c, path.drop_first(), names))),
            ),
            _ => e,
        }
    } else {
        e
    }
}

pub proof fn lemma_nodes_view_update(s: Seq<XmlNode>, i: int, n: XmlNode)
    requires
        0 <= i < s.len(),
    ensures
        nodes_view(s.update(i, n)) == nodes_view(s).update(i, node_view(n)),
{
    lemma_nodes_view(s);
    lemma_nodes_view(s.update(i, n));
    assert(nodes_view(s.update(i, n)) =~= nodes_view(s).update(i, node_view(n)));
}

proof fn lemma_child_at(e: XmlElementView, name: Seq<char>, i: int)
    requires
        is_first_child(e.children, name, i),
    ensures
        has_child(e.children, name),
        child_at(e, name) == i,
{
    assert(0 <= i < e.children.len() && is_element_named(e.children[i], name));
    let j = child_at(e, name);
    lemma_first_child_unique(e.children, name, i, j);
}

fn path_name<'a>(path: &[&'a str], k: usize) -> (r: &'a str)
    requires
        k < path@.len(),
    ensures
        r@ == str_views(path@)[k as int],
{
    path[k]
}

/// The element at the end of a path of first children.
pub fn element_at<'a>(e: &'a XmlElement, path: &[&str], from: usize) -> (r: Option<&'a XmlElement>)
    requires
        from <= path@.len(),
    ensures
        match r {
            Some(c) => get_at(e@, str_views(path@).skip(from as int)) == Some(c@),
            None => get_at(e@, str_views(path@).skip(from as int)) is None,
        },
    decreases path@.len() - from,
{
    let ghost p = str_views(path@).skip(from as int);
    if from == path.len() {
        assert(p.len() == 0);
        return Some(e);
    }
    assert(p[0] == path@[from as int]@);
    assert(p.drop_first() =~= str_views(path@).skip(from + 1));
    match child_index(e, path[from]) {
        Some(i) => {
            proof {
                lemma_child_at(e@, p[0], i as int);
                lemma_nodes_view(e.children@);
            }
            match &e.children[i] {
                XmlNode::Element(c) => element_at(c, path, from + 1),
                _ => None,
            }
        },
        None => None,
    }
}

/// Replaces the content of the element at the end of a path by a text.
pub fn set_text_at_path(e: XmlElement, path: &[&str], from: usize, text: &str) -> (r: XmlElement)
    requires
        from <= path@.len(),
    ensures
        r@ == set_text_at(e@, str_views(path@).skip(from as int), text@),
    decreases path@.len() - from,
{
    let mut e = e;
    let ghost p = str_views(path@).skip(from as int);
    if from == path.len() {
        assert(p.len() == 0);
        let mut children: Vec<XmlNode> = Vec::new();
        children.push(XmlNode::Text(text.to_owned()));
        e.children = children;
        proof {
            lemma_nodes_view(e.children@);
            assert(nodes_view(e.children@) =~= seq![XmlNodeView::Text(text@)]);
        }
        return e;
    }
    assert(p[0] == path@[from as int]@);
    assert(p.drop_first() =~= str_views(path@).skip(from + 1));
    match child_index(&e, path[from]) {
        Some(i) => {
            let ghost before = e.children@;
            proof {
                lemma_child_at(e@, p[0], i as int);
                lemma_nodes_view(before);
            }
            let node = e.children.remove(i);
            match node {
                XmlNode::Element(c) => {
                    let c2 = set_text_at_path(c, path, from + 1, text);
                    e.children.insert(i, XmlNode::Element(c2));
                    proof {
                        assert(e.children@ =~= before.update(i as int, XmlNode::Element(c2)));
                        lemma_nodes_view_update(before, i as int, XmlNode::Element(c2));
                    }
                    e
                },
                other => {
                    e.children.insert(i, other);
                    assert(e.children@ =~= before);
                    e
                },
            }
        },
        None => e,
    }
}

fn name_listed(name: &String, names: &[&str]) -> (r: bool)
    ensures
        r == str_views(names@).contains(name@),
{
    let n = chars_of(name.as_str());
    let mut i: usize = 0;
    while i < names.len()
        invariant
            i <= names@.len(),
            n@ == name@,
            forall|k: int| 0 <= k < i ==> str_views(names@)[k] != name@,
        decreases names@.len() - i,
    {
        let m = chars_of(names[i]);
        if crate::text::seq_eq(m.as_slice(), n.as_slice()) {
            assert(str_views(names@)[i as int] == name@);
            return true;
        }
        i += 1;
    }
    false
}

fn keep_node(n: &XmlNode, names: &[&str]) -> (r: bool)
    ensures
        r == !named_in(node_view(*n), str_views(names@)),
{
    match n {
        XmlNode::Element(c) => !name_listed(&c.name, names),
        _ => true,
    }
}

/// Drops the child elements that have one of the names.
pub fn remove_children(e: XmlElement, names: &[&str]) -> (r: XmlElement)
    ensures
        r@ == with_children(e@, e@.children.filter(|n: XmlNodeView| !named_in(n, str_views(names@)))),
{
    let mut e = e;
    let mut pending: Vec<XmlNode> = Vec::new();
    std::mem::swap(&mut pending, &mut e.children);
    let ghost orig = pending@;
    let ghost pred = |n: XmlNodeView| !named_in(n, str_views(names@));
    let mut kept: Vec<XmlNode> = Vec::new();
    proof {
        lemma_nodes_view(orig);
        assert(nodes_view(orig).take(0).filter(pred) =~= Seq::<XmlNodeView>::empty());
        assert(orig.skip(0) =~= orig);
    }
    while pending.len() > 0
        invariant
            pending@ == orig.skip(orig.len() - pending@.len()),
            pending@.len() <= orig.len(),
            nodes_view(orig).len() == orig.len(),
            forall|k: int| 0 <= k < orig.len() ==> #[trigger] nodes_view(orig)[k] == node_view(orig[k]),
            pred == (|n: XmlNodeView| !named_in(n, str_views(names@))),
            nodes_view(kept@) == nodes_view(orig).take(orig.len() - pending@.len()).filter(pred),
        decreases pending@.len(),
    {
        let ghost k = orig.len() - pending@.len();
        let n = pending.remove(0);
        assert(n == orig[k]);
        assert(pending@ =~= orig.skip(k + 1));
        let ghost prev = nodes_view(orig).take(k);
        assert(nodes_view(orig).take(k + 1) =~= prev.push(node_view(n)));
        proof {
            prev.lemma_filter_push(node_view(n), pred);
        }
        let ghost kept_before = kept@;
        if keep_node(&n, names) {
            kept.push(n);
            assert(kept@.drop_last() =~= kept_before);
            assert(nodes_view(kept@) == nodes_view(kept_before).push(node_view(n)));
        }
        assert(pred(node_view(n)) == !named_in(node_view(n), str_views(names@)));
    }
    assert(nodes_view(orig).take(orig.len() as int) =~= nodes_view(orig));
    e.children = kept;
    e
}

/// Drops, at the end of a path of first children, the child elements that
/// have one of the names.
pub fn remove_at_path(e: XmlElement, path: &[&str], from: usize, names: &[&str]) -> (r: XmlElement)
    requires
        from <= path@.len(),
    ensures
        r@ == remove_at(e@, str_views(path@).skip(from as int), str_views(names@)),
    decreases path@.len() - from,
{
    let mut e = e;
    let ghost p = str_views(path@).skip(from as int);
    if from == path.len() {
        assert(p.len() == 0);
        return remove_children(e, names);
    }
    assert(p[0] == path@[from as int]@);
    assert(p.drop_first() =~= str_views(path@).skip(from + 1));
    match child_index(&e, path[from]) {
        Some(i) => {
            let ghost before = e.children@;
            proof {
                lemma_child_at(e@, p[0], i as int);
                lemma_nodes_view(before);
            }
            let node = e.children.remove(i);
            match node {
                XmlNode::Element(c) => {
                    let c2 = remove_at_path(c, path, from + 1, names);
                    e.children.insert(i, XmlNode::Element(c2));
                    proof {
                        assert(e.children@ =~= before.update(i as int, XmlNode::Element(c2)));
                        lemma_nodes_view_update(before, i as int, XmlNode::Element(c2));
                    }
                    e
                },
                other => {
                    e.children.insert(i, other);
                    assert(e.children@ =~= before);
                    e
                },
            }
        },
        None => e,
    }
}

pub open spec fn st_path() -> Seq<Seq<char>> {
    seq!["games"@, "league_of_legends"@, "st"@]
}

/// The League status a presence shows (`games/league_of_legends/st`).
pub open spec fn league_st(p: XmlElementView) -> Option<Seq<char>> {
    match get_at(p, st_path()) {
        Some(st) => first_text(st.children),
        None => None,
    }
}

/// The VALORANT client version a presence carries: the base64 JSON payload
/// of `games/valorant/p`, at `partyPresenceData.partyClientVersion`.
pub open spec fn valorant_version_spec(p: XmlElementView) -> Option<Seq<char>> {
    match get_at(p, seq!["games"@, "valorant"@, "p"@]) {
        Some(el) => match first_text(el.children) {
            Some(encoded) => match b64_decode_spec(encoded) {
                Some(bytes) => match json_parse(bytes) {
                    Some(j) => match get(j, "partyPresenceData"@) {
                        Some(party) => get_str(party, "partyClientVersion"@),
                        None => None,
                    },
                    None => None,
                },
                None => None,
            },
            None => None,
        },
        None => None,
    }
}

fn valorant_client_version(presence: &XmlElement) -> (r: Option<String>)
    ensures
        opt_chars(r) == valorant_version_spec(presence@),
{
    let path: [&str; 3] = ["games", "valorant", "p"];
    assert(str_views(path@) =~= seq!["games"@, "valorant"@, "p"@]);
    assert(str_views(path@).skip(0) =~= str_views(path@));
    let el = match element_at(presence, &path, 0) {
        Some(el) => el,
        None => return None,
    };
    let encoded = match first_text_child(el) {
        Some(t) => t,
        None => return None,
    };
    let bytes = match base64_decode(encoded.as_str()) {
        Some(b) => b,
        None => return None,
    };
    let json = match parse_json(bytes.as_slice()) {
        Some(j) => j,
        None => return None,
    };
    match json.get("partyPresenceData") {
        Some(party) => match party.get_str("partyClientVersion") {
            Some(v) => Some(v.clone()),
            None => None,
        },
        None => None,
    }
}

/// A presence the client sends, rewritten to the target status: `show` and
/// the League status become the target (a League "dnd" is kept when the
/// target is online); for any target but online, the status text, League's
/// `p` and `m` and the other games' nodes are removed, and the VALORANT
/// client version is remembered the first time one is seen.
pub open spec fn rewrite_presence_spec(p: XmlElementView, target: PresenceStatus, vv: Option<Seq<char>>) -> (
    XmlElementView,
    Option<Seq<char>>,
) {
    let t = xmpp_show(target);
    let p1 = if target != PresenceStatus::Chat || league_st(p) != Some("dnd"@) {
        set_text_at(set_text_at(p, seq!["show"@], t), st_path(), t)
    } else {
        p
    };
    if target == PresenceStatus::Chat {
        (p1, vv)
    } else {
        let p2 = remove_at(p1, seq![], seq!["status"@]);
        let p3 = remove_at(p2, seq!["games"@, "league_of_legends"@], seq!["p"@, "m"@]);
        let vv2 = if vv is None {
            valorant_version_spec(p3)
        } else {
            vv
        };
        let p4 = remove_at(
            p3,
            seq!["games"@],
            seq!["bacon"@, "lion"@, "keystone"@, "riot_client"@, "valorant"@],
        );
        (p4, vv2)
    }
}

fn is_dnd(s: &Option<String>) -> (r: bool)
    ensures
        r == (opt_chars(*s) == Some("dnd"@)),
{
    match s {
        Some(v) => {
            let a = chars_of(v.as_str());
            let b = chars_of("dnd");
            crate::text::seq_eq(a.as_slice(), b.as_slice())
        },
        None => false,
    }
}

/// Rewrites a presence to the target status (see `rewrite_presence_spec`).
pub fn rewrite_presence(presence: XmlElement, target_status: PresenceStatus, valorant_version: &mut Option<String>) -> (r: XmlElement)
    ensures
        (r@, opt_chars(*final(valorant_version))) == rewrite_presence_spec(
            presence@,
            target_status,
            opt_chars(*old(valorant_version)),
        ),
{
    let target = target_status.as_xmpp();
    let st: [&str; 3] = ["games", "league_of_legends", "st"];
    let show: [&str; 1] = ["show"];
    let none: [&str; 0] = [];
    let status: [&str; 1] = ["status"];
    let games_league: [&str; 2] = ["games", "league_of_legends"];
    let pm: [&str; 2] = ["p", "m"];
    let games: [&str; 1] = ["games"];
    let others: [&str; 5] = ["bacon", "lion", "keystone", "riot_client", "valorant"];
    assert(str_views(st@).skip(0) =~= st_path());
    assert(str_views(show@).skip(0) =~= seq!["show"@]);
    assert(str_views(none@).skip(0) =~= Seq::<Seq<char>>::empty());
    assert(str_views(status@) =~= seq!["status"@]);
    assert(str_views(games_league@).skip(0) =~= seq!["games"@, "league_of_legends"@]);
    assert(str_views(pm@) =~= seq!["p"@, "m"@]);
    assert(str_views(games@).skip(0) =~= seq!["games"@]);
    assert(str_views(others@) =~= seq!["bacon"@, "lion"@, "keystone"@, "riot_client"@, "valorant"@]);
    let current_st = match element_at(&presence, &st, 0) {
        Some(el) => first_text_child(el),
        None => None,
    };
    let mut p = presence;
    if target_status != PresenceStatus::Chat || !is_dnd(&current_st) {
        p = set_text_at_path(p, &show, 0, target);
        p = set_text_at_path(p, &st, 0, target);
    }
    if target_status == PresenceStatus::Chat {
        return p;
    }
    p = remove_at_path(p, &none, 0, &status);
    p = remove_at_path(p, &games_league, 0, &pm);
    if valorant_version.is_none() {
        *valorant_version = valorant_client_version(&p);
    }
    remove_at_path(p, &games, 0, &others)
}

/// Writing a rewritten element failed.
#[derive(Debug, Clone, PartialEq, Eq)]
pub struct XmlWriteError;

impl XmlWriteError {
    pub fn message(&self) -> (r: String)
        ensures
            r@ == "Unable to write a rewritten XML element"@,
    {
        "Unable to write a rewritten XML element".to_owned()
    }
}

/// The state of rewriting a fragment's nodes in order: whether writing has
/// failed, the text so far, the elements and presences seen, and the
/// remembered VALORANT client version.
pub struct FragmentState {
    pub ok: bool,
    pub out: Seq<char>,
    pub elements: nat,
    pub presences: nat,
    pub version: Option<Seq<char>>,
}

pub open spec fn is_unaddressed_presence(e: XmlElementView) -> bool {
    e.name == "presence"@ && attribute(e.attributes, "to"@) is None
}

/// One node of a fragment: other elements are written unchanged; a presence
/// addressed to someone (a lobby) is written unchanged when lobby chat
/// passes through and dropped otherwise; any other presence is rewritten;
/// text and CDATA are kept; comments and processing instructions are dropped.
pub open spec fn fragment_step(s: FragmentState, n: XmlNodeView, target: PresenceStatus, muc: bool) -> FragmentState {
    if !s.ok {
        s
    } else {
        match n {
            XmlNodeView::Element(e) => if e.name != "presence"@ {
                match element_text_of(e) {
                    Some(t) => FragmentState { out: s.out + t, elements: s.elements + 1, ..s },
                    None => FragmentState { ok: false, elements: s.elements + 1, ..s },
                }
            } else if attribute(e.attributes, "to"@) is Some {
                if muc {
                    match element_text_of(e) {
                        Some(t) => FragmentState {
                            out: s.out + t,
                            elements: s.elements + 1,
                            presences: s.presences + 1,
                            ..s
                        },
                        None => FragmentState {
                            ok: false,
                            elements: s.elements + 1,
                            presences: s.presences + 1,
                            ..s
                        },
                    }
                } else {
                    FragmentState { elements: s.elements + 1, presences: s.presences + 1, ..s }
                }
            } else {
                let (p, v) = rewrite_presence_spec(e, target, s.version);
                match element_text_of(p) {
                    Some(t) => FragmentState {
                        ok: true,
                        out: s.out + t,
                        elements: s.elements + 1,
                        presences: s.presences + 1,
                        version: v,
                    },
                    None => FragmentState {
                        ok: false,
                        out: s.out,
                        elements: s.elements + 1,
                        presences: s.presences + 1,
                        version: v,
                    },
                }
            },
            XmlNodeView::Text(t) => FragmentState { out: s.out + t, ..s },
            XmlNodeView::CData(t) => FragmentState { out: s.out + t, ..s },
            _ => s,
        }
    }
}

pub open spec fn fragment_fold(
    nodes: Seq<XmlNodeView>,
    version: Option<Seq<char>>,
    target: PresenceStatus,
    muc: bool,
) -> FragmentState
    decreases nodes.len(),
{
    if nodes.len() == 0 {
        FragmentState { ok: true, out: seq![], elements: 0, presences: 0, version }
    } else {
        fragment_step(fragment_fold(nodes.drop_last(), version, target, muc), nodes.last(), target, muc)
    }
}

pub enum RewriteView {
    Forward(Seq<char>),
    Drop,
}

pub open spec fn rewrite_view(r: Result<Option<PresenceRewrite>, XmlWriteError>) -> Result<Option<RewriteView>, XmlWriteError> {
    match r {
        Ok(Some(PresenceRewrite::Forward(s))) => Ok(Some(RewriteView::Forward(s@))),
        Ok(Some(PresenceRewrite::Drop)) => Ok(Some(RewriteView::Drop)),
        Ok(None) => Ok(None),
        Err(e) => Err(e),
    }
}

/// What a parsed fragment becomes: nothing to do when it holds no element or
/// no presence; else the rewritten text, or a drop when that is empty.
pub open spec fn fragment_result(s: FragmentState) -> Result<Option<RewriteView>, XmlWriteError> {
    if !s.ok {
        Err(XmlWriteError)
    } else if s.elements == 0 || s.presences == 0 {
        Ok(None)
    } else if s.out.len() == 0 {
        Ok(Some(RewriteView::Drop))
    } else {
        Ok(Some(RewriteView::Forward(s.out)))
    }
}

proof fn lemma_fragment_fold_stuck(
    nodes: Seq<XmlNodeView>,
    v: Option<Seq<char>>,
    target: PresenceStatus,
    muc: bool,
    j: int,
)
    requires
        0 <= j <= nodes.len(),
        !fragment_fold(nodes.take(j), v, target, muc).ok,
    ensures
        fragment_fold(nodes, v, target, muc) == fragment_fold(nodes.take(j), v, target, muc),
    decreases nodes.len() - j,
{
    if j < nodes.len() {
        assert(nodes.take(j + 1).drop_last() =~= nodes.take(j));
        lemma_fragment_fold_stuck(nodes, v, target, muc, j + 1);
    } else {
        assert(nodes.take(j) =~= nodes);
    }
}

proof fn lemma_unaddressed_fold_stuck(
    nodes: Seq<XmlNodeView>,
    v: Option<Seq<char>>,
    target: PresenceStatus,
    j: int,
)
    requires
        0 <= j <= nodes.len(),
        unaddressed_fold(nodes.take(j), v, target) is None,
    ensures
        unaddressed_fold(nodes, v, target) is None,
        unaddressed_version_at_failure(nodes, v, target) == unaddressed_version_at_failure(
            nodes.take(j),
            v,
            target,
        ),
    decreases nodes.len() - j,
{
    if j < nodes.len() {
        assert(nodes.take(j + 1).drop_last() =~= nodes.take(j));
        lemma_unaddressed_fold_stuck(nodes, v, target, j + 1);
    } else {
        assert(nodes.take(j) =~= nodes);
    }
}

/// Rewrites the presence in a parsed fragment (the children of its `<xml>`
/// root), in document order.
pub fn rewrite_parsed_fragment(
    root: XmlElement,
    target_status: PresenceStatus,
    connect_to_muc: bool,
    valorant_version: &mut Option<String>,
) -> (r: Result<Option<PresenceRewrite>, XmlWriteError>)
    ensures
        ({
            let s = fragment_fold(root@.children, opt_chars(*old(valorant_version)), target_status, connect_to_muc);
            &&& rewrite_view(r) == fragment_result(s)
            &&& opt_chars(*final(valorant_version)) == s.version
        }),
{
    let ghost v0 = opt_chars(*valorant_version);
    proof {
        lemma_nodes_view(root.children@);
        assert(nodes_view(root.children@).take(0) =~= Seq::<XmlNodeView>::empty());
    }
    let mut out = String::new();
    let mut elements: usize = 0;
    let mut presences: usize = 0;
    let mut i: usize = 0;
    while i < root.children.len()
        invariant
            i <= root.children@.len() == root@.children.len(),
            root@.children == nodes_view(root.children@),
            forall|k: int| 0 <= k < root.children@.len() ==> #[trigger] root@.children[k] == node_view(root.children@[k]),
            v0 == opt_chars(*old(valorant_version)),
            ({
                let s = fragment_fold(root@.children.take(i as int), v0, target_status, connect_to_muc);
                &&& s.ok
                &&& s.out == out@
                &&& s.elements == elements
                &&& s.presences == presences
                &&& s.version == opt_chars(*valorant_version)
            }),
            elements <= i,
            presences <= elements,
        decreases root.children@.len() - i,
    {
        let ghost prefix = root@.children.take(i + 1);
        assert(prefix.drop_last() =~= root@.children.take(i as int));
        assert(prefix.last() == node_view(root.children@[i as int]));
        match &root.children[i] {
            XmlNode::Element(e) => {
                let is_presence = {
                    let a = chars_of(e.name.as_str());
                    let b = chars_of("presence");
                    crate::text::seq_eq(a.as_slice(), b.as_slice())
                };
                if !is_presence {
                    match serialize_element(e) {
                        Some(t) => push_str(&mut out, t.as_str()),
                        None => {
                            proof {
                                lemma_fragment_fold_stuck(root@.children, v0, target_status, connect_to_muc, i + 1);
                            }
                            return Err(XmlWriteError);
                        },
                    }
                    elements += 1;
                } else if has_attribute(e, "to") {
                    if connect_to_muc {
                        match serialize_element(e) {
                            Some(t) => push_str(&mut out, t.as_str()),
                            None => {
                                proof {
                                    lemma_fragment_fold_stuck(root@.children, v0, target_status, connect_to_muc, i + 1);
                                }
                                return Err(XmlWriteError);
                            },
                        }
                    }
                    elements += 1;
                    presences += 1;
                } else {
                    let copy = copy_element(e);
                    let p = rewrite_presence(copy, target_status, valorant_version);
                    match serialize_element(&p) {
                        Some(t) => push_str(&mut out, t.as_str()),
                        None => {
                            proof {
                                lemma_fragment_fold_stuck(root@.children, v0, target_status, connect_to_muc, i + 1);
                            }
                            return Err(XmlWriteError);
                        },
                    }
                    elements += 1;
                    presences += 1;
                }
            },
            XmlNode::Text(t) => push_str(&mut out, t.as_str()),
            XmlNode::CData(t) => push_str(&mut out, t.as_str()),
            _ => {},
        }
        i += 1;
    }
    assert(root@.children.take(root.children@.len() as int) =~= root@.children);
    if elements == 0 || presences == 0 {
        return Ok(None);
    }
    if out.as_str().is_empty() {
        Ok(Some(PresenceRewrite::Drop))
    } else {
        Ok(Some(PresenceRewrite::Forward(out)))
    }
}

/// Rewrites the presence a client sends in a fragment of its stream (see
/// `rewrite_parsed_fragment`); nothing to do when masking is off, when the
/// fragment holds no `<presence`, or when it does not read as XML.
pub fn rewrite_presence_fragment(
    content: &str,
    enabled: bool,
    target_status: PresenceStatus,
    connect_to_muc: bool,
    valorant_version: &mut Option<String>,
) -> (r: Result<Option<PresenceRewrite>, XmlWriteError>)
    ensures
        !enabled || !contains(content@, "<presence"@) ==> r == Ok::<Option<PresenceRewrite>, XmlWriteError>(None)
            && *final(valorant_version) == *old(valorant_version),
        enabled && contains(content@, "<presence"@) ==> match fragment_parse(content@) {
            None => r == Ok::<Option<PresenceRewrite>, XmlWriteError>(None) && *final(valorant_version)
                == *old(valorant_version),
            Some(root) => {
                let s = fragment_fold(root.children, opt_chars(*old(valorant_version)), target_status, connect_to_muc);
                &&& rewrite_view(r) == fragment_result(s)
                &&& opt_chars(*final(valorant_version)) == s.version
            },
        },
{
    if !enabled || !str_contains(content, "<presence") {
        return Ok(None);
    }
    match parse_fragment(content) {
        Some(root) => rewrite_parsed_fragment(root, target_status, connect_to_muc, valorant_version),
        None => Ok(None),
    }
}

/// The rewritten unaddressed presences of some nodes, written one after
/// another, with the count of them and the remembered VALORANT version;
/// `None` once writing fails.
pub open spec fn unaddressed_fold(nodes: Seq<XmlNodeView>, version: Option<Seq<char>>, target: PresenceStatus) -> Option<
    (Seq<char>, nat, Option<Seq<char>>),
>
    decreases nodes.len(),
{
    if nodes.len() == 0 {
        Some((seq![], 0, version))
    } else {
        match unaddressed_fold(nodes.drop_last(), version, target) {
            None => None,
            Some(acc) => match nodes.last() {
                XmlNodeView::Element(e) => if is_unaddressed_presence(e) {
                    let (p, v) = rewrite_presence_spec(e, target, acc.2);
                    match element_text_of(p) {
                        Some(t) => Some((acc.0 + t, acc.1 + 1, v)),
                        None => None,
                    }
                } else {
                    Some(acc)
                },
                _ => Some(acc),
            },
        }
    }
}

/// The version remembered when writing failed part way.
pub open spec fn unaddressed_version_at_failure(nodes: Seq<XmlNodeView>, version: Option<Seq<char>>, target: PresenceStatus) -> Option<Seq<char>>
    decreases nodes.len(),
{
    if nodes.len() == 0 {
        version
    } else {
        match unaddressed_fold(nodes.drop_last(), version, target) {
            None => unaddressed_version_at_failure(nodes.drop_last(), version, target),
            Some(acc) => match nodes.last() {
                XmlNodeView::Element(e) => if is_unaddressed_presence(e) {
                    rewrite_presence_spec(e, target, acc.2).1
                } else {
                    acc.2
                },
                _ => acc.2,
            },
        }
    }
}

/// Only the presence a client sends to everyone, rewritten to the target
/// status, as bytes; `None` when the fragment holds none or does not read as
/// XML (see `rewrite_unaddressed_presence_in`).
pub fn rewrite_unaddressed_presence_only_fragment(
    content: &str,
    target_status: PresenceStatus,
    valorant_version: &mut Option<String>,
) -> (r: Result<Option<Vec<u8>>, XmlWriteError>)
    ensures
        !contains(content@, "<presence"@) ==> r == Ok::<Option<Vec<u8>>, XmlWriteError>(None)
            && *final(valorant_version) == *old(valorant_version),
        contains(content@, "<presence"@) ==> match fragment_parse(content@) {
            None => r == Ok::<Option<Vec<u8>>, XmlWriteError>(None) && *final(valorant_version)
                == *old(valorant_version),
            Some(root) => unaddressed_rewritten(root, target_status, *old(valorant_version), r, *final(valorant_version)),
        },
{
    if !str_contains(content, "<presence") {
        return Ok(None);
    }
    let root = match parse_fragment(content) {
        Some(root) => root,
        None => return Ok(None),
    };
    rewrite_unaddressed_presence_in(&root, target_status, valorant_version)
}

/// The result of rewriting the unaddressed presence of a parsed fragment, and
/// the remembered VALORANT version after it (see `unaddressed_fold`).
pub open spec fn unaddressed_rewritten(
    root: XmlElementView,
    target_status: PresenceStatus,
    version_before: Option<String>,
    r: Result<Option<Vec<u8>>, XmlWriteError>,
    version_after: Option<String>,
) -> bool {
    match unaddressed_fold(root.children, opt_chars(version_before), target_status) {
        None => r == Err::<Option<Vec<u8>>, XmlWriteError>(XmlWriteError) && opt_chars(version_after)
            == unaddressed_version_at_failure(root.children, opt_chars(version_before), target_status),
        Some(acc) => opt_chars(version_after) == acc.2 && if acc.1 == 0 {
            r == Ok::<Option<Vec<u8>>, XmlWriteError>(None)
        } else {
            r matches Ok(Some(b)) && b@ == encode_utf8(acc.0)
        },
    }
}

/// The presences of a parsed fragment that are sent to everyone, each
/// rewritten to the target status and written one after another; `None`
/// when there is none.
pub fn rewrite_unaddressed_presence_in(
    root: &XmlElement,
    target_status: PresenceStatus,
    valorant_version: &mut Option<String>,
) -> (r: Result<Option<Vec<u8>>, XmlWriteError>)
    ensures
        unaddressed_rewritten(root@, target_status, *old(valorant_version), r, *final(valorant_version)),
{
    let ghost v0 = opt_chars(*valorant_version);
    proof {
        lemma_nodes_view(root.children@);
        assert(root@.children.take(0) =~= Seq::<XmlNodeView>::empty());
    }
    let mut out = String::new();
    let mut count: usize = 0;
    let mut i: usize = 0;
    while i < root.children.len()
        invariant
            i <= root.children@.len() == root@.children.len(),
            root@.children == nodes_view(root.children@),
            forall|k: int| 0 <= k < root.children@.len() ==> #[trigger] root@.children[k] == node_view(root.children@[k]),
            v0 == opt_chars(*old(valorant_version)),
            unaddressed_fold(root@.children.take(i as int), v0, target_status)
                == Some((out@, count as nat, opt_chars(*valorant_version))),
            count <= i,
        decreases root.children@.len() - i,
    {
        let ghost prefix = root@.children.take(i + 1);
        assert(prefix.drop_last() =~= root@.children.take(i as int));
        assert(prefix.last() == node_view(root.children@[i as int]));
        match &root.children[i] {
            XmlNode::Element(e) => {
                let is_presence = {
                    let a = chars_of(e.name.as_str());
                    let b = chars_of("presence");
                    crate::text::seq_eq(a.as_slice(), b.as_slice())
                };
                if is_presence && !has_attribute(e, "to") {
                    let copy = copy_element(e);
                    let p = rewrite_presence(copy, target_status, valorant_version);
                    match serialize_element(&p) {
                        Some(t) => push_str(&mut out, t.as_str()),
                        None => {
                            proof {
                                assert(unaddressed_fold(prefix, v0, target_status) is None);
                                lemma_unaddressed_fold_stuck(root@.children, v0, target_status, i + 1);
                            }
                            return Err(XmlWriteError);
                        },
                    }
                    count += 1;
                }
            },
            _ => {},
        }
        i += 1;
    }
    assert(root@.children.take(root.children@.len() as int) =~= root@.children);
    if count == 0 {
        return Ok(None);
    }
    Ok(Some(string_bytes(out.as_str())))
}

pub open spec fn is_unaddressed_presence_node(n: XmlNodeView) -> bool {
    match n {
        XmlNodeView::Element(e) => is_unaddressed_presence(e),
        _ => false,
    }
}

/// Whether some node is a presence sent to everyone.
pub open spec fn has_unaddressed_presence(nodes: Seq<XmlNodeView>) -> bool {
    exists|i: int| 0 <= i < nodes.len() && is_unaddressed_presence_node(nodes[i])
}

/// Whether a fragment of client traffic holds a presence sent to everyone.
pub fn contains_unaddressed_presence_fragment(content: &str) -> (r: bool)
    ensures
        r == (contains(content@, "<presence"@) && match fragment_parse(content@) {
            Some(root) => has_unaddressed_presence(root.children),
            None => false,
        }),
{
    if !str_contains(content, "<presence") {
        return false;
    }
    match parse_fragment(content) {
        Some(root) => has_unaddressed_presence_in(&root),
        None => false,
    }
}

/// Whether a parsed fragment holds a presence sent to everyone.
pub fn has_unaddressed_presence_in(root: &XmlElement) -> (r: bool)
    ensures
        r == has_unaddressed_presence(root@.children),
{
    let mut i: usize = 0;
    proof {
        lemma_nodes_view(root.children@);
    }
    while i < root.children.len()
        invariant
            i <= root.children@.len() == root@.children.len(),
            root@.children == nodes_view(root.children@),
            forall|k: int| 0 <= k < root.children@.len() ==> #[trigger] root@.children[k] == node_view(root.children@[k]),
            forall|k: int| 0 <= k < i ==> !is_unaddressed_presence_node(root@.children[k]),
        decreases root.children@.len() - i,
    {
        assert(root@.children[i as int] == node_view(root.children@[i as int]));
        match &root.children[i] {
            XmlNode::Element(e) => {
                let a = chars_of(e.name.as_str());
                let b = chars_of("presence");
                if crate::text::seq_eq(a.as_slice(), b.as_slice()) && !has_attribute(e, "to") {
                    assert(is_unaddressed_presence_node(root@.children[i as int]));
                    return true;
                }
            },
            _ => {},
        }
        i += 1;
    }
    false
}

/// What rewriting a fragment gives, with the remembered VALORANT version
/// after it (see `rewrite_presence_fragment`).
pub open spec fn presence_fragment_spec(
    content: Seq<char>,
    enabled: bool,
    target: PresenceStatus,
    muc: bool,
    version: Option<Seq<char>>,
) -> (Result<Option<RewriteView>, XmlWriteError>, Option<Seq<char>>) {
    if !enabled || !contains(content, "<presence"@) {
        (Ok(None), version)
    } else {
        match fragment_parse(content) {
            None => (Ok(None), version),
            Some(root) => {
                let s = fragment_fold(root.children, version, target, muc);
                (fragment_result(s), s.version)
            },
        }
    }
}

/// What rewriting only the unaddressed presence of a fragment gives, with the
/// remembered VALORANT version after it.
pub open spec fn unaddressed_only_spec(content: Seq<char>, target: PresenceStatus, version: Option<Seq<char>>) -> (
    Result<Option<Seq<u8>>, XmlWriteError>,
    Option<Seq<char>>,
) {
    if !contains(content, "<presence"@) {
        (Ok(None), version)
    } else {
        match fragment_parse(content) {
            None => (Ok(None), version),
            Some(root) => match unaddressed_fold(root.children, version, target) {
                None => (Err(XmlWriteError), unaddressed_version_at_failure(root.children, version, target)),
                Some(acc) => (
                    if acc.1 == 0 {
                        Ok(None)
                    } else {
                        Ok(Some(encode_utf8(acc.0)))
                    },
                    acc.2,
                ),
            },
        }
    }
}

pub open spec fn bytes_result(r: Result<Option<Vec<u8>>, XmlWriteError>) -> Result<Option<Seq<u8>>, XmlWriteError> {
    match r {
        Ok(Some(b)) => Ok(Some(b@)),
        Ok(None) => Ok(None),
        Err(e) => Err(e),
    }
}

/// Whether a fragment is or ends with the start of a presence.
pub open spec fn should_buffer_presence_spec(c: Seq<char>) -> bool {
    contains(c, "<presence"@) || partial_marker_tail(c, "<presence"@) > 0
}

/// Whether buffered client text should wait for the rest of a presence.
pub open spec fn presence_should_wait_spec(c: Seq<char>) -> bool {
    &&& encode_utf8(c).len() <= 65536
    &&& should_buffer_presence_spec(c)
    &&& !contains(c, "</presence>"@)
}

fn should_buffer_presence_fragment(content: &str) -> (r: bool)
    ensures
        r == should_buffer_presence_spec(content@),
{
    let c = chars_of(content);
    let m = chars_of("<presence");
    str_contains(content, "<presence") || partial_marker_tail_len(c.as_slice(), m.as_slice()) > 0
}

fn presence_buffer_should_wait(content: &str) -> (r: bool)
    ensures
        r == presence_should_wait_spec(content@),
{
    content.as_bytes().len() <= 65536 && should_buffer_presence_fragment(content) && !str_contains(
        content,
        "</presence>",
    )
}

/// Holds client traffic that may be an unfinished presence, with the status
/// and lobby setting in force when it began.
#[derive(Debug)]
pub struct ClientPresenceBuffer {
    pub pending: String,
    pub settings: Option<(PresenceStatus, bool)>,
    pub initial_presence_forwarded: bool,
    pub warmup_masked_presence: Option<Vec<u8>>,
}

pub struct PresenceBufferView {
    pub pending: Seq<char>,
    pub settings: Option<(PresenceStatus, bool)>,
    pub initial_presence_forwarded: bool,
    pub warmup_masked_presence: Option<Seq<u8>>,
}

pub open spec fn opt_bytes_view(o: Option<Vec<u8>>) -> Option<Seq<u8>> {
    match o {
        Some(v) => Some(v@),
        None => None,
    }
}

impl View for ClientPresenceBuffer {
    type V = PresenceBufferView;

    open spec fn view(&self) -> PresenceBufferView {
        PresenceBufferView {
            pending: self.pending@,
            settings: self.settings,
            initial_presence_forwarded: self.initial_presence_forwarded,
            warmup_masked_presence: opt_bytes_view(self.warmup_masked_presence),
        }
    }
}

pub open spec fn flushed(b: PresenceBufferView) -> PresenceBufferView {
    PresenceBufferView { pending: seq![], settings: None, ..b }
}

/// One chunk of client traffic through the presence buffer: the buffer after
/// it, what to send to the server (or the failure), and the remembered
/// VALORANT version.
///
/// With masking off, buffered text goes out with the chunk. Text that holds
/// no presence goes out as it is. Otherwise the chunk joins the buffer, under
/// the status and lobby setting in force when the buffer began. The first
/// presence sent to everyone, while the target is not online, goes out as the
/// client wrote it, and its masked form is kept to send once the server's
/// presence has arrived. Any other complete presence is rewritten; an
/// unfinished one waits (up to 64 KiB).
pub open spec fn presence_step(
    b: PresenceBufferView,
    content: Seq<char>,
    enabled: bool,
    target: PresenceStatus,
    muc: bool,
    version: Option<Seq<char>>,
) -> (PresenceBufferView, Result<Seq<u8>, XmlWriteError>, Option<Seq<char>>) {
    if !enabled {
        if b.pending.len() == 0 {
            (b, Ok(encode_utf8(content)), version)
        } else {
            (flushed(b), Ok(encode_utf8(b.pending + content)), version)
        }
    } else if b.pending.len() == 0 && !should_buffer_presence_spec(content) {
        (b, Ok(encode_utf8(content)), version)
    } else {
        let settings0 = if b.pending.len() == 0 {
            Some((target, muc))
        } else {
            b.settings
        };
        let p = b.pending + content;
        let s = match settings0 {
            Some(x) => x,
            None => (target, muc),
        };
        let b1 = PresenceBufferView { pending: p, settings: settings0, ..b };
        if s.0 != PresenceStatus::Chat && !b.initial_presence_forwarded && (contains(p, "<presence"@)
            && match fragment_parse(p) {
            Some(root) => has_unaddressed_presence(root.children),
            None => false,
        }) {
            let (masked, v) = unaddressed_only_spec(p, s.0, version);
            match masked {
                Err(e) => (PresenceBufferView { initial_presence_forwarded: true, ..b1 }, Err(e), v),
                Ok(m) => (
                    PresenceBufferView {
                        pending: seq![],
                        settings: None,
                        initial_presence_forwarded: true,
                        warmup_masked_presence: m,
                    },
                    Ok(encode_utf8(p)),
                    v,
                ),
            }
        } else {
            let (rw, v) = presence_fragment_spec(p, true, s.0, s.1, version);
            match rw {
                Err(e) => (b1, Err(e), v),
                Ok(Some(RewriteView::Forward(t))) => (flushed(b1), Ok(encode_utf8(t)), v),
                Ok(Some(RewriteView::Drop)) => (flushed(b1), Ok(seq![]), v),
                Ok(None) => if presence_should_wait_spec(p) {
                    (b1, Ok(seq![]), v)
                } else {
                    (flushed(b1), Ok(encode_utf8(p)), v)
                },
            }
        }
    }
}

pub open spec fn out_view(r: Result<Vec<u8>, XmlWriteError>) -> Result<Seq<u8>, XmlWriteError> {
    match r {
        Ok(b) => Ok(b@),
        Err(e) => Err(e),
    }
}

impl ClientPresenceBuffer {
    pub fn new() -> (r: Self)
        ensures
            r@ == (PresenceBufferView {
                pending: seq![],
                settings: None,
                initial_presence_forwarded: false,
                warmup_masked_presence: None,
            }),
    {
        ClientPresenceBuffer {
            pending: String::new(),
            settings: None,
            initial_presence_forwarded: false,
            warmup_masked_presence: None,
        }
    }

    /// Takes one chunk of client traffic (see `presence_step`).
    pub fn push(
        &mut self,
        content: &str,
        enabled: bool,
        target_status: PresenceStatus,
        connect_to_muc: bool,
        valorant_version: &mut Option<String>,
    ) -> (r: Result<Vec<u8>, XmlWriteError>)
        ensures
            (final(self)@, out_view(r), opt_chars(*final(valorant_version))) == presence_step(
                old(self)@,
                content@,
                enabled,
                target_status,
                connect_to_muc,
                opt_chars(*old(valorant_version)),
            ),
    {
        if !enabled {
            return Ok(self.push_or_flush_raw(content));
        }
        if self.pending.as_str().is_empty() && !should_buffer_presence_fragment(content) {
            return Ok(string_bytes(content));
        }
        if self.pending.as_str().is_empty() {
            self.settings = Some((target_status, connect_to_muc));
        }
        push_str(&mut self.pending, content);
        let (status, muc) = match self.settings {
            Some(x) => x,
            None => (target_status, connect_to_muc),
        };
        if status != PresenceStatus::Chat && !self.initial_presence_forwarded
            && contains_unaddressed_presence_fragment(self.pending.as_str()) {
            self.initial_presence_forwarded = true;
            let masked = rewrite_unaddressed_presence_only_fragment(self.pending.as_str(), status, valorant_version);
            match masked {
                Ok(m) => {
                    self.warmup_masked_presence = m;
                },
                Err(e) => return Err(e),
            }
            return Ok(self.flush());
        }
        match rewrite_presence_fragment(self.pending.as_str(), true, status, muc, valorant_version) {
            Err(e) => return Err(e),
            Ok(Some(rewrite)) => {
                self.clear();
                return Ok(
                    match rewrite {
                        PresenceRewrite::Forward(t) => string_bytes(t.as_str()),
                        PresenceRewrite::Drop => Vec::new(),
                    },
                );
            },
            Ok(None) => {},
        }
        if presence_buffer_should_wait(self.pending.as_str()) {
            return Ok(Vec::new());
        }
        Ok(self.flush())
    }

    /// Buffered text with this chunk, or the chunk alone (masking off).
    pub fn push_or_flush_raw(&mut self, content: &str) -> (r: Vec<u8>)
        ensures
            old(self).pending@.len() == 0 ==> r@ == encode_utf8(content@) && final(self)@ == old(self)@,
            old(self).pending@.len() > 0 ==> r@ == encode_utf8(old(self).pending@ + content@)
                && final(self)@ == flushed(old(self)@),
    {
        if self.pending.as_str().is_empty() {
            string_bytes(content)
        } else {
            push_str(&mut self.pending, content);
            self.flush()
        }
    }

    /// The buffered text, as bytes; the buffer is emptied.
    pub fn flush(&mut self) -> (r: Vec<u8>)
        ensures
            r@ == encode_utf8(old(self).pending@),
            final(self)@ == flushed(old(self)@),
    {
        self.settings = None;
        let out = string_bytes(self.pending.as_str());
        self.pending = String::new();
        out
    }

    /// Drops the buffered text.
    pub fn clear(&mut self)
        ensures
            final(self)@ == flushed(old(self)@),
    {
        self.pending = String::new();
        self.settings = None;
    }

    /// The masked presence kept from the client's first presence, taken out.
    pub fn take_warmup_masked_presence(&mut self) -> (r: Option<Vec<u8>>)
        ensures
            opt_bytes_view(r) == old(self)@.warmup_masked_presence,
            final(self)@ == (PresenceBufferView { warmup_masked_presence: None, ..old(self)@ }),
    {
        let mut out: Option<Vec<u8>> = None;
        std::mem::swap(&mut out, &mut self.warmup_masked_presence);
        out
    }

    pub fn has_warmup_masked_presence(&self) -> (r: bool)
        ensures
            r == (self@.warmup_masked_presence is Some),
    {
        self.warmup_masked_presence.is_some()
    }
}

// ---------------------------------------------------------------------------
// What a rewritten presence shows
// ---------------------------------------------------------------------------

/// The first child element with the given name, read from the front.
pub open spec fn first_child_el(children: Seq<XmlNodeView>, name: Seq<char>) -> Option<XmlElementView>
    decreases children.len(),
{
    if children.len() == 0 {
        None
    } else {
        match children[0] {
            XmlNodeView::Element(c) => if c.name == name {
                Some(c)
            } else {
                first_child_el(children.drop_first(), name)
            },
            _ => first_child_el(children.drop_first(), name),
        }
    }
}

proof fn lemma_first_child_el_at(children: Seq<XmlNodeView>, name: Seq<char>, i: int)
    requires
        is_first_child(children, name, i),
    ensures
        first_child_el(children, name) == match children[i] {
            XmlNodeView::Element(c) => Some(c),
            _ => None::<XmlElementView>,
        },
    decreases children.len(),
{
    if i > 0 {
        assert(!is_element_named(children[0], name));
        let rest = children.drop_first();
        assert forall|k: int| 0 <= k < i - 1 implies !is_element_named(rest[k], name) by {
            assert(rest[k] == children[k + 1]);
        }
        assert(rest[i - 1] == children[i]);
        lemma_first_child_el_at(rest, name, i - 1);
    }
}

proof fn lemma_first_child_el_none(children: Seq<XmlNodeView>, name: Seq<char>)
    requires
        !has_child(children, name),
    ensures
        first_child_el(children, name) is None,
    decreases children.len(),
{
    if children.len() > 0 {
        assert(!is_element_named(children[0], name));
        let rest = children.drop_first();
        assert(!has_child(rest, name)) by {
            if has_child(rest, name) {
                let k = choose|k: int| 0 <= k < rest.len() && is_element_named(rest[k], name);
                assert(rest[k] == children[k + 1]);
            }
        }
        lemma_first_child_el_none(rest, name);
    }
}

/// Following a path of one name reads the first child element of that name.
proof fn lemma_get_at_one(e: XmlElementView, name: Seq<char>)
    ensures
        get_at(e, seq![name]) == first_child_el(e.children, name),
{
    reveal_with_fuel(get_at, 2);
    let path = seq![name];
    if has_child(e.children, name) {
        lemma_has_first_child(e.children, name);
        let i = choose|i: int| is_first_child(e.children, name, i);
        lemma_child_at(e, name, i);
        lemma_first_child_el_at(e.children, name, i);
        assert(path.drop_first() =~= Seq::<Seq<char>>::empty());
    } else {
        lemma_first_child_el_none(e.children, name);
    }
}

/// Replacing a node that is not an element of the name by another such node
/// leaves the first element of the name as it was.
proof fn lemma_first_child_el_update(children: Seq<XmlNodeView>, i: int, n: XmlNodeView, name: Seq<char>)
    requires
        0 <= i < children.len(),
        !is_element_named(children[i], name),
        !is_element_named(n, name),
    ensures
        first_child_el(children.update(i, n), name) == first_child_el(children, name),
    decreases children.len(),
{
    let u = children.update(i, n);
    if i == 0 {
        assert(u.drop_first() =~= children.drop_first());
    } else {
        assert(u[0] == children[0]);
        assert(u.drop_first() =~= children.drop_first().update(i - 1, n));
        lemma_first_child_el_update(children.drop_first(), i - 1, n, name);
    }
}

/// Dropping nodes that are not elements of the name leaves the first element
/// of the name as it was.
proof fn lemma_first_child_el_filter(children: Seq<XmlNodeView>, keep: spec_fn(XmlNodeView) -> bool, name: Seq<char>)
    requires
        forall|x: XmlNodeView| is_element_named(x, name) ==> #[trigger] keep(x),
    ensures
        first_child_el(children.filter(keep), name) == first_child_el(children, name),
    decreases children.len(),
{
    if children.len() == 0 {
        assert(children.filter(keep) =~= Seq::<XmlNodeView>::empty()) by {
            reveal(Seq::filter);
        }
    } else {
        let h = children[0];
        let rest = children.drop_first();
        assert(children =~= seq![h] + rest);
        rest.lemma_filter_prepend(h, keep);
        lemma_first_child_el_filter(rest, keep, name);
        let rf = rest.filter(keep);
        if keep(h) {
            assert((seq![h] + rf)[0] == h);
            assert((seq![h] + rf).drop_first() =~= rf);
        } else {
            assert(seq![h].filter(keep) =~= Seq::<XmlNodeView>::empty()) by {
                reveal(Seq::filter);
                assert(seq![h].drop_last() =~= Seq::<XmlNodeView>::empty());
            }
            assert(!is_element_named(h, name));
        }
    }
}

/// Setting the text at a path keeps the element's name.
proof fn lemma_set_text_at_name(e: XmlElementView, path: Seq<Seq<char>>, t: Seq<char>)
    ensures
        set_text_at(e, path, t).name == e.name,
{
}

/// Removing children at a path keeps the element's name.
proof fn lemma_remove_at_name(e: XmlElementView, path: Seq<Seq<char>>, names: Seq<Seq<char>>)
    ensures
        remove_at(e, path, names).name == e.name,
{
}

/// A change below another first child (`path[0]` is not `name`) leaves the
/// first element named `name` as it was.
proof fn lemma_set_text_elsewhere(e: XmlElementView, path: Seq<Seq<char>>, t: Seq<char>, name: Seq<char>)
    requires
        path.len() > 0,
        path[0] != name,
    ensures
        first_child_el(set_text_at(e, path, t).children, name) == first_child_el(e.children, name),
{
    if has_child(e.children, path[0]) {
        let i = child_at(e, path[0]);
        lemma_has_first_child(e.children, path[0]);
        let k = choose|k: int| is_first_child(e.children, path[0], k);
        lemma_child_at(e, path[0], k);
        match e.children[i] {
            XmlNodeView::Element(c) => {
                lemma_set_text_at_name(c, path.drop_first(), t);
                lemma_first_child_el_update(
                    e.children,
                    i,
                    XmlNodeView::Element(set_text_at(c, path.drop_first(), t)),
                    name,
                );
            },
            _ => {},
        }
    }
}

proof fn lemma_remove_elsewhere(e: XmlElementView, path: Seq<Seq<char>>, names: Seq<Seq<char>>, name: Seq<char>)
    requires
        path.len() > 0,
        path[0] != name,
    ensures
        first_child_el(remove_at(e, path, names).children, name) == first_child_el(e.children, name),
{
    if has_child(e.children, path[0]) {
        let i = child_at(e, path[0]);
        lemma_has_first_child(e.children, path[0]);
        let k = choose|k: int| is_first_child(e.children, path[0], k);
        lemma_child_at(e, path[0], k);
        match e.children[i] {
            XmlNodeView::Element(c) => {
                lemma_remove_at_name(c, path.drop_first(), names);
                lemma_first_child_el_update(
                    e.children,
                    i,
                    XmlNodeView::Element(remove_at(c, path.drop_first(), names)),
                    name,
                );
            },
            _ => {},
        }
    }
}

/// Setting the text of the first `show` makes it that text alone.
proof fn lemma_set_show(e: XmlElementView, t: Seq<char>)
    requires
        has_child(e.children, "show"@),
    ensures
        first_child_el(set_text_at(e, seq!["show"@], t).children, "show"@) matches Some(s) && s.name == "show"@
            && s.children == seq![XmlNodeView::Text(t)],
{
    reveal_with_fuel(set_text_at, 2);
    let path = seq!["show"@];
    lemma_has_first_child(e.children, "show"@);
    let i = choose|i: int| is_first_child(e.children, "show"@, i);
    lemma_child_at(e, "show"@, i);
    assert(path[0] == "show"@);
    assert(path.drop_first() =~= Seq::<Seq<char>>::empty());
    let r = set_text_at(e, path, t);
    match e.children[i] {
        XmlNodeView::Element(c) => {
            let n = XmlNodeView::Element(with_children(c, seq![XmlNodeView::Text(t)]));
            assert(r.children == e.children.update(i, n));
            assert forall|k: int| 0 <= k < i implies !is_element_named(#[trigger] r.children[k], "show"@) by {
                assert(r.children[k] == e.children[k]);
            }
            assert(is_first_child(r.children, "show"@, i));
            lemma_first_child_el_at(r.children, "show"@, i);
        },
        _ => {},
    }
}

/// A rewritten presence shows the target status: where the presence has a
/// `show` element, that element holds just the target's XMPP text afterwards
/// (unless the target is online and League reports "dnd", which is kept as
/// it was).
pub proof fn lemma_rewrite_shows_target(p: XmlElementView, target: PresenceStatus, vv: Option<Seq<char>>)
    requires
        has_child(p.children, "show"@),
        !(target == PresenceStatus::Chat && league_st(p) == Some("dnd"@)),
    ensures
        get_at(rewrite_presence_spec(p, target, vv).0, seq!["show"@]) matches Some(s) && s.name == "show"@
            && s.children == seq![XmlNodeView::Text(xmpp_show(target))],
{
    reveal_strlit("show");
    reveal_strlit("games");
    reveal_strlit("status");
    let t = xmpp_show(target);
    let show = "show"@;
    let q = set_text_at(p, seq![show], t);
    lemma_set_show(p, t);
    assert(st_path()[0] == "games"@);
    assert("games"@[0] != show[0]);
    lemma_set_text_elsewhere(q, st_path(), t, show);
    let p1 = set_text_at(q, st_path(), t);
    let r = rewrite_presence_spec(p, target, vv).0;
    if target == PresenceStatus::Chat {
        assert(r == p1);
    } else {
        let names = seq!["status"@];
        let keep = |n: XmlNodeView| !named_in(n, names);
        assert forall|x: XmlNodeView| is_element_named(x, show) implies #[trigger] keep(x) by {
            if names.contains(show) {
                let j = choose|j: int| 0 <= j < names.len() && names[j] == show;
                assert(names[j] == "status"@);
                assert("status"@[1] != show[1]);
            }
        }
        let p2 = remove_at(p1, seq![], names);
        assert(p2.children == p1.children.filter(keep));
        lemma_first_child_el_filter(p1.children, keep, show);
        let gl = seq!["games"@, "league_of_legends"@];
        assert(gl[0] == "games"@);
        lemma_remove_elsewhere(p2, gl, seq!["p"@, "m"@], show);
        let p3 = remove_at(p2, gl, seq!["p"@, "m"@]);
        let g = seq!["games"@];
        assert(g[0] == "games"@);
        lemma_remove_elsewhere(p3, g, seq!["bacon"@, "lion"@, "keystone"@, "riot_client"@, "valorant"@], show);
        assert(r == remove_at(p3, g, seq!["bacon"@, "lion"@, "keystone"@, "riot_client"@, "valorant"@]));
    }
    lemma_get_at_one(r, show);
}

/// A presence addressed to someone (a lobby or champ-select room) is never
/// rewritten: with lobby chat passed through it goes out exactly as it was
/// written, otherwise it is dropped; the masked status does not touch it.
pub proof fn lemma_addressed_presence_kept(
    s: FragmentState,
    e: XmlElementView,
    target: PresenceStatus,
    muc: bool,
)
    requires
        s.ok,
        e.name == "presence"@,
        attribute(e.attributes, "to"@) is Some,
    ensures
        muc && element_text_of(e) is Some ==> fragment_step(s, XmlNodeView::Element(e), target, muc).out == s.out
            + element_text_of(e)->0,
        !muc ==> fragment_step(s, XmlNodeView::Element(e), target, muc).out == s.out,
        fragment_step(s, XmlNodeView::Element(e), target, muc).version == s.version,
        forall|other: PresenceStatus| #[trigger] fragment_step(s, XmlNodeView::Element(e), other, muc) == fragment_step(
            s,
            XmlNodeView::Element(e),
            target,
            muc,
        ),
{
}


proof fn lemma_removed_child_gone(e: XmlElementView, a: Seq<char>, names: Seq<Seq<char>>, g: Seq<char>)
    requires
        names.contains(g),
    ensures
        get_at(remove_at(e, seq![a], names), seq![a, g]) is None,
{
    let r = remove_at(e, seq![a], names);
    if has_child(e.children, a) {
        lemma_has_first_child(e.children, a);
        let k = choose|k: int| is_first_child(e.children, a, k);
        lemma_child_at(e, a, k);
        let i = child_at(e, a);
        match e.children[i] {
            XmlNodeView::Element(c) => {
                let pred = |n: XmlNodeView| !named_in(n, names);
                let c2 = remove_at(c, seq![a].drop_first(), names);
                assert(seq![a].drop_first() =~= Seq::<Seq<char>>::empty());
                assert(c2.children == c.children.filter(pred));
                assert(r.children == e.children.update(i, XmlNodeView::Element(c2)));
                assert(is_first_child(r.children, a, i));
                lemma_child_at(r, a, i);
                assert(seq![a, g].drop_first() =~= seq![g]);
                assert forall|j: int| 0 <= j < c2.children.len() implies !is_element_named(#[trigger] c2.children[j], g) by {
                    c.children.lemma_filter_pred(pred, j);
                }
                assert(!has_child(c2.children, g));
                assert(get_at(c2, seq![g]) is None);
                assert(r.children[i] == XmlNodeView::Element(c2));
                assert(get_at(r, seq![a, g]) == get_at(c2, seq![a, g].drop_first()));
            },
            _ => {},
        }
    } else {
        assert(r == e);
    }
}

/// Appearing as anything but online hides the other games: the presence
/// rewritten to such a target has no Legends of Runeterra (`bacon`), 2XKO
/// (`lion`), `keystone`, Riot Client or VALORANT node under `games`, so
/// friends see no game the player is in.
pub proof fn lemma_hidden_presence_shows_no_other_game(
    p: XmlElementView,
    target: PresenceStatus,
    vv: Option<Seq<char>>,
    game: Seq<char>,
)
    requires
        target != PresenceStatus::Chat,
        game == "bacon"@ || game == "lion"@ || game == "keystone"@ || game == "riot_client"@ || game
            == "valorant"@,
    ensures
        get_at(rewrite_presence_spec(p, target, vv).0, seq!["games"@, game]) is None,
{
    let names = seq!["bacon"@, "lion"@, "keystone"@, "riot_client"@, "valorant"@];
    assert(names.contains(game)) by {
        if game == "bacon"@ {
            assert(names[0] == game);
        } else if game == "lion"@ {
            assert(names[1] == game);
        } else if game == "keystone"@ {
            assert(names[2] == game);
        } else if game == "riot_client"@ {
            assert(names[3] == game);
        } else {
            assert(names[4] == game);
        }
    }
    let t = xmpp_show(target);
    let p1 = if target != PresenceStatus::Chat || league_st(p) != Some("dnd"@) {
        set_text_at(set_text_at(p, seq!["show"@], t), st_path(), t)
    } else {
        p
    };
    let p2 = remove_at(p1, seq![], seq!["status"@]);
    let p3 = remove_at(p2, seq!["games"@, "league_of_legends"@], seq!["p"@, "m"@]);
    lemma_removed_child_gone(p3, "games"@, names, game);
}

} // verus!

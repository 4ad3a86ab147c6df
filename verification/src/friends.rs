//! The friends list the League Client reports, summed up for the helper's
//! reply: how many friends, by status and by game.
use vstd::prelude::*;

use crate::json::{items_view, json_view, lemma_items_view_index, lemma_items_view_len, JsonValue, JsonView};
use crate::lcu::{array_field, first_str, riot_id_from_value, riot_id_spec, str_views};
use crate::tally::{counts_below, lemma_tally_insert_counts, tally_add, tally_insert, tally_of, tally_view};
use crate::text::{
    chars_of, concat3, decimal, decimal_string, lower_seq, lowercase, owned, push_str, seq_eq, string_of, trim,
    trim_str, trim_vec,
};

verus! {

/// One friend as the summary counts it.
#[derive(Debug)]
pub struct FriendSummaryEntry {
    pub name: String,
    pub availability: String,
    pub product: String,
}

pub open spec fn entry_view(e: FriendSummaryEntry) -> (Seq<char>, Seq<char>, Seq<char>) {
    (e.name@, e.availability@, e.product@)
}

pub open spec fn entries_view(v: Seq<FriendSummaryEntry>) -> Seq<(Seq<char>, Seq<char>, Seq<char>)> {
    v.map_values(|e: FriendSummaryEntry| entry_view(e))
}

// ---------------------------------------------------------------------------
// Normalising what the client reports
// ---------------------------------------------------------------------------

/// A status as the summary names it: the client's words (case and
/// surrounding whitespace aside) mapped to `online`, `away`, `dnd`,
/// `mobile`, `offline` or `unknown`; any other word lower-cased.
pub open spec fn availability_name(v: Seq<char>) -> Seq<char> {
    let k = lower_seq(trim(v));
    if k == "chat"@ || k == "online"@ {
        "online"@
    } else if k == "away"@ {
        "away"@
    } else if k == "dnd"@ || k == "busy"@ {
        "dnd"@
    } else if k == "mobile"@ {
        "mobile"@
    } else if k == "offline"@ {
        "offline"@
    } else if k == "unknown"@ || k.len() == 0 {
        "unknown"@
    } else {
        k
    }
}

/// The summary keeps a friend's status word as the client wrote it (case
/// and surrounding whitespace aside), except that `chat` reads as `online`,
/// `busy` as `dnd`, and no word as `unknown`: `online`, `away`, `dnd`,
/// `mobile`, `offline` and any other word stay what they are.
pub proof fn lemma_availability_kept(v: Seq<char>)
    ensures
        ({
            let k = lower_seq(trim(v));
            &&& k == "chat"@ ==> availability_name(v) == "online"@
            &&& k == "busy"@ ==> availability_name(v) == "dnd"@
            &&& k.len() == 0 ==> availability_name(v) == "unknown"@
            &&& k != "chat"@ && k != "busy"@ && k.len() > 0 ==> availability_name(v) == k
        }),
{
    reveal_strlit("chat");
    reveal_strlit("online");
    reveal_strlit("away");
    reveal_strlit("dnd");
    reveal_strlit("busy");
    assert("chat"@.len() == 4 && "chat"@[0] == 'c');
    assert("away"@.len() == 4 && "away"@[0] == 'a');
    assert("busy"@.len() == 4 && "busy"@[0] == 'b');
    assert("online"@.len() == 6);
    assert("dnd"@.len() == 3);
    reveal_strlit("mobile");
    reveal_strlit("offline");
    reveal_strlit("unknown");
    assert("mobile"@.len() == 6);
    assert("offline"@.len() == 7);
    assert("unknown"@.len() == 7);
}

/// The summary names the client's game ids by their games: `league_of_legends`
/// or `lol` as League, `valorant` as VALORANT, `riot_mobile` or `mobile` as
/// Riot Mobile, `bacon` or `lor` as Runeterra, `keystone` or `riot_client`
/// as Riot Client, `unknown` or no id as Unknown; any other id is kept
/// (lower-cased).
pub proof fn lemma_product_names(v: Seq<char>)
    ensures
        ({
            let k = lower_seq(trim(v));
            let known = k == "league_of_legends"@ || k == "lol"@ || k == "valorant"@ || k == "riot_mobile"@
                || k == "mobile"@ || k == "bacon"@ || k == "lor"@ || k == "keystone"@ || k == "riot_client"@
                || k == "unknown"@ || k.len() == 0;
            &&& (k == "league_of_legends"@ || k == "lol"@) ==> product_name(v) == "League"@
            &&& k == "valorant"@ ==> product_name(v) == "VALORANT"@
            &&& (k == "riot_mobile"@ || k == "mobile"@) ==> product_name(v) == "Riot Mobile"@
            &&& (k == "bacon"@ || k == "lor"@) ==> product_name(v) == "Runeterra"@
            &&& (k == "keystone"@ || k == "riot_client"@) ==> product_name(v) == "Riot Client"@
            &&& (k == "unknown"@ || k.len() == 0) ==> product_name(v) == "Unknown"@
            &&& !known ==> product_name(v) == k
        }),
{
    reveal_strlit("league_of_legends");
    reveal_strlit("lol");
    reveal_strlit("valorant");
    reveal_strlit("riot_mobile");
    reveal_strlit("mobile");
    reveal_strlit("bacon");
    reveal_strlit("lor");
    reveal_strlit("keystone");
    reveal_strlit("riot_client");
    reveal_strlit("unknown");
    assert("league_of_legends"@.len() == 17);
    assert("lol"@.len() == 3 && "lol"@[2] == 'l');
    assert("lor"@.len() == 3 && "lor"@[2] == 'r');
    assert("valorant"@.len() == 8 && "valorant"@[0] == 'v');
    assert("keystone"@.len() == 8 && "keystone"@[0] == 'k');
    assert("riot_mobile"@.len() == 11 && "riot_mobile"@[5] == 'm');
    assert("riot_client"@.len() == 11 && "riot_client"@[5] == 'c');
    assert("mobile"@.len() == 6);
    assert("bacon"@.len() == 5);
    assert("unknown"@.len() == 7);
}

/// A game as the summary names it: the client's product ids (case and
/// surrounding whitespace aside) mapped to display names; any other id
/// lower-cased.
pub open spec fn product_name(v: Seq<char>) -> Seq<char> {
    let k = lower_seq(trim(v));
    if k == "league_of_legends"@ || k == "lol"@ {
        "League"@
    } else if k == "valorant"@ {
        "VALORANT"@
    } else if k == "riot_mobile"@ || k == "mobile"@ {
        "Riot Mobile"@
    } else if k == "bacon"@ || k == "lor"@ {
        "Runeterra"@
    } else if k == "keystone"@ || k == "riot_client"@ {
        "Riot Client"@
    } else if k == "unknown"@ || k.len() == 0 {
        "Unknown"@
    } else {
        k
    }
}

fn is_word(v: &[char], word: &str) -> (r: bool)
    ensures
        r == (v@ == word@),
{
    let w = chars_of(word);
    seq_eq(v, w.as_slice())
}

fn lowered_trim(value: &str) -> (r: Vec<char>)
    ensures
        r@ == lower_seq(trim(value@)),
{
    let v = chars_of(value);
    let t = trim_vec(v.as_slice());
    lowercase(t.as_slice())
}

pub fn normalize_friend_availability(value: &str) -> (r: String)
    ensures
        r@ == availability_name(value@),
{
    let k = lowered_trim(value);
    let k = k.as_slice();
    if is_word(k, "chat") || is_word(k, "online") {
        owned("online")
    } else if is_word(k, "away") {
        owned("away")
    } else if is_word(k, "dnd") || is_word(k, "busy") {
        owned("dnd")
    } else if is_word(k, "mobile") {
        owned("mobile")
    } else if is_word(k, "offline") {
        owned("offline")
    } else if is_word(k, "unknown") || k.len() == 0 {
        owned("unknown")
    } else {
        string_of(k)
    }
}

pub fn normalize_friend_product(value: &str) -> (r: String)
    ensures
        r@ == product_name(value@),
{
    let k = lowered_trim(value);
    let k = k.as_slice();
    if is_word(k, "league_of_legends") || is_word(k, "lol") {
        owned("League")
    } else if is_word(k, "valorant") {
        owned("VALORANT")
    } else if is_word(k, "riot_mobile") || is_word(k, "mobile") {
        owned("Riot Mobile")
    } else if is_word(k, "bacon") || is_word(k, "lor") {
        owned("Runeterra")
    } else if is_word(k, "keystone") || is_word(k, "riot_client") {
        owned("Riot Client")
    } else if is_word(k, "unknown") || k.len() == 0 {
        owned("Unknown")
    } else {
        string_of(k)
    }
}

// ---------------------------------------------------------------------------
// Reading friends from client data
// ---------------------------------------------------------------------------

pub open spec fn name_keys() -> Seq<Seq<char>> {
    seq!["displayName"@, "name"@, "summonerName"@]
}

pub open spec fn availability_keys() -> Seq<Seq<char>> {
    seq!["availability"@, "show"@]
}

pub open spec fn product_keys() -> Seq<Seq<char>> {
    seq!["product"@, "productName"@, "game"@]
}

/// A friend's name: the Riot ID as `name#tag` where there is one, else the
/// first name field present, trimmed, unless blank.
pub open spec fn friend_name(f: JsonView) -> Option<Seq<char>> {
    match riot_id_spec(f) {
        Some(id) => Some(id.0 + "#"@ + id.1),
        None => match first_str(f, name_keys()) {
            Some(n) => if trim(n).len() > 0 {
                Some(trim(n))
            } else {
                None
            },
            None => None,
        },
    }
}

/// The first field of `keys` present, trimmed; `unknown` where none is.
pub open spec fn field_or_unknown(f: JsonView, keys: Seq<Seq<char>>) -> Seq<char> {
    match first_str(f, keys) {
        Some(v) => trim(v),
        None => "unknown"@,
    }
}

/// A friend of the summary: those without a name are left out.
pub open spec fn friend_spec(f: JsonView) -> Option<(Seq<char>, Seq<char>, Seq<char>)> {
    match friend_name(f) {
        Some(n) => Some(
            (
                n,
                availability_name(field_or_unknown(f, availability_keys())),
                product_name(field_or_unknown(f, product_keys())),
            ),
        ),
        None => None,
    }
}

fn first_field_of(json: &JsonValue, keys: &[&str]) -> (r: Option<String>)
    ensures
        crate::lcu::opt_chars(r) == first_str(json@, str_views(keys@)),
{
    let mut i: usize = 0;
    assert(str_views(keys@).skip(0) =~= str_views(keys@));
    while i < keys.len()
        invariant
            i <= keys@.len(),
            first_str(json@, str_views(keys@)) == first_str(json@, str_views(keys@).skip(i as int)),
        decreases keys@.len() - i,
    {
        let ghost rest = str_views(keys@).skip(i as int);
        assert(rest[0] == keys@[i as int]@);
        match json.get_str(keys[i]) {
            Some(s) => return Some(s.clone()),
            None => {},
        }
        assert(rest.drop_first() =~= str_views(keys@).skip(i + 1));
        i += 1;
    }
    None
}

pub fn friend_display_name(friend: &JsonValue) -> (r: Option<String>)
    ensures
        crate::lcu::opt_chars(r) == friend_name(friend@),
{
    if let Some((game_name, tag_line)) = riot_id_from_value(friend) {
        return Some(concat3(game_name.as_str(), "#", tag_line.as_str()));
    }
    let keys: [&str; 3] = ["displayName", "name", "summonerName"];
    assert(str_views(keys@) =~= name_keys());
    match first_field_of(friend, &keys) {
        Some(n) => {
            let t = trim_str(n.as_str());
            if t.as_str().is_empty() {
                None
            } else {
                Some(t)
            }
        },
        None => None,
    }
}

fn field_or_unknown_exec(friend: &JsonValue, keys: &[&str]) -> (r: String)
    ensures
        r@ == field_or_unknown(friend@, str_views(keys@)),
{
    match first_field_of(friend, keys) {
        Some(v) => trim_str(v.as_str()),
        None => owned("unknown"),
    }
}

pub fn friend_from_value(friend: &JsonValue) -> (r: Option<FriendSummaryEntry>)
    ensures
        match r {
            Some(e) => friend_spec(friend@) == Some(entry_view(e)),
            None => friend_spec(friend@) is None,
        },
{
    let name = match friend_display_name(friend) {
        Some(n) => n,
        None => return None,
    };
    let ak: [&str; 2] = ["availability", "show"];
    let pk: [&str; 3] = ["product", "productName", "game"];
    assert(str_views(ak@) =~= availability_keys());
    assert(str_views(pk@) =~= product_keys());
    let availability = field_or_unknown_exec(friend, &ak);
    let product = field_or_unknown_exec(friend, &pk);
    Some(
        FriendSummaryEntry {
            name,
            availability: normalize_friend_availability(availability.as_str()),
            product: normalize_friend_product(product.as_str()),
        },
    )
}

/// Where a friends reply keeps its list: the reply itself where it is an
/// array, else its `friends` array.
pub open spec fn friend_items(body: JsonView) -> Seq<JsonView> {
    match body {
        JsonView::Array(items) => items,
        _ => array_field(body, "friends"@),
    }
}

pub open spec fn friends_spec(items: Seq<JsonView>) -> Seq<(Seq<char>, Seq<char>, Seq<char>)>
    decreases items.len(),
{
    if items.len() == 0 {
        seq![]
    } else {
        let prev = friends_spec(items.drop_last());
        match friend_spec(items.last()) {
            Some(e) => prev.push(e),
            None => prev,
        }
    }
}

fn friend_array(body: &JsonValue) -> (r: &[JsonValue])
    ensures
        items_view(r@) == friend_items(body@),
{
    match body {
        JsonValue::Array(items) => items.as_slice(),
        _ => match body.get("friends") {
            Some(JsonValue::Array(items)) => items.as_slice(),
            _ => {
                let empty: &[JsonValue] = &[];
                assert(items_view(empty@) =~= Seq::<JsonView>::empty());
                empty
            },
        },
    }
}

/// The friends of a friends reply, in order (see `friend_spec`).
pub fn friends_from_value(body: &JsonValue) -> (r: Vec<FriendSummaryEntry>)
    ensures
        entries_view(r@) == friends_spec(friend_items(body@)),
{
    let items = friend_array(body);
    let mut out: Vec<FriendSummaryEntry> = Vec::new();
    let mut i: usize = 0;
    proof {
        lemma_items_view_len(items@);
    }
    while i < items.len()
        invariant
            i <= items@.len() == items_view(items@).len(),
            entries_view(out@) == friends_spec(items_view(items@).take(i as int)),
        decreases items@.len() - i,
    {
        proof {
            lemma_items_view_index(items@, i as int);
            assert(items_view(items@).take(i + 1).drop_last() =~= items_view(items@).take(i as int));
        }
        let ghost prev = entries_view(out@);
        match friend_from_value(&items[i]) {
            Some(e) => {
                out.push(e);
                assert(entries_view(out@) =~= prev.push(friend_spec(json_view(items@[i as int]))->0));
            },
            None => {},
        }
        i += 1;
    }
    assert(items_view(items@).take(items@.len() as int) =~= items_view(items@));
    out
}

// ---------------------------------------------------------------------------
// The summary
// ---------------------------------------------------------------------------

/// `a, b, c`.
pub open spec fn join_parts(parts: Seq<Seq<char>>) -> Seq<char>
    decreases parts.len(),
{
    if parts.len() == 0 {
        seq![]
    } else if parts.len() == 1 {
        parts[0]
    } else {
        join_parts(parts.drop_last()) + ", "@ + parts.last()
    }
}

pub open spec fn count_part(k: Seq<char>, n: nat) -> Seq<char> {
    k + " "@ + decimal(n)
}

/// The count of `k` in a tally, if it is there.
pub open spec fn lookup(t: Seq<(Seq<char>, nat)>, k: Seq<char>) -> Option<nat>
    decreases t.len(),
{
    if t.len() == 0 {
        None
    } else if t[0].0 == k {
        Some(t[0].1)
    } else {
        lookup(t.drop_first(), k)
    }
}

/// The counts of the keys of `order`, in that order, for those present.
pub open spec fn ordered_parts(t: Seq<(Seq<char>, nat)>, order: Seq<Seq<char>>) -> Seq<Seq<char>>
    decreases order.len(),
{
    if order.len() == 0 {
        seq![]
    } else {
        let prev = ordered_parts(t, order.drop_last());
        match lookup(t, order.last()) {
            Some(n) => prev.push(count_part(order.last(), n)),
            None => prev,
        }
    }
}

/// The counts of the tally's other keys, in the tally's order.
pub open spec fn other_parts(t: Seq<(Seq<char>, nat)>, order: Seq<Seq<char>>) -> Seq<Seq<char>>
    decreases t.len(),
{
    if t.len() == 0 {
        seq![]
    } else {
        let prev = other_parts(t.drop_last(), order);
        if order.contains(t.last().0) {
            prev
        } else {
            prev.push(count_part(t.last().0, t.last().1))
        }
    }
}

/// The counts of a tally as `key count` parts joined by `, `: the keys of
/// `order` first, in that order, then the others in the tally's order.
pub open spec fn ordered_counts_spec(t: Seq<(Seq<char>, nat)>, order: Seq<Seq<char>>) -> Seq<char> {
    join_parts(ordered_parts(t, order) + other_parts(t, order))
}

pub open spec fn status_order() -> Seq<Seq<char>> {
    seq!["online"@, "dnd"@, "away"@, "mobile"@, "offline"@, "unknown"@]
}

pub open spec fn availabilities(fs: Seq<(Seq<char>, Seq<char>, Seq<char>)>) -> Seq<Seq<char>> {
    fs.map_values(|e: (Seq<char>, Seq<char>, Seq<char>)| e.1)
}

pub open spec fn products(fs: Seq<(Seq<char>, Seq<char>, Seq<char>)>) -> Seq<Seq<char>> {
    fs.map_values(|e: (Seq<char>, Seq<char>, Seq<char>)| e.2)
}

/// The helper's friends reply: how many friends, their statuses (in the
/// order online, dnd, away, mobile, offline, unknown, then any other in
/// text order) and their games (in text order), each with its count.
pub open spec fn friends_summary(fs: Seq<(Seq<char>, Seq<char>, Seq<char>)>) -> Seq<char> {
    if fs.len() == 0 {
        "Friends: 0 found. League Client did not return any friends."@
    } else {
        "Friends: "@ + decimal(fs.len()) + " total. Statuses: "@ + ordered_counts_spec(
            tally_of(availabilities(fs)),
            status_order(),
        ) + ". Products: "@ + ordered_counts_spec(tally_of(products(fs)), seq![]) + "."@
    }
}

fn join_strings(parts: &Vec<String>) -> (r: String)
    ensures
        r@ == join_parts(parts@.map_values(|s: String| s@)),
{
    let ghost pv = parts@.map_values(|s: String| s@);
    let mut r = String::new();
    let mut i: usize = 0;
    while i < parts.len()
        invariant
            i <= parts@.len(),
            pv == parts@.map_values(|s: String| s@),
            r@ == join_parts(pv.take(i as int)),
        decreases parts@.len() - i,
    {
        assert(pv.take(i + 1).drop_last() =~= pv.take(i as int));
        if i > 0 {
            push_str(&mut r, ", ");
        } else {
            assert(join_parts(pv.take(0)) =~= Seq::<char>::empty());
            assert(r@ =~= Seq::<char>::empty());
        }
        push_str(&mut r, parts[i].as_str());
        i += 1;
    }
    assert(pv.take(parts@.len() as int) =~= pv);
    r
}

fn count_text(k: &str, n: usize) -> (r: String)
    ensures
        r@ == count_part(k@, n as nat),
{
    let d = decimal_string(n as u64);
    concat3(k, " ", d.as_str())
}

fn lookup_exec(counts: &[(String, usize)], k: &str) -> (r: Option<usize>)
    ensures
        match r {
            Some(n) => lookup(tally_view(counts@), k@) == Some(n as nat),
            None => lookup(tally_view(counts@), k@) is None,
        },
{
    let kv = chars_of(k);
    let ghost t = tally_view(counts@);
    let mut i: usize = 0;
    assert(t.skip(0) =~= t);
    while i < counts.len()
        invariant
            i <= counts@.len(),
            t == tally_view(counts@),
            kv@ == k@,
            lookup(t, k@) == lookup(t.skip(i as int), k@),
        decreases counts@.len() - i,
    {
        let ghost rest = t.skip(i as int);
        assert(rest[0] == (counts@[i as int].0@, counts@[i as int].1 as nat));
        let name = chars_of(counts[i].0.as_str());
        if seq_eq(name.as_slice(), kv.as_slice()) {
            return Some(counts[i].1);
        }
        assert(rest.drop_first() =~= t.skip(i + 1));
        i += 1;
    }
    None
}

fn in_order(order: &[&str], k: &str) -> (r: bool)
    ensures
        r == str_views(order@).contains(k@),
{
    let kv = chars_of(k);
    let mut i: usize = 0;
    while i < order.len()
        invariant
            i <= order@.len(),
            kv@ == k@,
            forall|j: int| 0 <= j < i ==> str_views(order@)[j] != k@,
        decreases order@.len() - i,
    {
        let o = chars_of(order[i]);
        assert(str_views(order@)[i as int] == order@[i as int]@);
        if seq_eq(o.as_slice(), kv.as_slice()) {
            assert(str_views(order@)[i as int] == k@);
            return true;
        }
        i += 1;
    }
    false
}

/// The counts of a tally (see `ordered_counts_spec`).
pub fn ordered_counts(counts: &[(String, usize)], order: &[&str]) -> (r: String)
    ensures
        r@ == ordered_counts_spec(tally_view(counts@), str_views(order@)),
{
    let ghost t = tally_view(counts@);
    let ghost ov = str_views(order@);
    let mut parts: Vec<String> = Vec::new();
    let mut i: usize = 0;
    while i < order.len()
        invariant
            i <= order@.len(),
            t == tally_view(counts@),
            ov == str_views(order@),
            parts@.map_values(|s: String| s@) == ordered_parts(t, ov.take(i as int)),
        decreases order@.len() - i,
    {
        assert(ov.take(i + 1).drop_last() =~= ov.take(i as int));
        assert(ov[i as int] == order@[i as int]@);
        let ghost prev = parts@.map_values(|s: String| s@);
        match lookup_exec(counts, order[i]) {
            Some(n) => {
                parts.push(count_text(order[i], n));
                assert(parts@.map_values(|s: String| s@) =~= prev.push(count_part(ov[i as int], n as nat)));
            },
            None => {
                assert(parts@.map_values(|s: String| s@) =~= prev);
            },
        }
        i += 1;
    }
    assert(ov.take(order@.len() as int) =~= ov);
    let ghost first = parts@.map_values(|s: String| s@);
    let mut j: usize = 0;
    while j < counts.len()
        invariant
            j <= counts@.len(),
            t == tally_view(counts@),
            ov == str_views(order@),
            parts@.map_values(|s: String| s@) == first + other_parts(t.take(j as int), ov),
        decreases counts@.len() - j,
    {
        assert(t.take(j + 1).drop_last() =~= t.take(j as int));
        assert(t[j as int] == (counts@[j as int].0@, counts@[j as int].1 as nat));
        let ghost prev = parts@.map_values(|s: String| s@);
        if !in_order(order, counts[j].0.as_str()) {
            parts.push(count_text(counts[j].0.as_str(), counts[j].1));
            assert(parts@.map_values(|s: String| s@) =~= prev.push(
                count_part(t[j as int].0, t[j as int].1),
            ));
            assert(first + other_parts(t.take(j + 1), ov) =~= (first + other_parts(
                t.take(j as int),
                ov,
            )).push(count_part(t[j as int].0, t[j as int].1)));
        } else {
            assert(parts@.map_values(|s: String| s@) =~= prev);
        }
        j += 1;
    }
    assert(t.take(counts@.len() as int) =~= t);
    join_strings(&parts)
}

/// Counts each key of `keys` into a tally (see `tally_of`).
fn tally_keys(keys: &Vec<&str>) -> (r: Vec<(String, usize)>)
    ensures
        tally_view(r@) == tally_of(str_views(keys@)),
{
    let ghost kv = str_views(keys@);
    let mut t: Vec<(String, usize)> = Vec::new();
    let mut i: usize = 0;
    assert(tally_view(t@) =~= Seq::<(Seq<char>, nat)>::empty());
    while i < keys.len()
        invariant
            i <= keys@.len(),
            kv == str_views(keys@),
            tally_view(t@) == tally_of(kv.take(i as int)),
            counts_below(tally_view(t@), i as nat),
        decreases keys@.len() - i,
    {
        assert(kv.take(i + 1).drop_last() =~= kv.take(i as int));
        assert(kv[i as int] == keys@[i as int]@);
        proof {
            lemma_tally_insert_counts(tally_view(t@), keys@[i as int]@, i as nat);
            assert forall|m: int| 0 <= m < t@.len() implies t@[m].1 < usize::MAX by {
                assert(tally_view(t@)[m].1 == t@[m].1);
            }
        }
        tally_add(&mut t, keys[i]);
        i += 1;
    }
    assert(kv.take(keys@.len() as int) =~= kv);
    t
}

pub fn format_friends_summary(friends: &[FriendSummaryEntry]) -> (r: String)
    ensures
        r@ == friends_summary(entries_view(friends@)),
{
    let ghost fs = entries_view(friends@);
    if friends.len() == 0 {
        return owned("Friends: 0 found. League Client did not return any friends.");
    }
    let mut avail: Vec<&str> = Vec::new();
    let mut prod: Vec<&str> = Vec::new();
    let mut i: usize = 0;
    while i < friends.len()
        invariant
            i <= friends@.len(),
            fs == entries_view(friends@),
            str_views(avail@) == availabilities(fs).take(i as int),
            str_views(prod@) == products(fs).take(i as int),
        decreases friends@.len() - i,
    {
        let ghost sa = str_views(avail@);
        let ghost sp = str_views(prod@);
        assert(fs[i as int] == entry_view(friends@[i as int]));
        avail.push(friends[i].availability.as_str());
        prod.push(friends[i].product.as_str());
        assert(str_views(avail@) =~= sa.push(fs[i as int].1));
        assert(str_views(prod@) =~= sp.push(fs[i as int].2));
        assert(availabilities(fs).take(i + 1) =~= availabilities(fs).take(i as int).push(fs[i as int].1));
        assert(products(fs).take(i + 1) =~= products(fs).take(i as int).push(fs[i as int].2));
        assert(str_views(avail@) =~= availabilities(fs).take(i + 1));
        assert(str_views(prod@) =~= products(fs).take(i + 1));
        i += 1;
    }
    assert(availabilities(fs).take(friends@.len() as int) =~= availabilities(fs));
    assert(products(fs).take(friends@.len() as int) =~= products(fs));
    let avail_counts = tally_keys(&avail);
    let prod_counts = tally_keys(&prod);
    let order: [&str; 6] = ["online", "dnd", "away", "mobile", "offline", "unknown"];
    assert(str_views(order@) =~= status_order());
    let none: [&str; 0] = [];
    assert(str_views(none@) =~= Seq::<Seq<char>>::empty());
    let statuses = ordered_counts(avail_counts.as_slice(), &order);
    let products_text = ordered_counts(prod_counts.as_slice(), &none);
    let mut r = owned("Friends: ");
    let n = decimal_string(friends.len() as u64);
    push_str(&mut r, n.as_str());
    push_str(&mut r, " total. Statuses: ");
    push_str(&mut r, statuses.as_str());
    push_str(&mut r, ". Products: ");
    push_str(&mut r, products_text.as_str());
    push_str(&mut r, ".");
    r
}

} // verus!

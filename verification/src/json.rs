//! JSON documents as plain values.
use vstd::prelude::*;

use crate::text::{chars_of, seq_eq};

verus! {

/// A JSON number: an unsigned integer, a negative integer, or any other number
/// kept as its JSON text.
#[derive(Debug, Clone)]
pub enum JsonNumber {
    Unsigned(u64),
    Negative(i64),
    Other(String),
}

/// A JSON value. Object members are kept in the order they are given; one
/// that serde_json reads has its keys sorted, each once.
#[derive(Debug)]
pub enum JsonValue {
    Null,
    Bool(bool),
    Number(JsonNumber),
    Str(String),
    Array(Vec<JsonValue>),
    Object(Vec<(String, JsonValue)>),
}

pub enum NumberView {
    Unsigned(u64),
    Negative(i64),
    Other(Seq<char>),
}

pub enum JsonView {
    Null,
    Bool(bool),
    Number(NumberView),
    Str(Seq<char>),
    Array(Seq<JsonView>),
    Object(Seq<(Seq<char>, JsonView)>),
}

pub open spec fn number_view(n: JsonNumber) -> NumberView {
    match n {
        JsonNumber::Unsigned(u) => NumberView::Unsigned(u),
        JsonNumber::Negative(i) => NumberView::Negative(i),
        JsonNumber::Other(s) => NumberView::Other(s@),
    }
}

pub open spec fn json_view(v: JsonValue) -> JsonView
    decreases v,
{
    match v {
        JsonValue::Null => JsonView::Null,
        JsonValue::Bool(b) => JsonView::Bool(b),
        JsonValue::Number(n) => JsonView::Number(number_view(n)),
        JsonValue::Str(s) => JsonView::Str(s@),
        JsonValue::Array(items) => JsonView::Array(items_view(items@)),
        JsonValue::Object(members) => JsonView::Object(members_view(members@)),
    }
}

pub open spec fn items_view(items: Seq<JsonValue>) -> Seq<JsonView>
    decreases items,
{
    if items.len() == 0 {
        seq![]
    } else {
        items_view(items.drop_last()).push(json_view(items.last()))
    }
}

pub open spec fn members_view(members: Seq<(String, JsonValue)>) -> Seq<(Seq<char>, JsonView)>
    decreases members,
{
    if members.len() == 0 {
        seq![]
    } else {
        members_view(members.drop_last()).push(
            (members.last().0@, json_view(members.last().1)),
        )
    }
}

impl View for JsonValue {
    type V = JsonView;

    open spec fn view(&self) -> JsonView {
        json_view(*self)
    }
}

pub proof fn lemma_members_view_len(m: Seq<(String, JsonValue)>)
    ensures
        members_view(m).len() == m.len(),
    decreases m.len(),
{
    if m.len() > 0 {
        lemma_members_view_len(m.drop_last());
    }
}

pub proof fn lemma_members_view_index(m: Seq<(String, JsonValue)>, i: int)
    requires
        0 <= i < m.len(),
    ensures
        members_view(m)[i] == (m[i].0@, json_view(m[i].1)),
        members_view(m).len() == m.len(),
    decreases m.len(),
{
    lemma_members_view_len(m);
    if i < m.len() - 1 {
        lemma_members_view_index(m.drop_last(), i);
    }
}

pub proof fn lemma_items_view_index(m: Seq<JsonValue>, i: int)
    requires
        0 <= i < m.len(),
    ensures
        items_view(m)[i] == json_view(m[i]),
        items_view(m).len() == m.len(),
    decreases m.len(),
{
    lemma_items_view_len(m);
    if i < m.len() - 1 {
        lemma_items_view_index(m.drop_last(), i);
    }
}

pub proof fn lemma_items_view_len(m: Seq<JsonValue>)
    ensures
        items_view(m).len() == m.len(),
    decreases m.len(),
{
    if m.len() > 0 {
        lemma_items_view_len(m.drop_last());
    }
}

/// The value of the first member named `key`.
pub open spec fn member(members: Seq<(Seq<char>, JsonView)>, key: Seq<char>) -> Option<JsonView>
    decreases members.len(),
{
    if members.len() == 0 {
        None
    } else if members[0].0 == key {
        Some(members[0].1)
    } else {
        member(members.drop_first(), key)
    }
}

/// `Value::get(key)`: the member of an object; `None` for other values.
pub open spec fn get(v: JsonView, key: Seq<char>) -> Option<JsonView> {
    match v {
        JsonView::Object(m) => member(m, key),
        _ => None,
    }
}

pub open spec fn as_str(v: JsonView) -> Option<Seq<char>> {
    match v {
        JsonView::Str(s) => Some(s),
        _ => None,
    }
}

pub open spec fn as_u64(v: JsonView) -> Option<u64> {
    match v {
        JsonView::Number(NumberView::Unsigned(u)) => Some(u),
        _ => None,
    }
}

pub open spec fn as_bool(v: JsonView) -> Option<bool> {
    match v {
        JsonView::Bool(b) => Some(b),
        _ => None,
    }
}

pub open spec fn get_str(v: JsonView, key: Seq<char>) -> Option<Seq<char>> {
    match get(v, key) {
        Some(x) => as_str(x),
        None => None,
    }
}

pub open spec fn keys_unique(m: Seq<(Seq<char>, JsonView)>) -> bool {
    forall|i: int, j: int| 0 <= i < j < m.len() ==> m[i].0 != m[j].0
}

proof fn lemma_member_at(members: Seq<(Seq<char>, JsonView)>, key: Seq<char>, i: int)
    requires
        0 <= i < members.len(),
        members[i].0 == key,
        forall|k: int| 0 <= k < i ==> members[k].0 != key,
    ensures
        member(members, key) == Some(members[i].1),
    decreases i,
{
    if i > 0 {
        lemma_member_at(members.drop_first(), key, i - 1);
    }
}

proof fn lemma_member_absent(members: Seq<(Seq<char>, JsonView)>, key: Seq<char>)
    requires
        forall|k: int| 0 <= k < members.len() ==> members[k].0 != key,
    ensures
        member(members, key).is_none(),
    decreases members.len(),
{
    if members.len() > 0 {
        lemma_member_absent(members.drop_first(), key);
    }
}

/// Position of the first member named `key`.
pub fn member_index(members: &Vec<(String, JsonValue)>, key: &str) -> (r: Option<usize>)
    ensures
        match r {
            Some(i) => i < members@.len() && members@[i as int].0@ == key@ && member(
                members_view(members@),
                key@,
            ) == Some(json_view(members@[i as int].1)),
            None => member(members_view(members@), key@).is_none(),
        },
{
    let k = chars_of(key);
    let mut i: usize = 0;
    proof {
        lemma_members_view_len(members@);
    }
    while i < members.len()
        invariant
            i <= members@.len(),
            k@ == key@,
            members_view(members@).len() == members@.len(),
            forall|m: int| 0 <= m < i ==> members@[m].0@ != key@,
        decreases members@.len() - i,
    {
        let name = chars_of(members[i].0.as_str());
        if seq_eq(name.as_slice(), k.as_slice()) {
            proof {
                let mv = members_view(members@);
                assert forall|m: int| 0 <= m < i implies mv[m].0 != key@ by {
                    lemma_members_view_index(members@, m);
                }
                lemma_members_view_index(members@, i as int);
                lemma_member_at(mv, key@, i as int);
            }
            return Some(i);
        }
        i += 1;
    }
    proof {
        let mv = members_view(members@);
        assert forall|m: int| 0 <= m < mv.len() implies mv[m].0 != key@ by {
            lemma_members_view_index(members@, m);
        }
        lemma_member_absent(mv, key@);
    }
    None
}

impl JsonValue {
    /// `Value::get`: the member named `key` of an object.
    pub fn get(&self, key: &str) -> (r: Option<&JsonValue>)
        ensures
            match r {
                Some(x) => get(self@, key@) == Some(x@),
                None => get(self@, key@).is_none(),
            },
    {
        match self {
            JsonValue::Object(members) => match member_index(members, key) {
                Some(i) => Some(&members[i].1),
                None => None,
            },
            _ => None,
        }
    }

    pub fn as_str(&self) -> (r: Option<&String>)
        ensures
            match r {
                Some(s) => as_str(self@) == Some(s@),
                None => as_str(self@).is_none(),
            },
    {
        match self {
            JsonValue::Str(s) => Some(s),
            _ => None,
        }
    }

    pub fn as_u64(&self) -> (r: Option<u64>)
        ensures
            r == as_u64(self@),
    {
        match self {
            JsonValue::Number(JsonNumber::Unsigned(u)) => Some(*u),
            _ => None,
        }
    }

    pub fn as_bool(&self) -> (r: Option<bool>)
        ensures
            r == as_bool(self@),
    {
        match self {
            JsonValue::Bool(b) => Some(*b),
            _ => None,
        }
    }

    pub fn is_object(&self) -> (r: bool)
        ensures
            r == (self@ is Object),
    {
        match self {
            JsonValue::Object(_) => true,
            _ => false,
        }
    }

    /// The string member named `key`.
    pub fn get_str(&self, key: &str) -> (r: Option<&String>)
        ensures
            match r {
                Some(s) => get_str(self@, key@) == Some(s@),
                None => get_str(self@, key@).is_none(),
            },
    {
        match self.get(key) {
            Some(v) => v.as_str(),
            None => None,
        }
    }
}

/// Moves a `serde_json::Value` into a `JsonValue`, variant by variant; object
/// members keep the map's order. Nothing is claimed of it; the caller's name
/// covers the whole read.
#[verifier::external_body]
fn json_from_serde(v: serde_json::Value) -> JsonValue {
    match v {
        serde_json::Value::Null => JsonValue::Null,
        serde_json::Value::Bool(b) => JsonValue::Bool(b),
        serde_json::Value::Number(n) => JsonValue::Number(json_number_from_serde(n)),
        serde_json::Value::String(s) => JsonValue::Str(s),
        serde_json::Value::Array(a) => JsonValue::Array(a.into_iter().map(json_from_serde).collect()),
        serde_json::Value::Object(m) => JsonValue::Object(
            m.into_iter().map(|(k, v)| (k, json_from_serde(v))).collect(),
        ),
    }
}

/// Moves a `serde_json::Number` into a `JsonNumber`: `Unsigned` when it is a
/// `u64`, else `Negative` when it is an `i64`, else its JSON text.
#[verifier::external_body]
fn json_number_from_serde(n: serde_json::Number) -> JsonNumber {
    match (n.as_u64(), n.as_i64()) {
        (Some(u), _) => JsonNumber::Unsigned(u),
        (None, Some(i)) => JsonNumber::Negative(i),
        (None, None) => JsonNumber::Other(n.to_string()),
    }
}

/// Moves a `JsonNumber` into a `serde_json::Value`: an integer as it is, a
/// number kept as text read back by serde_json (`Null` where it refuses it).
#[verifier::external_body]
fn json_number_to_serde(n: &JsonNumber) -> serde_json::Value {
    match n {
        JsonNumber::Unsigned(u) => serde_json::Value::Number((*u).into()),
        JsonNumber::Negative(i) => serde_json::Value::Number((*i).into()),
        JsonNumber::Other(t) => t.parse::<serde_json::Number>().map_or(serde_json::Value::Null, serde_json::Value::Number),
    }
}

/// Moves a `JsonValue` into a `serde_json::Value`, variant by variant.
/// Nothing is claimed of it; the caller's name covers the whole write.
#[verifier::external_body]
fn json_to_serde(v: &JsonValue) -> serde_json::Value {
    match v {
        JsonValue::Null => serde_json::Value::Null,
        JsonValue::Bool(b) => serde_json::Value::Bool(*b),
        JsonValue::Number(n) => json_number_to_serde(n),
        JsonValue::Str(s) => serde_json::Value::String(s.clone()),
        JsonValue::Array(a) => serde_json::Value::Array(a.iter().map(json_to_serde).collect()),
        JsonValue::Object(m) => serde_json::Value::Object(m.iter().map(|(k, v)| (k.clone(), json_to_serde(v))).collect()),
    }
}

#[verifier::external_type_specification]
#[verifier::external_body]
pub struct ExSerdeJsonValue(serde_json::Value);

#[verifier::external_type_specification]
#[verifier::external_body]
pub struct ExSerdeJsonNumber(serde_json::Number);

/// The JSON value serde_json reads from some bytes; `None` where it refuses
/// them.
pub uninterp spec fn json_parse(bytes: Seq<u8>) -> Option<JsonView>;

pub open spec fn opt_json_view(o: Option<JsonValue>) -> Option<JsonView> {
    match o {
        Some(v) => Some(v@),
        None => None,
    }
}

/// `serde_json::from_slice::<serde_json::Value>`. The contract claims only
/// that the result is a function of the bytes, named `json_parse`.
#[verifier::external_body]
pub(crate) fn parse_json(bytes: &[u8]) -> (r: Option<JsonValue>)
    ensures
        opt_json_view(r) == json_parse(bytes@),
{
    serde_json::from_slice::<serde_json::Value>(bytes).ok().map(json_from_serde)
}

impl JsonValue {
    /// The JSON value some bytes hold, as serde_json reads them; `None` where
    /// they are not JSON.
    pub fn from_json_bytes(bytes: &[u8]) -> (r: Option<JsonValue>)
        ensures
            opt_json_view(r) == json_parse(bytes@),
    {
        parse_json(bytes)
    }

    /// The bytes serde_json writes for this value.
    pub fn to_json_bytes(&self) -> (r: Vec<u8>)
        ensures
            r@ == json_serialize(self@),
    {
        serialize_json(self)
    }
}

/// The bytes serde_json writes for a JSON value.
pub uninterp spec fn json_serialize(v: JsonView) -> Seq<u8>;

/// `serde_json::to_vec` of the value. The contract claims only that the
/// bytes are a function of the value, named `json_serialize`.
#[verifier::external_body]
pub(crate) fn serialize_json(v: &JsonValue) -> (r: Vec<u8>)
    ensures
        r@ == json_serialize(v@),
{
    serde_json::to_vec(&json_to_serde(v)).unwrap_or_default()
}

} // verus!

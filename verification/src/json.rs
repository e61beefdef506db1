//! A JSON document as plain values, the lookups that request handling makes
//! on it, and its compact text.

use vstd::prelude::*;

use crate::text::{decimal, hex_digit, str_eq};

verus! {

/// A JSON value. An object lists its members in order. Parsed values list
/// object keys in ascending order, each once, as `serde_json`'s map holds
/// them; `json_wf` asks that of a value to be written.
pub enum JsonValue {
    Null,
    Bool(bool),
    /// A number, as its JSON text.
    Number(String),
    Str(String),
    Array(Vec<JsonValue>),
    Object(Vec<(String, JsonValue)>),
}

/// How `serde_json` writes one character inside a string: `"` and `\`
/// after a backslash, the short escapes `\b \t \n \f \r`, any other
/// character below U+0020 as `\u00` and two lower-case hex digits, and
/// everything else as it is.
pub open spec fn escaped_char(c: char) -> Seq<char> {
    if c == '"' {
        seq!['\\', '"']
    } else if c == '\\' {
        seq!['\\', '\\']
    } else if c == '\u{8}' {
        seq!['\\', 'b']
    } else if c == '\t' {
        seq!['\\', 't']
    } else if c == '\n' {
        seq!['\\', 'n']
    } else if c == '\u{c}' {
        seq!['\\', 'f']
    } else if c == '\r' {
        seq!['\\', 'r']
    } else if (c as int) < 32 {
        seq!['\\', 'u', '0', '0', hex_digit(c as int / 16), hex_digit(c as int % 16)]
    } else {
        seq![c]
    }
}

/// The characters of `s`, each escaped.
pub open spec fn escaped(s: Seq<char>) -> Seq<char>
    decreases s.len(),
{
    if s.len() == 0 {
        Seq::empty()
    } else {
        escaped(s.drop_last()) + escaped_char(s.last())
    }
}

/// What `serde_json` writes for the string `s`: its escaped characters
/// between double quotes.
pub open spec fn json_string_text(s: Seq<char>) -> Seq<char> {
    seq!['"'] + escaped(s) + seq!['"']
}

/// A JSON value as a mathematical object.
pub enum Json {
    Null,
    Bool(bool),
    Number(Seq<char>),
    Str(Seq<char>),
    Array(Seq<Json>),
    Object(Seq<(Seq<char>, Json)>),
}

/// The mathematical value of a `JsonValue`.
pub open spec fn json_view(v: JsonValue) -> Json
    decreases v, 0nat,
{
    match v {
        JsonValue::Null => Json::Null,
        JsonValue::Bool(b) => Json::Bool(b),
        JsonValue::Number(n) => Json::Number(n@),
        JsonValue::Str(s) => Json::Str(s@),
        JsonValue::Array(items) => Json::Array(items_view(items@)),
        JsonValue::Object(entries) => Json::Object(members_view(entries@)),
    }
}

pub open spec fn items_view(items: Seq<JsonValue>) -> Seq<Json>
    decreases items, 1nat,
{
    if items.len() == 0 {
        Seq::empty()
    } else {
        items_view(items.subrange(0, items.len() - 1)).push(json_view(items[items.len() - 1]))
    }
}

pub open spec fn member_view(m: (String, JsonValue)) -> (Seq<char>, Json)
    decreases m, 0nat,
{
    (m.0@, json_view(m.1))
}

pub open spec fn members_view(entries: Seq<(String, JsonValue)>) -> Seq<(Seq<char>, Json)>
    decreases entries, 1nat,
{
    if entries.len() == 0 {
        Seq::empty()
    } else {
        members_view(entries.subrange(0, entries.len() - 1)).push(
            member_view(entries[entries.len() - 1]),
        )
    }
}

impl View for JsonValue {
    type V = Json;

    open spec fn view(&self) -> Json {
        json_view(*self)
    }
}

pub proof fn lemma_items_view(items: Seq<JsonValue>)
    ensures
        items_view(items).len() == items.len(),
        forall|i: int| 0 <= i < items.len() ==> #[trigger] items_view(items)[i] == json_view(items[i]),
    decreases items.len(),
{
    if items.len() > 0 {
        let front = items.subrange(0, items.len() - 1);
        lemma_items_view(front);
        assert forall|i: int| 0 <= i < items.len() implies #[trigger] items_view(items)[i] == json_view(items[i]) by {
            if i < items.len() - 1 {
                assert(front[i] == items[i]);
            }
        }
    }
}

pub proof fn lemma_items_view_push(items: Seq<JsonValue>, x: JsonValue)
    ensures
        items_view(items.push(x)) == items_view(items).push(json_view(x)),
{
    assert(items.push(x).subrange(0, items.len() as int) =~= items);
}

pub proof fn lemma_members_view(entries: Seq<(String, JsonValue)>)
    ensures
        members_view(entries).len() == entries.len(),
        forall|i: int| 0 <= i < entries.len() ==> #[trigger] members_view(entries)[i] == member_view(entries[i]),
    decreases entries.len(),
{
    if entries.len() > 0 {
        let front = entries.subrange(0, entries.len() - 1);
        lemma_members_view(front);
        assert forall|i: int| 0 <= i < entries.len() implies #[trigger] members_view(entries)[i] == member_view(entries[i]) by {
            if i < entries.len() - 1 {
                assert(front[i] == entries[i]);
            }
        }
    }
}

/// The value stored under `key` in a list of object members: the first
/// member with that key (keys of a parsed object are distinct).
pub open spec fn entry_lookup(entries: Seq<(Seq<char>, Json)>, key: Seq<char>) -> Option<Json>
    decreases entries.len(),
{
    if entries.len() == 0 {
        None
    } else if entries[0].0 == key {
        Some(entries[0].1)
    } else {
        entry_lookup(entries.drop_first(), key)
    }
}

/// `Value::get(key)`: the member `key` of an object; `None` for a missing
/// member and for a value that is not an object.
pub open spec fn json_get(v: Json, key: Seq<char>) -> Option<Json> {
    match v {
        Json::Object(entries) => entry_lookup(entries, key),
        _ => None,
    }
}

/// `value[key]`: the member `key`, or `null` where `get` finds none.
pub open spec fn json_index(v: Json, key: Seq<char>) -> Json {
    match json_get(v, key) {
        Some(m) => m,
        None => Json::Null,
    }
}

/// `Value::as_str`.
pub open spec fn json_as_str(v: Json) -> Option<Seq<char>> {
    match v {
        Json::Str(s) => Some(s),
        _ => None,
    }
}

/// The string member `key` of `v`, or the empty string where there is none.
pub open spec fn str_field(v: Json, key: Seq<char>) -> Seq<char> {
    match json_as_str(json_index(v, key)) {
        Some(s) => s,
        None => Seq::empty(),
    }
}

/// Code-point order of strings, which is the byte order of their UTF-8 and
/// so the order of the keys in `serde_json`'s map.
pub open spec fn key_less(a: Seq<char>, b: Seq<char>) -> bool
    decreases a.len(),
{
    if b.len() == 0 {
        false
    } else if a.len() == 0 {
        true
    } else if a[0] != b[0] {
        a[0] < b[0]
    } else {
        key_less(a.drop_first(), b.drop_first())
    }
}

/// `v` is written by `serde_json` as `json_text` gives it: every object
/// lists its keys in ascending order, each once (as `serde_json`'s map holds
/// them), and every number is the decimal text of a `u64`.
pub open spec fn json_wf(v: Json) -> bool
    decreases v, 0nat,
{
    match v {
        Json::Number(n) => exists|k: u64| n == decimal(k as nat),
        Json::Array(items) => items_wf(items),
        Json::Object(entries) => members_wf(entries),
        _ => true,
    }
}

pub open spec fn items_wf(items: Seq<Json>) -> bool
    decreases items, 1nat,
{
    if items.len() == 0 {
        true
    } else {
        items_wf(items.subrange(0, items.len() - 1)) && json_wf(items[items.len() - 1])
    }
}

pub open spec fn members_wf(entries: Seq<(Seq<char>, Json)>) -> bool
    decreases entries, 1nat,
{
    if entries.len() == 0 {
        true
    } else {
        &&& members_wf(entries.subrange(0, entries.len() - 1))
        &&& json_wf(entries[entries.len() - 1].1)
        &&& entries.len() >= 2 ==> key_less(
            entries[entries.len() - 2].0,
            entries[entries.len() - 1].0,
        )
    }
}

/// The members of an object, or none for any other value.
pub open spec fn object_members(v: Json) -> Seq<(Seq<char>, Json)> {
    match v {
        Json::Object(entries) => entries,
        _ => Seq::empty(),
    }
}

/// An object whose values are well formed and whose keys ascend from each
/// member to the next is well formed.
pub proof fn lemma_object_wf(entries: Seq<(Seq<char>, Json)>)
    requires
        forall|i: int| 0 <= i < entries.len() ==> json_wf(#[trigger] entries[i].1),
        forall|i: int| 0 <= i < entries.len() - 1 ==> key_less(#[trigger] entries[i].0, entries[i + 1].0),
    ensures
        members_wf(entries),
        json_wf(Json::Object(entries)),
    decreases entries.len(),
{
    if entries.len() > 0 {
        let front = entries.subrange(0, entries.len() - 1);
        assert forall|i: int| 0 <= i < front.len() - 1 implies key_less(#[trigger] front[i].0, front[i + 1].0) by {
            assert(front[i] == entries[i]);
            assert(front[i + 1] == entries[i + 1]);
        }
        lemma_object_wf(front);
        if entries.len() >= 2 {
            assert(key_less(entries[entries.len() - 2].0, entries[entries.len() - 1].0));
        }
    }
}

/// An array of well-formed values is well formed.
pub proof fn lemma_array_wf(items: Seq<Json>)
    requires
        forall|i: int| 0 <= i < items.len() ==> json_wf(#[trigger] items[i]),
    ensures
        items_wf(items),
        json_wf(Json::Array(items)),
    decreases items.len(),
{
    if items.len() > 0 {
        lemma_array_wf(items.subrange(0, items.len() - 1));
    }
}

/// Compact JSON text of a value, as `serde_json` displays it (for a
/// well-formed value, whose objects list their keys as `serde_json`'s map
/// does).
pub open spec fn json_text(v: Json) -> Seq<char>
    decreases v, 0nat,
{
    match v {
        Json::Null => "null"@,
        Json::Bool(b) => if b { "true"@ } else { "false"@ },
        Json::Number(n) => n,
        Json::Str(s) => json_string_text(s),
        Json::Array(items) => seq!['['] + items_text(items) + seq![']'],
        Json::Object(entries) => seq!['{'] + members_text(entries) + seq!['}'],
    }
}

/// The texts of `items`, separated by commas.
pub open spec fn items_text(items: Seq<Json>) -> Seq<char>
    decreases items, 1nat,
{
    if items.len() == 0 {
        Seq::empty()
    } else if items.len() == 1 {
        json_text(items[0])
    } else {
        items_text(items.subrange(0, items.len() - 1)) + seq![','] + json_text(items[items.len() - 1])
    }
}

/// The text of one object member: quoted key, colon, value.
pub open spec fn member_text(m: (Seq<char>, Json)) -> Seq<char>
    decreases m, 0nat,
{
    json_string_text(m.0) + seq![':'] + json_text(m.1)
}

/// The texts of `entries`, separated by commas.
pub open spec fn members_text(entries: Seq<(Seq<char>, Json)>) -> Seq<char>
    decreases entries, 1nat,
{
    if entries.len() == 0 {
        Seq::empty()
    } else if entries.len() == 1 {
        member_text(entries[0])
    } else {
        members_text(entries.subrange(0, entries.len() - 1)) + seq![','] + member_text(
            entries[entries.len() - 1],
        )
    }
}

/// A JSON string with this text.
pub fn str_value(s: &str) -> (v: JsonValue)
    ensures
        v@ == Json::Str(s@),
{
    JsonValue::Str(s.to_string())
}

fn member(key: &str, value: JsonValue) -> (m: (String, JsonValue))
    ensures
        m.0@ == key@,
        m.1 == value,
{
    (key.to_string(), value)
}

/// The object with one member.
pub fn object1(k1: &str, v1: JsonValue) -> (o: JsonValue)
    ensures
        o@ == Json::Object(seq![(k1@, v1@)]),
{
    let entries = vec![member(k1, v1)];
    proof {
        lemma_members_view(entries@);
        assert(members_view(entries@) =~= seq![(k1@, v1@)]);
    }
    JsonValue::Object(entries)
}

/// The object with two members, in this order.
pub fn object2(k1: &str, v1: JsonValue, k2: &str, v2: JsonValue) -> (o: JsonValue)
    ensures
        o@ == Json::Object(seq![(k1@, v1@), (k2@, v2@)]),
{
    let entries = vec![member(k1, v1), member(k2, v2)];
    proof {
        lemma_members_view(entries@);
        assert(members_view(entries@) =~= seq![(k1@, v1@), (k2@, v2@)]);
    }
    JsonValue::Object(entries)
}

/// The object with three members, in this order.
pub fn object3(k1: &str, v1: JsonValue, k2: &str, v2: JsonValue, k3: &str, v3: JsonValue) -> (o:
    JsonValue)
    ensures
        o@ == Json::Object(seq![(k1@, v1@), (k2@, v2@), (k3@, v3@)]),
{
    let entries = vec![member(k1, v1), member(k2, v2), member(k3, v3)];
    proof {
        lemma_members_view(entries@);
        assert(members_view(entries@) =~= seq![(k1@, v1@), (k2@, v2@), (k3@, v3@)]);
    }
    JsonValue::Object(entries)
}

/// The object with four members, in this order.
pub fn object4(
    k1: &str,
    v1: JsonValue,
    k2: &str,
    v2: JsonValue,
    k3: &str,
    v3: JsonValue,
    k4: &str,
    v4: JsonValue,
) -> (o: JsonValue)
    ensures
        o@ == Json::Object(seq![(k1@, v1@), (k2@, v2@), (k3@, v3@), (k4@, v4@)]),
{
    let entries = vec![member(k1, v1), member(k2, v2), member(k3, v3), member(k4, v4)];
    proof {
        lemma_members_view(entries@);
        assert(members_view(entries@) =~= seq![(k1@, v1@), (k2@, v2@), (k3@, v3@), (k4@, v4@)]);
    }
    JsonValue::Object(entries)
}

proof fn lemma_entry_lookup_skip(entries: Seq<(Seq<char>, Json)>, key: Seq<char>, i: int)
    requires
        0 <= i <= entries.len(),
        forall|j: int| 0 <= j < i ==> (#[trigger] entries[j]).0 != key,
    ensures
        entry_lookup(entries, key) == entry_lookup(entries.subrange(i, entries.len() as int), key),
    decreases i,
{
    if i > 0 {
        assert(entries.drop_first().subrange(i - 1, entries.drop_first().len() as int)
            =~= entries.subrange(i, entries.len() as int));
        lemma_entry_lookup_skip(entries.drop_first(), key, i - 1);
    } else {
        assert(entries.subrange(0, entries.len() as int) =~= entries);
    }
}

impl JsonValue {
    /// `Value::get`: the member `key` of an object.
    pub fn get(&self, key: &str) -> (r: Option<&JsonValue>)
        ensures
            match json_get(self@, key@) {
                Some(m) => r is Some && r->0@ == m,
                None => r is None,
            },
    {
        match self {
            JsonValue::Object(entries) => {
                let n = entries.len();
                let ghost members = members_view(entries@);
                proof {
                    lemma_members_view(entries@);
                }
                for i in 0..n
                    invariant
                        n == entries@.len(),
                        self@ == Json::Object(members),
                        members == members_view(entries@),
                        members.len() == n,
                        forall|j: int| 0 <= j < n ==> #[trigger] members[j] == member_view(entries@[j]),
                        forall|j: int| 0 <= j < i ==> (#[trigger] members[j]).0 != key@,
                {
                    if str_eq(entries[i].0.as_str(), key) {
                        proof {
                            lemma_entry_lookup_skip(members, key@, i as int);
                            assert(members.subrange(i as int, n as int)[0] == members[i as int]);
                        }
                        return Some(&entries[i].1);
                    }
                    assert(members[i as int].0 == entries@[i as int].0@);
                }
                proof {
                    lemma_entry_lookup_skip(members, key@, n as int);
                }
                None
            },
            _ => None,
        }
    }

    /// `Value::as_str`.
    pub fn as_str(&self) -> (r: Option<&str>)
        ensures
            match json_as_str(self@) {
                Some(s) => r is Some && r->0@ == s,
                None => r is None,
            },
    {
        match self {
            JsonValue::Str(s) => Some(s.as_str()),
            _ => None,
        }
    }

    /// `value[key].as_str()`: the string member `key`, if there is one.
    pub fn str_member(&self, key: &str) -> (r: Option<&str>)
        ensures
            match json_as_str(json_index(self@, key@)) {
                Some(s) => r is Some && r->0@ == s,
                None => r is None,
            },
    {
        match self.get(key) {
            Some(m) => m.as_str(),
            None => None,
        }
    }

    /// `value[key].is_string()`.
    pub fn member_is_string(&self, key: &str) -> (b: bool)
        ensures
            b == json_index(self@, key@) is Str,
    {
        match self.str_member(key) {
            Some(_) => true,
            None => false,
        }
    }

    /// Compact JSON text of this value (`Display` of a `serde_json::Value`).
    pub fn to_json_text(&self) -> (res: String)
        requires
            json_wf(self@),
        ensures
            res@ == json_text(self@),
    {
        json_text_of(self)
    }
}

/// A copy of `v`.
pub fn duplicate(v: &JsonValue) -> (r: JsonValue)
    ensures
        r@ == v@,
    decreases *v,
{
    match v {
        JsonValue::Null => JsonValue::Null,
        JsonValue::Bool(b) => JsonValue::Bool(*b),
        JsonValue::Number(n) => JsonValue::Number(n.as_str().to_string()),
        JsonValue::Str(s) => JsonValue::Str(s.as_str().to_string()),
        JsonValue::Array(items) => {
            let mut copy: Vec<JsonValue> = Vec::new();
            let ghost views = items_view(items@);
            proof {
                lemma_items_view(items@);
            }
            let n = items.len();
            for i in 0..n
                invariant
                    n == items@.len(),
                    *v == JsonValue::Array(*items),
                    views == items_view(items@),
                    views.len() == n,
                    forall|j: int| 0 <= j < n ==> #[trigger] views[j] == json_view(items@[j]),
                    items_view(copy@) == views.subrange(0, i as int),
            {
                assert(decreases_to!(*v => v->Array_0));
                assert(decreases_to!(*items => items@));
                assert(decreases_to!(items@ => items@[i as int]));
                let c = duplicate(&items[i]);
                proof {
                    lemma_items_view_push(copy@, c);
                }
                copy.push(c);
                assert(views.subrange(0, i + 1) =~= views.subrange(0, i as int).push(views[i as int]));
            }
            assert(views.subrange(0, n as int) =~= views);
            JsonValue::Array(copy)
        },
        JsonValue::Object(entries) => {
            let mut copy: Vec<(String, JsonValue)> = Vec::new();
            let ghost views = members_view(entries@);
            proof {
                lemma_members_view(entries@);
            }
            let n = entries.len();
            for i in 0..n
                invariant
                    n == entries@.len(),
                    *v == JsonValue::Object(*entries),
                    views == members_view(entries@),
                    views.len() == n,
                    forall|j: int| 0 <= j < n ==> #[trigger] views[j] == member_view(entries@[j]),
                    members_view(copy@) == views.subrange(0, i as int),
            {
                assert(decreases_to!(*v => v->Object_0));
                assert(decreases_to!(*entries => entries@));
                assert(decreases_to!(entries@ => entries@[i as int]));
                assert(decreases_to!(entries@[i as int] => entries@[i as int].1));
                let k = entries[i].0.as_str().to_string();
                let c = duplicate(&entries[i].1);
                let m = (k, c);
                assert(member_view(m) == views[i as int]);
                assert(copy@.push(m).subrange(0, copy@.len() as int) =~= copy@);
                assert(members_view(copy@.push(m)) == members_view(copy@).push(member_view(m)));
                copy.push(m);
                assert(views.subrange(0, i + 1) =~= views.subrange(0, i as int).push(views[i as int]));
            }
            assert(views.subrange(0, n as int) =~= views);
            JsonValue::Object(copy)
        },
    }
}

#[verifier::external_type_specification]
#[verifier::external_body]
pub struct ExJsonDocument(serde_json::Value);

/// The library's form of a `serde_json::Value`: each variant as the same
/// variant, numbers by their `Display` text, map members in the map's order.
///
/// Trusted, with nothing stated of it: a conversion that `parse_json` uses.
#[verifier::external_body]
fn json_of_value(v: serde_json::Value) -> JsonValue {
    match v {
        serde_json::Value::Null => JsonValue::Null,
        serde_json::Value::Bool(b) => JsonValue::Bool(b),
        serde_json::Value::Number(n) => JsonValue::Number(n.to_string()),
        serde_json::Value::String(s) => JsonValue::Str(s),
        serde_json::Value::Array(items) => JsonValue::Array(items.into_iter().map(json_of_value).collect()),
        serde_json::Value::Object(members) => {
            JsonValue::Object(members.into_iter().map(|(k, x)| (k, json_of_value(x))).collect())
        },
    }
}

/// The `serde_json::Value` for a `JsonValue`: each variant as the same
/// variant, numbers from their decimal text, members in listed order.
///
/// Trusted, with nothing stated of it: a conversion that `json_text_of` uses.
#[verifier::external_body]
fn value_of_json(v: &JsonValue) -> serde_json::Value {
    match v {
        JsonValue::Null => serde_json::Value::Null,
        JsonValue::Bool(b) => serde_json::Value::Bool(*b),
        JsonValue::Number(n) => serde_json::Value::Number(n.parse::<u64>().unwrap_or_default().into()),
        JsonValue::Str(s) => serde_json::Value::String(s.clone()),
        JsonValue::Array(items) => serde_json::Value::Array(items.iter().map(value_of_json).collect()),
        JsonValue::Object(members) => serde_json::Value::Object(
            members.iter().map(|(k, x)| (k.clone(), value_of_json(x))).collect(),
        ),
    }
}

/// The value that `serde_json` parses from `text`, or its error message.
pub uninterp spec fn parsed_json(text: Seq<char>) -> Result<Json, Seq<char>>;

/// Parses `text` as JSON.
///
/// Trusted: `serde_json::from_str::<Value>`, its result converted to a
/// `JsonValue` and its error to the error's `Display` text. The result is
/// named, not described.
#[verifier::external_body]
pub fn parse_json(text: &str) -> (r: Result<JsonValue, String>)
    ensures
        match r {
            Ok(v) => parsed_json(text@) == Ok::<Json, Seq<char>>(v@),
            Err(e) => parsed_json(text@) == Err::<Json, Seq<char>>(e@),
        },
{
    match serde_json::from_str::<serde_json::Value>(text) {
        Ok(v) => Ok(json_of_value(v)),
        Err(e) => Err(e.to_string()),
    }
}

/// The compact JSON text of `v`.
///
/// Trusted: `Display` of the `serde_json::Value` for `v`. For a well-formed
/// value, whose objects list their keys as `serde_json`'s map orders them
/// and whose numbers are decimal integers, that text is `json_text`: `null`,
/// `true`, `false`, the number's digits, strings escaped by
/// `format_escaped_str`, and arrays and objects with commas and colons and
/// no spaces (`CompactFormatter`).
#[verifier::external_body]
pub(crate) fn json_text_of(v: &JsonValue) -> (res: String)
    requires
        json_wf(v@),
    ensures
        res@ == json_text(v@),
{
    value_of_json(v).to_string()
}

/// Looking up `key` in an object finds the value of its first member with
/// that key.
pub proof fn lookup_finds_first_member(entries: Seq<(Seq<char>, Json)>, key: Seq<char>, j: int)
    requires
        0 <= j < entries.len(),
        entries[j].0 == key,
        forall|i: int| 0 <= i < j ==> (#[trigger] entries[i]).0 != key,
    ensures
        json_get(Json::Object(entries), key) == Some(entries[j].1),
{
    lemma_entry_lookup_skip(entries, key, j);
    assert(entries.subrange(j, entries.len() as int)[0] == entries[j]);
}

/// Looking up a key that no member has finds nothing, and so does looking
/// up any key in a value that is not an object.
pub proof fn lookup_misses_absent_key(v: Json, key: Seq<char>)
    requires
        forall|i: int| 0 <= i < object_members(v).len() ==> (#[trigger] object_members(v)[i]).0 != key,
    ensures
        json_get(v, key) is None,
{
    if let Json::Object(entries) = v {
        assert forall|j: int| 0 <= j < entries.len() implies (#[trigger] entries[j]).0 != key by {
            assert(object_members(v)[j] == entries[j]);
        }
        lemma_entry_lookup_skip(entries, key, entries.len() as int);
        assert(entries.subrange(entries.len() as int, entries.len() as int).len() == 0);
    }
}

/// The code of a character is not negative.
proof fn lemma_char_code_nonneg(c: char)
    ensures
        0 <= c as int,
{
}

/// A string is written with no raw control character: every character of
/// its escaped text is U+0020 or above.
pub proof fn escaped_text_has_no_control_chars(s: Seq<char>)
    ensures
        forall|i: int| 0 <= i < escaped(s).len() ==> (#[trigger] escaped(s)[i]) as int >= 32,
    decreases s.len(),
{
    if s.len() > 0 {
        let f = s.drop_last();
        escaped_text_has_no_control_chars(f);
        let c = s.last();
        let e = escaped_char(c);
        assert forall|i: int| 0 <= i < e.len() implies (#[trigger] e[i]) as int >= 32 by {
            if c != '"' && c != '\\' && c != '\u{8}' && c != '\t' && c != '\n' && c != '\u{c}' && c
                != '\r' && (c as int) < 32 {
                let hi = c as int / 16;
                let lo = c as int % 16;
                lemma_char_code_nonneg(c);
                assert(0 <= hi < 2 && 0 <= lo < 16);
                assert(hex_digit(hi) as int == hi + 48);
                if lo < 10 {
                    assert(hex_digit(lo) as int == lo + 48);
                } else {
                    assert(hex_digit(lo) as int == lo + 87);
                }
                assert(i < 4 || e[i] == hex_digit(hi) || e[i] == hex_digit(lo));
            }
        }
        assert(escaped(s) == escaped(f) + e);
        assert forall|i: int| 0 <= i < escaped(s).len() implies (#[trigger] escaped(s)[i]) as int
            >= 32 by {
            if i < escaped(f).len() {
                assert(escaped(s)[i] == escaped(f)[i]);
            } else {
                assert(escaped(s)[i] == e[i - escaped(f).len()]);
            }
        }
    }
}

/// A string without quotes, backslashes and control characters is written
/// as it is.
pub proof fn plain_strings_are_written_as_they_are(s: Seq<char>)
    requires
        forall|i: int|
            0 <= i < s.len() ==> #[trigger] s[i] != '"' && s[i] != '\\' && (s[i] as int) >= 32,
    ensures
        escaped(s) == s,
    decreases s.len(),
{
    if s.len() > 0 {
        let f = s.drop_last();
        assert forall|i: int| 0 <= i < f.len() implies #[trigger] f[i] != '"' && f[i] != '\\'
            && (f[i] as int) >= 32 by {
            assert(f[i] == s[i]);
        }
        plain_strings_are_written_as_they_are(f);
        assert(s.last() == s[s.len() - 1]);
        assert(escaped(s) =~= f.push(s.last()));
        assert(f.push(s.last()) =~= s);
    }
}

/// The value of a hexadecimal digit of either case.
pub open spec fn hex_digit_value(c: char) -> int {
    if '0' <= c <= '9' {
        c as int - '0' as int
    } else if 'a' <= c <= 'f' {
        c as int - 'a' as int + 10
    } else {
        c as int - 'A' as int + 10
    }
}

/// A hexadecimal digit of either case.
pub open spec fn is_hex_digit(c: char) -> bool {
    ('0' <= c <= '9') || ('a' <= c <= 'f') || ('A' <= c <= 'F')
}

/// The character that a two-character escape `\x` stands for.
pub open spec fn short_escape(x: char) -> Option<char> {
    if x == '"' {
        Some('"')
    } else if x == '\\' {
        Some('\\')
    } else if x == '/' {
        Some('/')
    } else if x == 'b' {
        Some('\u{8}')
    } else if x == 't' {
        Some('\t')
    } else if x == 'n' {
        Some('\n')
    } else if x == 'f' {
        Some('\u{c}')
    } else if x == 'r' {
        Some('\r')
    } else {
        None
    }
}

/// How a JSON reader takes the text between the quotes of a string: the
/// string it stands for, or `None` where the text holds a raw quote, a raw
/// control character or an escape that JSON does not have. A `\u` escape is
/// read here for the characters it can stand for alone, below U+D800.
pub open spec fn unescape(t: Seq<char>) -> Option<Seq<char>>
    decreases t.len(),
{
    if t.len() == 0 {
        Some(Seq::empty())
    } else if t[0] == '\\' {
        if t.len() >= 2 && short_escape(t[1]) is Some {
            match unescape(t.skip(2)) {
                Some(r) => Some(seq![short_escape(t[1])->0] + r),
                None => None,
            }
        } else if t.len() >= 6 && t[1] == 'u' && is_hex_digit(t[2]) && is_hex_digit(t[3])
            && is_hex_digit(t[4]) && is_hex_digit(t[5]) {
            let code = hex_digit_value(t[2]) * 4096 + hex_digit_value(t[3]) * 256 + hex_digit_value(
                t[4],
            ) * 16 + hex_digit_value(t[5]);
            if code < 0xD800 {
                match unescape(t.skip(6)) {
                    Some(r) => Some(seq![code as char] + r),
                    None => None,
                }
            } else {
                None
            }
        } else {
            None
        }
    } else if t[0] == '"' || (t[0] as int) < 32 {
        None
    } else {
        match unescape(t.drop_first()) {
            Some(r) => Some(seq![t[0]] + r),
            None => None,
        }
    }
}

proof fn lemma_escaped_concat(a: Seq<char>, b: Seq<char>)
    ensures
        escaped(a + b) == escaped(a) + escaped(b),
    decreases b.len(),
{
    if b.len() == 0 {
        assert(a + b =~= a);
        assert(escaped(a) + escaped(b) =~= escaped(a));
    } else {
        lemma_escaped_concat(a, b.drop_last());
        assert((a + b).drop_last() =~= a + b.drop_last());
        assert((a + b).last() == b.last());
        assert(escaped(a) + escaped(b) =~= escaped(a) + escaped(b.drop_last()) + escaped_char(b.last()));
    }
}

proof fn lemma_unescape_one(c: char, rest: Seq<char>)
    ensures
        unescape(escaped_char(c) + rest) == match unescape(rest) {
            Some(r) => Some(seq![c] + r),
            None => None::<Seq<char>>,
        },
{
    let t = escaped_char(c) + rest;
    lemma_char_code_nonneg(c);
    if c == '"' || c == '\\' || c == '\u{8}' || c == '\t' || c == '\n' || c == '\u{c}' || c == '\r' {
        assert(t.skip(2) =~= rest);
        assert(short_escape(t[1]) == Some(c));
    } else if (c as int) < 32 {
        let hi = c as int / 16;
        let lo = c as int % 16;
        assert(0 <= hi < 2 && 0 <= lo < 16);
        assert(hex_digit(hi) as int == hi + 48);
        if lo < 10 {
            assert(hex_digit(lo) as int == lo + 48);
        } else {
            assert(hex_digit(lo) as int == lo + 87);
        }
        assert(t[1] == 'u' && t[2] == '0' && t[3] == '0');
        assert(t[4] == hex_digit(hi) && t[5] == hex_digit(lo));
        assert(short_escape(t[1]) is None);
        assert(hex_digit_value(t[4]) == hi);
        assert(hex_digit_value(t[5]) == lo);
        assert(t.skip(6) =~= rest);
        let code = hex_digit_value(t[2]) * 4096 + hex_digit_value(t[3]) * 256 + hex_digit_value(t[4])
            * 16 + hex_digit_value(t[5]);
        assert(code == c as int);
        assert(code as char == c);
    } else {
        assert(t[0] == c);
        assert(t.drop_first() =~= rest);
    }
}

/// The text that `serde_json` writes between the quotes of a string reads
/// back as that string: it holds no raw quote or control character, and
/// each escape stands for the character that was escaped.
pub proof fn escaped_text_reads_back(s: Seq<char>)
    ensures
        unescape(escaped(s)) == Some(s),
    decreases s.len(),
{
    if s.len() > 0 {
        let rest = s.drop_first();
        escaped_text_reads_back(rest);
        assert(s =~= seq![s[0]] + rest);
        lemma_escaped_concat(seq![s[0]], rest);
        let one = seq![s[0]];
        assert(one.drop_last() =~= Seq::<char>::empty());
        assert(one.last() == s[0]);
        assert(escaped(one) == escaped(one.drop_last()) + escaped_char(s[0]));
        assert(escaped(one) =~= escaped_char(s[0]));
        lemma_unescape_one(s[0], escaped(rest));
        assert(seq![s[0]] + rest =~= s);
    }
}

} // verus!

//! JSON documents: a type of its own for what the crate reads and writes, and the parser behind it.
use serde_json::Value;
use vstd::prelude::*;

use crate::text::{owned, same_text};

verus! {

/// A JSON document.
#[derive(Debug, PartialEq, Eq)]
pub enum Json {
    Null,
    Bool(bool),
    /// A number that `serde_json` holds as an integer.
    Integer(i128),
    /// Any other number, as `serde_json` writes it.
    Decimal(String),
    Text(String),
    Array(Vec<Json>),
    /// The members in order, each with its key.
    Object(Vec<(String, Json)>),
}

/// What a JSON document says.
pub enum JsonView {
    Null,
    Bool(bool),
    Integer(i128),
    Decimal(Seq<char>),
    Text(Seq<char>),
    Array(Seq<JsonView>),
    Object(Seq<(Seq<char>, JsonView)>),
}

/// What the document `value` says.
pub open spec fn json_view(value: Json) -> JsonView
    decreases value,
{
    match value {
        Json::Null => JsonView::Null,
        Json::Bool(value) => JsonView::Bool(value),
        Json::Integer(value) => JsonView::Integer(value),
        Json::Decimal(text) => JsonView::Decimal(text@),
        Json::Text(text) => JsonView::Text(text@),
        Json::Array(items) => JsonView::Array(
            Seq::new(
                items@.len(),
                |i: int|
                    if 0 <= i < items@.len() {
                        json_view(items@[i])
                    } else {
                        JsonView::Null
                    },
            ),
        ),
        Json::Object(members) => JsonView::Object(
            Seq::new(
                members@.len(),
                |i: int|
                    if 0 <= i < members@.len() {
                        (members@[i].0@, json_view(members@[i].1))
                    } else {
                        (Seq::empty(), JsonView::Null)
                    },
            ),
        ),
    }
}

impl View for Json {
    type V = JsonView;

    open spec fn view(&self) -> JsonView {
        json_view(*self)
    }
}

/// An array says what its items say.
pub proof fn lemma_array_view(items: Vec<Json>)
    ensures
        Json::Array(items)@ is Array,
        Json::Array(items)@->Array_0.len() == items@.len(),
        forall|i: int|
            0 <= i < items@.len() ==> #[trigger] Json::Array(items)@->Array_0[i] == items@[i]@,
{
    reveal_with_fuel(json_view, 2);
}

/// An object says what its members say.
pub proof fn lemma_object_view(members: Vec<(String, Json)>)
    ensures
        Json::Object(members)@ is Object,
        Json::Object(members)@->Object_0.len() == members@.len(),
        forall|i: int|
            0 <= i < members@.len() ==> #[trigger] Json::Object(members)@->Object_0[i] == (
                members@[i].0@,
                members@[i].1@,
            ),
{
    reveal_with_fuel(json_view, 2);
}

// ---------------------------------------------------------------------------
// The parser
// ---------------------------------------------------------------------------

/// A parsed document of `serde_json`, carried from the parser to its conversion.
#[verifier::external_type_specification]
#[verifier::external_body]
pub struct ExValue(Value);

/// The document that `serde_json::from_str` reads in `text`, where it is JSON.
pub uninterp spec fn value_in_text(text: Seq<char>) -> Option<Value>;

/// The document that `serde_json::from_slice` reads in `bytes`, where they are JSON.
pub uninterp spec fn value_in_bytes(bytes: Seq<u8>) -> Option<Value>;

/// What a parsed document says.
pub uninterp spec fn json_of_value(value: Value) -> JsonView;

/// `serde_json::from_str` reads one document: which one, or that there is none, depends on the
/// text alone.
#[verifier::external_body]
fn read_text(text: &str) -> (r: Option<Value>)
    ensures
        r == value_in_text(text@),
{
    serde_json::from_str::<Value>(text).ok()
}

/// `serde_json::from_slice` reads one document: which one, or that there is none, depends on the
/// bytes alone.
#[verifier::external_body]
fn read_bytes(bytes: &[u8]) -> (r: Option<Value>)
    ensures
        r == value_in_bytes(bytes@),
{
    serde_json::from_slice::<Value>(bytes).ok()
}

/// The same document as a `Json`: a `serde_json::Value` taken apart variant by variant. Its
/// numbers come by `Number::as_i128` where they are integers, and elsewhere as its `Display` writes
/// them; the members of its objects come in the order of its map.
#[verifier::external_body]
fn json_of(value: Value) -> (r: Json)
    ensures
        r@ == json_of_value(value),
{
    match value {
        Value::Null => Json::Null,
        Value::Bool(value) => Json::Bool(value),
        Value::Number(number) => match number.as_i128() {
            Some(value) => Json::Integer(value),
            None => Json::Decimal(number.to_string()),
        },
        Value::String(text) => Json::Text(text),
        Value::Array(items) => Json::Array(items.into_iter().map(json_of).collect()),
        Value::Object(map) => Json::Object(map.into_iter().map(|(k, v)| (k, json_of(v))).collect()),
    }
}

/// What a parsed document says, where there is one.
pub open spec fn json_of_option(value: Option<Value>) -> Option<JsonView> {
    match value {
        Some(value) => Some(json_of_value(value)),
        None => None,
    }
}

/// What `text` says as JSON, where it is JSON.
pub open spec fn json_in_text(text: Seq<char>) -> Option<JsonView> {
    json_of_option(value_in_text(text))
}

/// What `bytes` say as JSON, where they are JSON.
pub open spec fn json_in_bytes(bytes: Seq<u8>) -> Option<JsonView> {
    json_of_option(value_in_bytes(bytes))
}

/// What an optional document says.
pub open spec fn view_of_json(value: Option<Json>) -> Option<JsonView> {
    match value {
        Some(value) => Some(value@),
        None => None,
    }
}

/// What an optional borrowed document says.
pub open spec fn view_of_json_ref(value: Option<&Json>) -> Option<JsonView> {
    match value {
        Some(value) => Some(value@),
        None => None,
    }
}

// ---------------------------------------------------------------------------
// Reading a document
// ---------------------------------------------------------------------------

/// The value of the first member with the key `key`.
pub open spec fn first_member(members: Seq<(Seq<char>, JsonView)>, key: Seq<char>) -> Option<
    JsonView,
>
    decreases members.len(),
{
    if members.len() == 0 {
        None
    } else if members[0].0 == key {
        Some(members[0].1)
    } else {
        first_member(members.drop_first(), key)
    }
}

/// The member that is found stands among the members.
pub proof fn lemma_first_member(members: Seq<(Seq<char>, JsonView)>, key: Seq<char>)
    ensures
        first_member(members, key) matches Some(member) ==> exists|at: int|
            0 <= at < members.len() && (#[trigger] members[at]).1 == member,
    decreases members.len(),
{
    if members.len() > 0 {
        if members[0].0 != key {
            lemma_first_member(members.drop_first(), key);
            if let Some(member) = first_member(members, key) {
                let at = choose|at: int|
                    0 <= at < members.drop_first().len() && (
                    #[trigger] members.drop_first()[at]).1 == member;
                assert(members[at + 1].1 == member);
            }
        }
    }
}

impl JsonView {
    /// The member of an object with the key `key`; any other document has none.
    pub open spec fn member(self, key: Seq<char>) -> Option<JsonView> {
        match self {
            JsonView::Object(members) => first_member(members, key),
            _ => None,
        }
    }

    /// The text of a string.
    pub open spec fn text(self) -> Option<Seq<char>> {
        match self {
            JsonView::Text(text) => Some(text),
            _ => None,
        }
    }

    /// The text of a member that is a string.
    pub open spec fn member_text(self, key: Seq<char>) -> Option<Seq<char>> {
        match self.member(key) {
            Some(value) => value.text(),
            None => None,
        }
    }

    /// The value of an integer of 64 bits.
    pub open spec fn integer(self) -> Option<i64> {
        match self {
            JsonView::Integer(value) => if i64::MIN <= value <= i64::MAX {
                Some(value as i64)
            } else {
                None
            },
            _ => None,
        }
    }
}

impl Json {
    /// Reads one document from `text`.
    pub fn parse(text: &str) -> (r: Option<Json>)
        ensures
            view_of_json(r) == json_in_text(text@),
    {
        match read_text(text) {
            Some(value) => Some(json_of(value)),
            None => None,
        }
    }

    /// Reads one document from `bytes`.
    pub fn parse_bytes(bytes: &[u8]) -> (r: Option<Json>)
        ensures
            view_of_json(r) == json_in_bytes(bytes@),
    {
        match read_bytes(bytes) {
            Some(value) => Some(json_of(value)),
            None => None,
        }
    }

    /// The member with the key `key`.
    pub fn get(&self, key: &str) -> (r: Option<&Json>)
        ensures
            view_of_json_ref(r) == self@.member(key@),
            r matches Some(value) ==> decreases_to!(self => value),
    {
        match self {
            Json::Object(members) => {
                proof {
                    lemma_object_view(*members);
                }
                let ghost all = self@->Object_0;
                assert(all.skip(0) =~= all);
                for i in 0..members.len()
                    invariant
                        *self matches Json::Object(every) && every == members,
                        all.len() == members@.len(),
                        forall|k: int|
                            0 <= k < members@.len() ==> #[trigger] all[k] == (
                                members@[k].0@,
                                members@[k].1@,
                            ),
                        first_member(all, key@) == first_member(all.skip(i as int), key@),
                        self@.member(key@) == first_member(all, key@),
                {
                    let member = &members[i];
                    let ghost rest = all.skip(i as int);
                    assert(rest[0] == all[i as int]);
                    assert(decreases_to!(self => member.1));
                    if same_text(member.0.as_str(), key) {
                        return Some(&member.1);
                    }
                    assert(rest.drop_first() =~= all.skip(i + 1));
                }
                None
            },
            _ => None,
        }
    }

    /// The text of a string.
    pub fn as_str(&self) -> (r: Option<&str>)
        ensures
            crate::text::view_of_slice(r) == self@.text(),
    {
        match self {
            Json::Text(text) => Some(text.as_str()),
            _ => None,
        }
    }

    /// The text of the member with the key `key`, where that is a string.
    pub fn get_str(&self, key: &str) -> (r: Option<&str>)
        ensures
            crate::text::view_of_slice(r) == self@.member_text(key@),
    {
        match self.get(key) {
            Some(value) => value.as_str(),
            None => None,
        }
    }

    /// The items of an array.
    pub fn as_array(&self) -> (r: Option<&Vec<Json>>)
        ensures
            match r {
                Some(items) => self matches Json::Array(all) && all == items,
                None => !(self@ is Array),
            },
    {
        match self {
            Json::Array(items) => Some(items),
            _ => None,
        }
    }

    /// The value of a boolean.
    pub fn as_bool(&self) -> (r: Option<bool>)
        ensures
            r == (match self@ {
                JsonView::Bool(value) => Some(value),
                _ => None,
            }),
    {
        match self {
            Json::Bool(value) => Some(*value),
            _ => None,
        }
    }

    /// The value of an integer of 64 bits.
    pub fn as_i64(&self) -> (r: Option<i64>)
        ensures
            r == self@.integer(),
    {
        match self {
            Json::Integer(value) => if -9_223_372_036_854_775_808 <= *value && *value
                <= 9_223_372_036_854_775_807 {
                Some(*value as i64)
            } else {
                None
            },
            _ => None,
        }
    }

    /// A string.
    pub fn string(text: &str) -> (r: Json)
        ensures
            r@ == JsonView::Text(text@),
    {
        Json::Text(owned(text))
    }

    /// A copy of the document.
    pub fn copy(&self) -> (r: Json)
        ensures
            r@ == self@,
        decreases self,
    {
        match self {
            Json::Null => Json::Null,
            Json::Bool(value) => Json::Bool(*value),
            Json::Integer(value) => Json::Integer(*value),
            Json::Decimal(text) => Json::Decimal(text.clone()),
            Json::Text(text) => Json::Text(text.clone()),
            Json::Array(items) => {
                let mut copies: Vec<Json> = Vec::new();
                for i in 0..items.len()
                    invariant
                        self matches Json::Array(all) && all == items,
                        copies@.len() == i,
                        forall|k: int| 0 <= k < i ==> (#[trigger] copies@[k])@ == items@[k]@,
                {
                    assert(decreases_to!(self => items@[i as int]));
                    copies.push(items[i].copy());
                }
                let r = Json::Array(copies);
                proof {
                    lemma_array_view(*items);
                    lemma_array_view(copies);
                }
                assert(r@->Array_0 =~= self@->Array_0);
                r
            },
            Json::Object(members) => {
                let mut copies: Vec<(String, Json)> = Vec::new();
                for i in 0..members.len()
                    invariant
                        self matches Json::Object(all) && all == members,
                        copies@.len() == i,
                        forall|k: int|
                            0 <= k < i ==> (#[trigger] copies@[k]).0@ == members@[k].0@
                                && copies@[k].1@ == members@[k].1@,
                {
                    let member = &members[i];
                    assert(decreases_to!(self => member.1));
                    copies.push((member.0.clone(), member.1.copy()));
                }
                let r = Json::Object(copies);
                proof {
                    lemma_object_view(*members);
                    lemma_object_view(copies);
                }
                assert(r@->Object_0 =~= self@->Object_0);
                r
            },
        }
    }
}

impl Clone for Json {
    fn clone(&self) -> (r: Json)
        ensures
            r@ == self@,
    {
        self.copy()
    }
}

// ---------------------------------------------------------------------------
// Laws
// ---------------------------------------------------------------------------

/// The member with a key is the first that has it; no other document than an object has one.
pub proof fn law_first_member_is_found(value: JsonView, key: Seq<char>)
    ensures
        !(value is Object) ==> value.member(key) is None,
        value matches JsonView::Object(members) ==> {
            &&& value.member(key) is None <==> forall|i: int|
                0 <= i < members.len() ==> (#[trigger] members[i]).0 != key
            &&& value.member(key) matches Some(found) ==> exists|i: int|
                {
                    &&& 0 <= i < members.len()
                    &&& #[trigger] members[i] == (key, found)
                    &&& forall|j: int| 0 <= j < i ==> (#[trigger] members[j]).0 != key
                }
        },
{
    if let JsonView::Object(members) = value {
        let at = lemma_first_place(members, key);
    }
}

/// Where the first member with a key stands.
proof fn lemma_first_place(members: Seq<(Seq<char>, JsonView)>, key: Seq<char>) -> (at: int)
    ensures
        first_member(members, key) is None ==> forall|i: int|
            0 <= i < members.len() ==> (#[trigger] members[i]).0 != key,
        first_member(members, key) matches Some(found) ==> {
            &&& 0 <= at < members.len()
            &&& members[at] == (key, found)
            &&& forall|j: int| 0 <= j < at ==> (#[trigger] members[j]).0 != key
        },
    decreases members.len(),
{
    if members.len() == 0 || members[0].0 == key {
        0
    } else {
        let rest = members.drop_first();
        let at = lemma_first_place(rest, key);
        assert forall|i: int| 1 <= i < members.len() implies #[trigger] members[i] == rest[i
            - 1] by {}
        at + 1
    }
}

/// Texts and whole numbers are read only of documents that are such; a number is read where it
/// fits in 64 bits.
pub proof fn law_documents_are_read_by_kind(value: JsonView, key: Seq<char>)
    ensures
        forall|text: Seq<char>| value.text() == Some(text) <==> value == JsonView::Text(text),
        forall|n: i64| value.integer() == Some(n) <==> value == JsonView::Integer(n as i128),
        value.member_text(key) is Some <==> (value.member(key) matches Some(member) && member
            is Text),
        value.member_text(key) matches Some(text) ==> value.member(key) == Some(
            JsonView::Text(text),
        ),
{
}

} // verus!

//! JSON documents: the tree that a payload parses to and that a request body
//! is composed as.

use serde_json::Value;
use vstd::prelude::*;

verus! {

/// A JSON number: a non-negative integer, a negative integer, or a
/// floating-point number given by the bits of its IEEE-754 double.
#[derive(Clone, Copy, Debug, PartialEq, Eq, Structural)]
pub enum Number {
    PosInt(u64),
    NegInt(i64),
    Float(u64),
}

/// A JSON document.
#[derive(Debug, PartialEq, Eq)]
pub enum Json {
    Null,
    Bool(bool),
    Number(Number),
    Text(String),
    Array(Vec<Json>),
    /// The members of an object, in the order in which they are listed.
    Object(Vec<(String, Json)>),
}

/// The mathematical value of a JSON document.
pub ghost enum JsonView {
    Null,
    Bool(bool),
    Number(Number),
    Text(Seq<char>),
    Array(Seq<JsonView>),
    Object(Seq<(Seq<char>, JsonView)>),
}

/// The value of the first member named `key` among `members`.
pub open spec fn lookup(members: Seq<(Seq<char>, JsonView)>, key: Seq<char>) -> Option<JsonView>
    decreases members.len(),
{
    if members.len() == 0 {
        None
    } else if members[0].0 == key {
        Some(members[0].1)
    } else {
        lookup(members.drop_first(), key)
    }
}

impl JsonView {
    /// The member `key` of an object; `None` for a missing member and for a
    /// document that is no object.
    pub open spec fn member(self, key: Seq<char>) -> Option<JsonView> {
        match self {
            JsonView::Object(members) => lookup(members, key),
            _ => None,
        }
    }
}

/// The value of a document.
pub open spec fn json_view(json: Json) -> JsonView
    decreases json,
{
    match json {
        Json::Null => JsonView::Null,
        Json::Bool(b) => JsonView::Bool(b),
        Json::Number(n) => JsonView::Number(n),
        Json::Text(s) => JsonView::Text(s@),
        Json::Array(items) => JsonView::Array(
            Seq::new(
                items@.len(),
                |i: int|
                    if 0 <= i < items@.len() {
                        json_view(items@[i])
                    } else {
                        JsonView::Null
                    },
            ),
        ),
        Json::Object(members) => JsonView::Object(
            Seq::new(
                members@.len(),
                |i: int|
                    if 0 <= i < members@.len() {
                        (members@[i].0@, json_view(members@[i].1))
                    } else {
                        (Seq::empty(), JsonView::Null)
                    },
            ),
        ),
    }
}

impl View for Json {
    type V = JsonView;

    open spec fn view(&self) -> JsonView {
        json_view(*self)
    }
}

/// An integer as a JSON number.
pub open spec fn integer_number(n: i64) -> Number {
    if n < 0 {
        Number::NegInt(n)
    } else {
        Number::PosInt(n as u64)
    }
}

/// The values of a sequence of documents.
pub open spec fn views(items: Seq<Json>) -> Seq<JsonView> {
    Seq::new(items.len(), |i: int| items[i]@)
}

/// The values of the members of an object.
pub open spec fn member_views(members: Seq<(String, Json)>) -> Seq<(Seq<char>, JsonView)> {
    Seq::new(members.len(), |i: int| (members[i].0@, members[i].1@))
}

/// An array's value lists the values of its items, an object's those of its
/// members.
pub proof fn lemma_view_unfold(json: Json)
    ensures
        json matches Json::Array(items) ==> json@ == JsonView::Array(views(items@)),
        json matches Json::Object(members) ==> json@ == JsonView::Object(member_views(members@)),
{
    reveal_with_fuel(json_view, 2);
    match json {
        Json::Array(items) => {
            assert(json@->Array_0 =~= views(items@));
        },
        Json::Object(members) => {
            assert(json@->Object_0 =~= member_views(members@));
        },
        _ => {},
    }
}

#[verifier::external_type_specification]
#[verifier::external_body]
pub struct ExValue(Value);

/// The document that `serde_json` reads from a text; `None` where it rejects
/// the text.
pub uninterp spec fn json_parse(text: Seq<char>) -> Option<JsonView>;

/// The document that a `serde_json::Value` holds.
pub uninterp spec fn value_view(value: Value) -> JsonView;

/// `serde_json::from_str` at the type `serde_json::Value`. It succeeds on
/// exactly the texts that are JSON documents, and the empty text is none.
#[verifier::external_body]
fn parse_value(text: &str) -> (r: Option<Value>)
    ensures
        r matches Some(v) ==> json_parse(text@) == Some(value_view(v)),
        r is None ==> json_parse(text@) is None,
        text@.len() == 0 ==> r is None,
{
    serde_json::from_str::<Value>(text).ok()
}

/// Turns a `serde_json::Value` into a `Json`, variant by variant; the
/// members of an object come in the order in which the value walks them.
#[verifier::external_body]
fn lift(value: Value) -> (r: Json)
    ensures
        r@ == value_view(value),
{
    match value {
        Value::Null => Json::Null,
        Value::Bool(b) => Json::Bool(b),
        Value::Number(n) => Json::Number(match (n.as_u64(), n.as_i64()) {
            (Some(u), _) => Number::PosInt(u),
            (_, Some(i)) => Number::NegInt(i),
            _ => Number::Float(n.as_f64().map_or(0, |f| f.to_bits())),
        }),
        Value::String(s) => Json::Text(s),
        Value::Array(a) => Json::Array(a.into_iter().map(lift).collect()),
        Value::Object(m) => Json::Object(m.into_iter().map(|(k, v)| (k, lift(v))).collect()),
    }
}

impl Json {
    /// A string document.
    pub fn text(text: &str) -> (r: Json)
        ensures
            r@ == JsonView::Text(text@),
    {
        Json::Text(String::from_str(text))
    }

    /// An array document.
    pub fn array(items: Vec<Json>) -> (r: Json)
        ensures
            r@ == JsonView::Array(views(items@)),
    {
        let r = Json::Array(items);
        proof {
            lemma_view_unfold(r);
        }
        r
    }

    /// An object document.
    pub fn object(members: Vec<(String, Json)>) -> (r: Json)
        ensures
            r@ == JsonView::Object(member_views(members@)),
    {
        let r = Json::Object(members);
        proof {
            lemma_view_unfold(r);
        }
        r
    }

    /// An integer document.
    pub fn integer(n: i64) -> (r: Json)
        ensures
            r@ == JsonView::Number(integer_number(n)),
    {
        if n < 0 {
            Json::Number(Number::NegInt(n))
        } else {
            Json::Number(Number::PosInt(n as u64))
        }
    }

    /// Adds a member at the end of the members of an object.
    pub fn put(members: &mut Vec<(String, Json)>, key: &str, value: Json)
        ensures
            member_views(final(members)@) == member_views(old(members)@).push((key@, value@)),
    {
        members.push((String::from_str(key), value));
        assert(member_views(members@) =~= member_views(old(members)@).push((key@, value@)));
    }

    /// Adds an item at the end of the items of an array.
    pub fn add(items: &mut Vec<Json>, value: Json)
        ensures
            views(final(items)@) == views(old(items)@).push(value@),
    {
        items.push(value);
        assert(views(items@) =~= views(old(items)@).push(value@));
    }

    /// Reads a text as one JSON document.
    pub fn parse(text: &str) -> (r: Option<Json>)
        ensures
            r matches Some(j) ==> json_parse(text@) == Some(j@),
            r is None ==> json_parse(text@) is None,
            text@.len() == 0 ==> r is None,
    {
        match parse_value(text) {
            Some(value) => Some(lift(value)),
            None => None,
        }
    }

    /// Whether a text is a JSON document.
    pub fn is_document(text: &str) -> (r: bool)
        ensures
            r == json_parse(text@).is_some(),
            text@.len() == 0 ==> !r,
    {
        parse_value(text).is_some()
    }

    /// The member `key` of an object.
    pub fn get(&self, key: &str) -> (r: Option<&Json>)
        ensures
            r matches Some(j) ==> self@.member(key@) == Some(j@),
            r is None ==> self@.member(key@) is None,
    {
        match self {
            Json::Object(members) => {
                proof {
                    lemma_view_unfold(*self);
                    assert(self@->Object_0.skip(0) =~= self@->Object_0);
                }
                let mut i: usize = 0;
                while i < members.len()
                    invariant
                        i <= members@.len(),
                        self@ == JsonView::Object(member_views(members@)),
                        lookup(self@->Object_0, key@) == lookup(
                            self@->Object_0.skip(i as int),
                            key@,
                        ),
                    decreases members@.len() - i,
                {
                    let ghost rest = self@->Object_0.skip(i as int);
                    assert(rest[0] == self@->Object_0[i as int]);
                    assert(rest.drop_first() =~= self@->Object_0.skip(i + 1));
                    if members[i].0.as_str().eq(key) {
                        return Some(&members[i].1);
                    }
                    i += 1;
                }
                None
            },
            _ => None,
        }
    }

    /// The text of a string document.
    pub fn as_text(&self) -> (r: Option<&String>)
        ensures
            r matches Some(s) ==> self@ == JsonView::Text(s@),
            r is None ==> !(self@ is Text),
    {
        match self {
            Json::Text(s) => Some(s),
            _ => None,
        }
    }

    /// The value of a non-negative integer document.
    pub fn as_u64(&self) -> (r: Option<u64>)
        ensures
            r matches Some(n) ==> self@ == JsonView::Number(Number::PosInt(n)),
            r is None ==> !(self@ matches JsonView::Number(Number::PosInt(_))),
    {
        match self {
            Json::Number(Number::PosInt(n)) => Some(*n),
            _ => None,
        }
    }

    /// The items of an array document.
    pub fn as_array(&self) -> (r: Option<&Vec<Json>>)
        ensures
            r matches Some(items) ==> self@ == JsonView::Array(views(items@)),
            r is None ==> !(self@ is Array),
    {
        match self {
            Json::Array(items) => {
                proof {
                    lemma_view_unfold(*self);
                }
                Some(items)
            },
            _ => None,
        }
    }

    /// Whether the document is an object.
    pub fn is_object(&self) -> (r: bool)
        ensures
            r == (self@ is Object),
    {
        match self {
            Json::Object(_) => true,
            _ => false,
        }
    }

    /// Whether the document is `null`.
    pub fn is_null(&self) -> (r: bool)
        ensures
            r == (self@ is Null),
    {
        match self {
            Json::Null => true,
            _ => false,
        }
    }
}

} // verus!

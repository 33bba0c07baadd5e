//! Reading JSON text, and taking over documents that `serde_json` has read.

use vstd::prelude::*;

use crate::json::{Json, JsonView, Number};

verus! {

/// A document of `serde_json`.
#[verifier::external_type_specification]
#[verifier::external_body]
pub struct ExValue(serde_json::Value);

/// An error of `serde_json`.
#[verifier::external_type_specification]
#[verifier::external_body]
pub struct ExError(serde_json::Error);

/// What a document of `serde_json` holds.
pub uninterp spec fn value_contents(v: serde_json::Value) -> JsonView;

/// What `serde_json::from_str` reads from a text, or nothing where it fails.
pub uninterp spec fn parsed_json(text: Seq<char>) -> Option<JsonView>;

/// A number from what `serde_json::Number` offers of it: its value as an unsigned
/// integer, as a signed one, and the bits of its value in double precision.
pub open spec fn number_of(unsigned: Option<u64>, signed: Option<i64>, bits: u64) -> Number {
    match (unsigned, signed) {
        (Some(n), _) => Number::PosInt(n),
        (None, Some(n)) => Number::NegInt(n),
        (None, None) => Number::Double(bits),
    }
}

/// The outermost layer of a document of `serde_json`.
enum Layer {
    Null,
    Bool(bool),
    Number(Option<u64>, Option<i64>, Option<u64>),
    String(String),
    Array(Vec<serde_json::Value>),
    Object(Vec<(String, serde_json::Value)>),
}

/// What the members of an object of `serde_json` hold.
spec fn member_contents(members: Seq<(String, serde_json::Value)>) -> Seq<(Seq<char>, JsonView)> {
    members.map_values(|m: (String, serde_json::Value)| (m.0@, value_contents(m.1)))
}

/// What the items of an array of `serde_json` hold.
spec fn item_contents(items: Seq<serde_json::Value>) -> Seq<JsonView> {
    items.map_values(|v: serde_json::Value| value_contents(v))
}

/// `serde_json::from_str`, read into a `serde_json::Value`. It succeeds or fails,
/// and what the document holds, by the text alone.
#[verifier::external_body]
fn value_from_str(text: &str) -> (r: Result<serde_json::Value, serde_json::Error>)
    ensures
        match r {
            Ok(v) => parsed_json(text@) == Some(value_contents(v)),
            Err(_) => parsed_json(text@) is None,
        },
{
    serde_json::from_str(text)
}

/// The variants of `serde_json::Value` told apart, each with its content. A number
/// is handed out by `as_u64`, `as_i64` and `as_f64` of `serde_json::Number`, the
/// last of which always has a value unless numbers of arbitrary precision are
/// switched on in that crate, which they are not here; the members of an object
/// come in the order in which `serde_json::Map` hands them out.
#[verifier::external_body]
fn outer_layer(v: serde_json::Value) -> (r: Layer)
    ensures
        match r {
            Layer::Null => value_contents(v) == JsonView::Null,
            Layer::Bool(b) => value_contents(v) == JsonView::Bool(b),
            Layer::Number(unsigned, signed, bits) => bits is Some && value_contents(v)
                == JsonView::Number(number_of(unsigned, signed, bits->0)),
            Layer::String(s) => value_contents(v) == JsonView::String(s@),
            Layer::Array(items) => value_contents(v) == JsonView::Array(item_contents(items@)),
            Layer::Object(members) => value_contents(v) == JsonView::Object(
                member_contents(members@),
            ),
        },
{
    match v {
        serde_json::Value::Null => Layer::Null,
        serde_json::Value::Bool(b) => Layer::Bool(b),
        serde_json::Value::Number(n) => {
            Layer::Number(n.as_u64(), n.as_i64(), n.as_f64().map(|x| x.to_bits()))
        },
        serde_json::Value::String(s) => Layer::String(s),
        serde_json::Value::Array(items) => Layer::Array(items),
        serde_json::Value::Object(members) => Layer::Object(members.into_iter().collect()),
    }
}

impl Json {
    /// The document that `serde_json` holds.
    pub fn from_value(v: serde_json::Value) -> (r: Json)
        ensures
            r@ == value_contents(v),
        decreases value_contents(v),
    {
        match outer_layer(v) {
            Layer::Null => Json::Null,
            Layer::Bool(b) => Json::Bool(b),
            Layer::Number(unsigned, signed, bits) => {
                let n = match (unsigned, signed, bits) {
                    (Some(u), _, _) => Number::PosInt(u),
                    (None, Some(i), _) => Number::NegInt(i),
                    (None, None, Some(b)) => Number::Double(b),
                    (None, None, None) => {
                        assert(false);
                        Number::Double(0)
                    },
                };
                Json::Number(n)
            },
            Layer::String(s) => Json::String(s),
            Layer::Array(items) => {
                let ghost all = items@;
                let mut list: Vec<Json> = Vec::new();
                for item in it: items
                    invariant
                        it.seq() == all,
                        value_contents(v) == JsonView::Array(item_contents(all)),
                        crate::json::json_views(list@) == item_contents(all).take(it.index() as int),
                {
                    let ghost k = it.index() as int;
                    let ghost before = list@;
                    assert(item_contents(all)[k] == value_contents(item));
                    assert(decreases_to!(value_contents(v) => value_contents(v)->Array_0[k]));
                    list.push(Json::from_value(item));
                    assert(crate::json::json_views(list@) == crate::json::json_views(before).push(value_contents(item)));
                }
                proof {
                    crate::json::lemma_array_view(list);
                    assert(item_contents(all).take(all.len() as int) == item_contents(all));
                }
                Json::Array(list)
            },
            Layer::Object(members) => {
                let ghost all = members@;
                let mut list: Vec<(String, Json)> = Vec::new();
                for member in it: members
                    invariant
                        it.seq() == all,
                        value_contents(v) == JsonView::Object(member_contents(all)),
                        crate::json::member_views(list@) == member_contents(all).take(it.index() as int),
                {
                    let ghost k = it.index() as int;
                    let ghost before = list@;
                    let ghost held = (member.0@, value_contents(member.1));
                    assert(member_contents(all)[k] == held);
                    assert(decreases_to!(value_contents(v) => value_contents(v)->Object_0[k].1));
                    list.push((member.0, Json::from_value(member.1)));
                    assert(crate::json::member_views(list@) == crate::json::member_views(before).push(held));
                }
                proof {
                    crate::json::lemma_object_view(list);
                    assert(member_contents(all).take(all.len() as int) == member_contents(all));
                }
                Json::Object(list)
            },
        }
    }

    /// The document that a text holds, if it is JSON.
    pub fn parse(text: &str) -> (r: Option<Json>)
        ensures
            match r {
                Some(j) => parsed_json(text@) == Some(j@),
                None => parsed_json(text@) is None,
            },
    {
        match value_from_str(text) {
            Ok(v) => Some(Json::from_value(v)),
            Err(_) => None,
        }
    }
}

} // verus!

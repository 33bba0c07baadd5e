//! What is found in a JSON document.

use vstd::prelude::*;

use crate::json::{Json, JsonView, Number};

verus! {

/// Under a key of an object stands the value of the last member that has the key;
/// nothing stands there exactly if no member has it.
pub proof fn law_member_is_the_last(members: Seq<(Seq<char>, JsonView)>, key: Seq<char>)
    ensures
        match JsonView::Object(members).member(key) {
            Some(v) => exists|i: int|
                0 <= i < members.len() && #[trigger] members[i] == (key, v) && forall|j: int|
                    i < j < members.len() ==> (#[trigger] members[j]).0 != key,
            None => forall|i: int| 0 <= i < members.len() ==> (#[trigger] members[i]).0 != key,
        },
    decreases members.len(),
{
    if members.len() > 0 {
        let n = members.len() - 1;
        let before = members.drop_last();
        assert(members.last() == members[n]);
        if members[n].0 == key {
            assert(members[n] == (key, members[n].1));
        } else {
            law_member_is_the_last(before, key);
            match JsonView::Object(before).member(key) {
                Some(v) => {
                    let i = choose|i: int|
                        0 <= i < before.len() && #[trigger] before[i] == (key, v) && forall|j: int|
                            i < j < before.len() ==> (#[trigger] before[j]).0 != key;
                    assert(members[i] == (key, v));
                    assert forall|j: int| i < j < members.len() implies (#[trigger] members[j]).0
                        != key by {
                        if j < n {
                            assert(before[j] == members[j]);
                        }
                    }
                },
                None => {
                    assert forall|i: int| 0 <= i < members.len() implies (#[trigger] members[i]).0
                        != key by {
                        if i < n {
                            assert(before[i] == members[i]);
                        }
                    }
                },
            }
        }
    }
}

/// Only an object has members.
pub proof fn law_only_objects_have_members(v: JsonView, key: Seq<char>)
    ensures
        v.member(key) is Some ==> v is Object,
{
}

/// What stands under a key is the member's value, and null where there is none.
pub proof fn law_value_under_a_key(v: JsonView, key: Seq<char>)
    ensures
        v.member(key) is Some ==> v.member(key) == Some(v.at(key)),
        v.member(key) is None ==> v.at(key) == JsonView::Null,
{
}

/// A document has a text exactly if it is a string, a number that is counted with
/// exactly if it is an integer that is not negative, and items exactly if it is an
/// array.
pub proof fn law_kinds_of_documents(
    v: JsonView,
    text: Seq<char>,
    other: Seq<char>,
    n: u64,
    list: Seq<JsonView>,
)
    ensures
        v.text() == Some(text) <==> v == JsonView::String(text),
        v == JsonView::String(text) ==> v.text_or(other) == text,
        !(v is String) ==> v.text_or(other) == other,
        v.unsigned() == Some(n) <==> v == JsonView::Number(Number::PosInt(n)),
        v.items() == Some(list) <==> v == JsonView::Array(list),
{
}

/// What a document in memory says: the same kind, the same text or number, and as
/// many items or members, each in its place.
pub proof fn law_document_in_memory(j: Json)
    ensures
        match j {
            Json::Null => j@ is Null,
            Json::Bool(b) => j@ == JsonView::Bool(b),
            Json::Number(n) => j@ == JsonView::Number(n),
            Json::String(s) => j@ == JsonView::String(s@),
            Json::Array(items) => {
                &&& j@ matches JsonView::Array(list)
                &&& list.len() == items@.len()
                &&& forall|i: int| 0 <= i < list.len() ==> #[trigger] list[i] == items@[i]@
            },
            Json::Object(members) => {
                &&& j@ matches JsonView::Object(list)
                &&& list.len() == members@.len()
                &&& forall|i: int|
                    0 <= i < list.len() ==> #[trigger] list[i] == (
                        members@[i].0@,
                        members@[i].1@,
                    )
            },
        },
{
    match j {
        Json::Array(items) => crate::json::lemma_array_view(items),
        Json::Object(members) => crate::json::lemma_object_view(members),
        _ => {},
    }
}

/// What each of a list of documents, or of members, says stands in its place.
pub proof fn law_lists_of_documents(items: Seq<Json>, members: Seq<(String, Json)>, i: int)
    ensures
        crate::json::json_views(items).len() == items.len(),
        crate::json::member_views(members).len() == members.len(),
        0 <= i < items.len() ==> crate::json::json_views(items)[i] == items[i]@,
        0 <= i < members.len() ==> crate::json::member_views(members)[i] == (
            members[i].0@,
            members[i].1@,
        ),
{
}

/// A number that has a value as an unsigned integer is that integer, another that
/// has one as a signed integer is that one, and any other is held by its bits.
pub proof fn law_numbers_taken_over(unsigned: Option<u64>, signed: Option<i64>, bits: u64)
    ensures
        unsigned matches Some(n) ==> crate::json_text::number_of(unsigned, signed, bits)
            == Number::PosInt(n),
        unsigned is None && signed is Some ==> crate::json_text::number_of(unsigned, signed, bits)
            == Number::NegInt(signed->0),
        unsigned is None && signed is None ==> crate::json_text::number_of(unsigned, signed, bits)
            == Number::Double(bits),
{
}

} // verus!

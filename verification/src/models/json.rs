//! JSON documents as values, for reading and writing the frames that travel
//! over a connection.

use vstd::prelude::*;

verus! {

/// A JSON document.
#[derive(Debug, PartialEq)]
pub enum Json {
    Null,
    Bool(bool),
    /// A number that is an integer of 64 bits.
    Integer(i64),
    /// Any other number.
    Number,
    Text(String),
    Array(Vec<Json>),
    /// An object's members in the order in which they are written.
    Object(Vec<(String, Json)>),
}

/// The mathematical value of a [`Json`].
pub enum JsonView {
    Null,
    Bool(bool),
    Integer(i64),
    Number,
    Text(Seq<char>),
    Array(Seq<JsonView>),
    Object(Seq<(Seq<char>, JsonView)>),
}

/// What a document stands for.
pub open spec fn json_view(json: Json) -> JsonView
    decreases json,
{
    match json {
        Json::Null => JsonView::Null,
        Json::Bool(b) => JsonView::Bool(b),
        Json::Integer(n) => JsonView::Integer(n),
        Json::Number => JsonView::Number,
        Json::Text(s) => JsonView::Text(s@),
        Json::Array(items) => JsonView::Array(
            Seq::new(
                items@.len(),
                |i: int|
                    if 0 <= i < items@.len() {
                        json_view(items@[i])
                    } else {
                        JsonView::Null
                    },
            ),
        ),
        Json::Object(members) => JsonView::Object(
            Seq::new(
                members@.len(),
                |i: int|
                    if 0 <= i < members@.len() {
                        (members@[i].0@, json_view(members@[i].1))
                    } else {
                        (Seq::empty(), JsonView::Null)
                    },
            ),
        ),
    }
}

impl View for Json {
    type V = JsonView;

    open spec fn view(&self) -> JsonView {
        json_view(*self)
    }
}

/// The documents that a list of documents stands for.
pub open spec fn elements_view(items: Seq<Json>) -> Seq<JsonView> {
    Seq::new(items.len(), |i: int| items[i]@)
}

/// The members that a list of members stands for.
pub open spec fn members_view(members: Seq<(String, Json)>) -> Seq<(Seq<char>, JsonView)> {
    Seq::new(members.len(), |i: int| (members[i].0@, members[i].1@))
}

/// An array stands for the array of what its elements stand for, and an
/// object for the object of what its members stand for.
pub proof fn lemma_json_view(json: Json)
    ensures
        json matches Json::Array(items) ==> json@ == JsonView::Array(elements_view(items@)),
        json matches Json::Object(members) ==> json@ == JsonView::Object(members_view(members@)),
{
    match json {
        Json::Array(items) => {
            assert(json@->Array_0 =~= elements_view(items@));
        },
        Json::Object(members) => {
            assert(json@->Object_0 =~= members_view(members@));
        },
        _ => {},
    }
}

} // verus!

//! The frames that travel over a connection, as JSON documents.
//!
//! A client sends a move as an array of objects with the integers `x` and
//! `y` and the text `value`, and its cursor as an object with the integers
//! `x` and `y`; the two are told apart by their shape. The server sends a
//! batch of moves as an array of objects with `x`, `y`, `value` and
//! `modifiedBy`, and a cursor as an object with `x`, `y` and `user`.

use vstd::prelude::*;
use crate::models::api_models::{CurrentCellDto, CurrentCellUpdate, SolutionItem, SolutionItemDto};
use crate::models::json::{elements_view, lemma_json_view, members_view, Json, JsonView};
use crate::services::ws_server::{Message, MessageView};
use crate::services::ws_session::{Inbound, InboundView};

verus! {

/// The member of an object that is written under `name`: the first of that
/// name.
pub open spec fn member(members: Seq<(Seq<char>, JsonView)>, name: Seq<char>) -> Option<JsonView>
    decreases members.len(),
{
    if members.len() == 0 {
        None
    } else if members[0].0 == name {
        Some(members[0].1)
    } else {
        member(members.skip(1), name)
    }
}

/// The integer that an object holds under `name`.
pub open spec fn integer_member(members: Seq<(Seq<char>, JsonView)>, name: Seq<char>) -> Option<
    i64,
> {
    match member(members, name) {
        Some(JsonView::Integer(n)) => Some(n),
        _ => None,
    }
}

/// The text that an object holds under `name`.
pub open spec fn text_member(members: Seq<(Seq<char>, JsonView)>, name: Seq<char>) -> Option<
    Seq<char>,
> {
    match member(members, name) {
        Some(JsonView::Text(text)) => Some(text),
        _ => None,
    }
}

/// The edit that a document describes: an object with the integers `x` and
/// `y` and the text `value`. Who the object says made the edit is ignored,
/// as are all other members; the edit is read as made by nobody.
pub open spec fn item_of(json: JsonView) -> Option<SolutionItem> {
    match json {
        JsonView::Object(members) => match (
            integer_member(members, "x"@),
            integer_member(members, "y"@),
            text_member(members, "value"@),
        ) {
            (Some(x), Some(y), Some(value)) => Some(
                SolutionItem { x, y, value, modified_by: Seq::empty() },
            ),
            _ => None,
        },
        _ => None,
    }
}

/// The edits that a list of documents describes, if each describes one.
pub open spec fn items_of(elements: Seq<JsonView>) -> Option<Seq<SolutionItem>>
    decreases elements.len(),
{
    if elements.len() == 0 {
        Some(Seq::empty())
    } else {
        match (items_of(elements.drop_last()), item_of(elements.last())) {
            (Some(items), Some(item)) => Some(items.push(item)),
            _ => None,
        }
    }
}

/// What a client's frame says: an array of edits is a move, an object with
/// the integers `x` and `y` is a cursor position, and everything else is
/// malformed.
pub open spec fn frame_of(json: JsonView) -> Option<InboundView> {
    match json {
        JsonView::Array(elements) => match items_of(elements) {
            Some(items) => Some(InboundView::Moves(items)),
            None => None,
        },
        JsonView::Object(members) => match (
            integer_member(members, "x"@),
            integer_member(members, "y"@),
        ) {
            (Some(x), Some(y)) => Some(InboundView::Cursor { x, y }),
            _ => None,
        },
        _ => None,
    }
}

fn find_member<'a>(members: &'a Vec<(String, Json)>, name: &str) -> (found: Option<&'a Json>)
    ensures
        match found {
            Some(json) => member(members_view(members@), name@) == Some(json@),
            None => member(members_view(members@), name@) is None,
        },
{
    let wanted = String::from_str(name);
    let ghost all = members_view(members@);
    let mut i: usize = 0;
    assert(all.skip(0) =~= all);
    while i < members.len()
        invariant
            i <= members.len(),
            wanted@ == name@,
            all == members_view(members@),
            member(all, name@) == member(all.skip(i as int), name@),
        decreases members.len() - i,
    {
        assert(all.skip(i as int)[0] == all[i as int]);
        assert(all.skip(i as int).skip(1) =~= all.skip(i + 1));
        if members[i].0 == wanted {
            return Some(&members[i].1);
        }
        i = i + 1;
    }
    None
}

fn find_integer(members: &Vec<(String, Json)>, name: &str) -> (found: Option<i64>)
    ensures
        found == integer_member(members_view(members@), name@),
{
    match find_member(members, name) {
        Some(Json::Integer(n)) => Some(*n),
        _ => None,
    }
}

fn find_text(members: &Vec<(String, Json)>, name: &str) -> (found: Option<String>)
    ensures
        crate::models::api_models::opt_text(found) == text_member(members_view(members@), name@),
{
    match find_member(members, name) {
        Some(Json::Text(text)) => Some(text.clone()),
        _ => None,
    }
}

fn decode_item(json: &Json) -> (r: Option<SolutionItemDto>)
    ensures
        r.deep_view() == item_of(json@),
{
    match json {
        Json::Object(members) => {
            proof {
                lemma_json_view(*json);
            }
            match (find_integer(members, "x"), find_integer(members, "y"), find_text(members, "value")) {
                (Some(x), Some(y), Some(value)) => Some(
                    SolutionItemDto { x, y, value, modified_by: String::new() },
                ),
                _ => None,
            }
        },
        _ => None,
    }
}

/// Reads what a client's frame says, or `None` for a malformed frame.
pub fn decode_frame(json: &Json) -> (r: Option<Inbound>)
    ensures
        match r {
            Some(inbound) => frame_of(json@) == Some(inbound@),
            None => frame_of(json@) is None,
        },
{
    match json {
        Json::Array(elements) => {
            let ghost described = elements_view(elements@);
            proof {
                lemma_json_view(*json);
            }
            let mut items: Vec<SolutionItemDto> = Vec::new();
            let mut i: usize = 0;
            while i < elements.len()
                invariant
                    i <= elements.len(),
                    json@ == JsonView::Array(described),
                    described.len() == elements.len(),
                    forall|k: int| 0 <= k < elements.len() ==> described[k] == elements@[k]@,
                    items_of(described.take(i as int)) == Some(items.deep_view()),
                decreases elements.len() - i,
            {
                assert(described.take(i + 1).drop_last() =~= described.take(i as int));
                assert(described.take(i + 1).last() == elements@[i as int]@);
                match decode_item(&elements[i]) {
                    Some(item) => {
                        let ghost before = items.deep_view();
                        items.push(item);
                        assert(items.deep_view() =~= before.push(item@));
                    },
                    None => {
                        proof {
                            lemma_items_of_prefix(described, i + 1);
                        }
                        return None;
                    },
                }
                i = i + 1;
            }
            assert(described.take(i as int) =~= described);
            Some(Inbound::Moves(items))
        },
        Json::Object(members) => {
            proof {
                lemma_json_view(*json);
            }
            match (find_integer(members, "x"), find_integer(members, "y")) {
                (Some(x), Some(y)) => Some(Inbound::Cursor { x, y }),
                _ => None,
            }
        },
        _ => None,
    }
}

/// A list of documents of which a part does not describe edits does not
/// describe edits either.
proof fn lemma_items_of_prefix(elements: Seq<JsonView>, n: int)
    requires
        0 <= n <= elements.len(),
        items_of(elements.take(n)) is None,
    ensures
        items_of(elements) is None,
    decreases elements.len() - n,
{
    if n < elements.len() {
        assert(elements.take(n + 1).drop_last() =~= elements.take(n));
        lemma_items_of_prefix(elements, n + 1);
    } else {
        assert(elements.take(n) =~= elements);
    }
}

/// An edit as the server writes it: an object with `x`, `y`, `value` and
/// `modifiedBy`, in this order.
pub open spec fn item_json(item: SolutionItem) -> JsonView {
    JsonView::Object(
        seq![
            ("x"@, JsonView::Integer(item.x)),
            ("y"@, JsonView::Integer(item.y)),
            ("value"@, JsonView::Text(item.value)),
            ("modifiedBy"@, JsonView::Text(item.modified_by)),
        ],
    )
}

/// A cursor position as the server writes it: an object with `x`, `y` and
/// `user`, in this order.
pub open spec fn cursor_json(cell: CurrentCellUpdate) -> JsonView {
    JsonView::Object(
        seq![
            ("x"@, JsonView::Integer(cell.x)),
            ("y"@, JsonView::Integer(cell.y)),
            ("user"@, JsonView::Text(cell.user)),
        ],
    )
}

/// What is written to a connection for a message.
#[derive(Debug, PartialEq)]
pub enum Frame {
    /// A JSON document, to be written as text.
    Document(Json),
    /// Text to be written as it is.
    Verbatim(String),
}

/// The mathematical value of a [`Frame`].
pub enum FrameView {
    Document(JsonView),
    Verbatim(Seq<char>),
}

impl View for Frame {
    type V = FrameView;

    open spec fn view(&self) -> FrameView {
        match self {
            Frame::Document(json) => FrameView::Document(json@),
            Frame::Verbatim(text) => FrameView::Verbatim(text@),
        }
    }
}

/// The frame that carries a message: a batch of moves is the array of its
/// edits, a cursor position is an object, and text goes out as it is.
pub open spec fn frame_for(message: MessageView) -> FrameView {
    match message {
        MessageView::Moves(items) => FrameView::Document(
            JsonView::Array(items.map_values(|item: SolutionItem| item_json(item))),
        ),
        MessageView::CurrentCell(cell) => FrameView::Document(cursor_json(cell)),
        MessageView::Text(text) => FrameView::Verbatim(text),
    }
}

fn encode_item(item: &SolutionItemDto) -> (json: Json)
    ensures
        json@ == item_json(item@),
{
    let mut members: Vec<(String, Json)> = Vec::new();
    members.push((String::from_str("x"), Json::Integer(item.x)));
    members.push((String::from_str("y"), Json::Integer(item.y)));
    members.push((String::from_str("value"), Json::Text(item.value.clone())));
    members.push((String::from_str("modifiedBy"), Json::Text(item.modified_by.clone())));
    let json = Json::Object(members);
    proof {
        lemma_json_view(json);
        assert(members_view(members@) =~= item_json(item@)->Object_0);
    }
    json
}

fn encode_cursor(cell: &CurrentCellDto) -> (json: Json)
    ensures
        json@ == cursor_json(cell@),
{
    let mut members: Vec<(String, Json)> = Vec::new();
    members.push((String::from_str("x"), Json::Integer(cell.x)));
    members.push((String::from_str("y"), Json::Integer(cell.y)));
    members.push((String::from_str("user"), Json::Text(cell.user.clone())));
    let json = Json::Object(members);
    proof {
        lemma_json_view(json);
        assert(members_view(members@) =~= cursor_json(cell@)->Object_0);
    }
    json
}

/// Makes the frame that carries a message to a client.
pub fn encode_message(message: &Message) -> (frame: Frame)
    ensures
        frame@ == frame_for(message@),
{
    match message {
        Message::Moves(items) => {
            let mut elements: Vec<Json> = Vec::new();
            let mut i: usize = 0;
            while i < items.len()
                invariant
                    i <= items.len(),
                    elements@.len() == i,
                    forall|k: int| 0 <= k < i ==> (#[trigger] elements@[k])@ == item_json(items@[k]@),
                decreases items.len() - i,
            {
                elements.push(encode_item(&items[i]));
                i = i + 1;
            }
            let json = Json::Array(elements);
            proof {
                lemma_json_view(json);
                assert(elements_view(elements@) =~= items.deep_view().map_values(
                    |item: SolutionItem| item_json(item),
                ));
            }
            Frame::Document(json)
        },
        Message::CurrentCell(cell) => Frame::Document(encode_cursor(cell)),
        Message::Text(text) => Frame::Verbatim(text.clone()),
    }
}

/// The edits of a batch, each read as made by nobody.
pub open spec fn unsigned(items: Seq<SolutionItem>) -> Seq<SolutionItem> {
    items.map_values(
        |item: SolutionItem|
            SolutionItem { x: item.x, y: item.y, value: item.value, modified_by: Seq::empty() },
    )
}

/// What the server writes for an edit reads as that edit, made by nobody.
pub proof fn lemma_item_reads_back(item: SolutionItem)
    ensures
        item_of(item_json(item)) == Some(
            SolutionItem { x: item.x, y: item.y, value: item.value, modified_by: Seq::empty() },
        ),
{
    reveal_strlit("x");
    reveal_strlit("y");
    reveal_strlit("value");
    reveal_strlit("modifiedBy");
    let members = item_json(item)->Object_0;
    reveal_with_fuel(member, 4);
    assert(members.skip(1)[0] == members[1]);
    assert(members.skip(1).skip(1)[0] == members[2]);
    assert("x"@ != "y"@) by {
        assert("x"@[0] != "y"@[0]);
    }
    assert("x"@ != "value"@) by {
        assert("x"@.len() != "value"@.len());
    }
    assert("y"@ != "value"@) by {
        assert("y"@.len() != "value"@.len());
    }
}

/// A batch of moves as the server writes it reads as a move with the same
/// edits: a client's frame may be what it was sent.
pub proof fn law_moves_read_back(items: Seq<SolutionItem>)
    ensures
        frame_for(MessageView::Moves(items)) matches FrameView::Document(json) && frame_of(json)
            == Some(InboundView::Moves(unsigned(items))),
{
    lemma_items_read_back(items);
}

proof fn lemma_items_read_back(items: Seq<SolutionItem>)
    ensures
        items_of(items.map_values(|item: SolutionItem| item_json(item))) == Some(unsigned(items)),
    decreases items.len(),
{
    let elements = items.map_values(|item: SolutionItem| item_json(item));
    if items.len() == 0 {
        assert(unsigned(items) =~= Seq::empty());
    } else {
        lemma_items_read_back(items.drop_last());
        lemma_item_reads_back(items.last());
        assert(elements.drop_last() =~= items.drop_last().map_values(
            |item: SolutionItem| item_json(item),
        ));
        assert(unsigned(items) =~= unsigned(items.drop_last()).push(
            SolutionItem {
                x: items.last().x,
                y: items.last().y,
                value: items.last().value,
                modified_by: Seq::empty(),
            },
        ));
    }
}

/// A cursor position as the server writes it reads as a cursor at the same
/// square.
pub proof fn law_cursor_reads_back(cell: CurrentCellUpdate)
    ensures
        frame_for(MessageView::CurrentCell(cell)) matches FrameView::Document(json) && frame_of(
            json,
        ) == Some(InboundView::Cursor { x: cell.x, y: cell.y }),
{
    reveal_strlit("x");
    reveal_strlit("y");
    let members = cursor_json(cell)->Object_0;
    reveal_with_fuel(member, 3);
    assert(members.skip(1)[0] == members[1]);
    assert("x"@ != "y"@) by {
        assert("x"@[0] != "y"@[0]);
    }
}

/// A move and a cursor position are never mistaken for one another: no
/// document reads as both.
pub proof fn law_shapes_are_apart(json: JsonView)
    ensures
        frame_of(json) matches Some(InboundView::Moves(_)) ==> json is Array,
        frame_of(json) matches Some(InboundView::Cursor { .. }) ==> json is Object,
{
}

} // verus!

use crossword_server::models::api_models::{CurrentCellDto, SolutionItemDto};
use crossword_server::models::json::Json;
use crossword_server::services::wire::{decode_frame, encode_message, Frame};
use crossword_server::services::ws_server::{CurrentCell, Message, Move};
use crossword_server::services::ws_session::{Connection, Inbound, Report};

fn object(members: Vec<(&str, Json)>) -> Json {
    Json::Object(members.into_iter().map(|(name, json)| (name.to_string(), json)).collect())
}

fn text(s: &str) -> Json {
    Json::Text(s.to_string())
}

fn item(x: i64, y: i64, value: &str, modified_by: &str) -> SolutionItemDto {
    SolutionItemDto { x, y, value: value.to_string(), modified_by: modified_by.to_string() }
}

#[test]
fn array_of_edits_is_a_move() {
    let frame = Json::Array(vec![
        object(vec![
            ("x", Json::Integer(0)),
            ("y", Json::Integer(0)),
            ("value", text("C")),
            ("modifiedBy", text("")),
        ]),
        object(vec![("value", text("D")), ("y", Json::Integer(-2)), ("x", Json::Integer(7))]),
    ]);
    assert_eq!(
        decode_frame(&frame),
        Some(Inbound::Moves(vec![item(0, 0, "C", ""), item(7, -2, "D", "")]))
    );
}

#[test]
fn claimed_author_of_an_edit_is_ignored() {
    let frame = Json::Array(vec![object(vec![
        ("x", Json::Integer(1)),
        ("y", Json::Integer(2)),
        ("value", text("A")),
        ("modifiedBy", text("mallory")),
    ])]);
    assert_eq!(decode_frame(&frame), Some(Inbound::Moves(vec![item(1, 2, "A", "")])));
    let odd = Json::Array(vec![object(vec![
        ("x", Json::Integer(1)),
        ("y", Json::Integer(2)),
        ("value", text("A")),
        ("modifiedBy", Json::Integer(5)),
    ])]);
    assert_eq!(decode_frame(&odd), Some(Inbound::Moves(vec![item(1, 2, "A", "")])));
}

#[test]
fn empty_array_is_an_empty_move() {
    assert_eq!(decode_frame(&Json::Array(Vec::new())), Some(Inbound::Moves(Vec::new())));
}

#[test]
fn object_with_x_and_y_is_a_cursor() {
    let frame = object(vec![("x", Json::Integer(3)), ("y", Json::Integer(4))]);
    assert_eq!(decode_frame(&frame), Some(Inbound::Cursor { x: 3, y: 4 }));
    let with_more =
        object(vec![("user", text("bob")), ("y", Json::Integer(4)), ("x", Json::Integer(3))]);
    assert_eq!(decode_frame(&with_more), Some(Inbound::Cursor { x: 3, y: 4 }));
}

#[test]
fn first_member_of_a_name_counts() {
    let frame = object(vec![
        ("x", Json::Integer(3)),
        ("x", Json::Integer(9)),
        ("y", Json::Integer(4)),
    ]);
    assert_eq!(decode_frame(&frame), Some(Inbound::Cursor { x: 3, y: 4 }));
    let shadowed = object(vec![("x", text("3")), ("x", Json::Integer(9)), ("y", Json::Integer(4))]);
    assert_eq!(decode_frame(&shadowed), None);
}

#[test]
fn malformed_frames_are_refused() {
    assert_eq!(decode_frame(&Json::Null), None);
    assert_eq!(decode_frame(&Json::Bool(true)), None);
    assert_eq!(decode_frame(&Json::Integer(3)), None);
    assert_eq!(decode_frame(&Json::Number), None);
    assert_eq!(decode_frame(&text("[]")), None);
    assert_eq!(decode_frame(&object(Vec::new())), None);
    assert_eq!(decode_frame(&object(vec![("x", Json::Integer(3))])), None);
    assert_eq!(decode_frame(&object(vec![("x", Json::Integer(3)), ("y", Json::Number)])), None);
    assert_eq!(decode_frame(&object(vec![("x", Json::Integer(3)), ("y", text("4"))])), None);
    assert_eq!(decode_frame(&object(vec![("X", Json::Integer(3)), ("y", Json::Integer(4))])), None);
}

#[test]
fn one_bad_edit_spoils_the_move() {
    let good = || {
        object(vec![("x", Json::Integer(0)), ("y", Json::Integer(0)), ("value", text("C"))])
    };
    assert_eq!(decode_frame(&Json::Array(vec![good(), Json::Null])), None);
    assert_eq!(decode_frame(&Json::Array(vec![Json::Integer(1), good()])), None);
    let no_value = object(vec![("x", Json::Integer(0)), ("y", Json::Integer(0))]);
    assert_eq!(decode_frame(&Json::Array(vec![good(), no_value, good()])), None);
    let numeric_value =
        object(vec![("x", Json::Integer(0)), ("y", Json::Integer(0)), ("value", Json::Integer(1))]);
    assert_eq!(decode_frame(&Json::Array(vec![numeric_value])), None);
    assert_eq!(decode_frame(&Json::Array(vec![Json::Array(Vec::new())])), None);
}

#[test]
fn moves_are_written_as_an_array_of_objects() {
    let message = Message::Moves(vec![item(0, 0, "C", "alice"), item(1, -1, "", "bob")]);
    assert_eq!(
        encode_message(&message),
        Frame::Document(Json::Array(vec![
            object(vec![
                ("x", Json::Integer(0)),
                ("y", Json::Integer(0)),
                ("value", text("C")),
                ("modifiedBy", text("alice")),
            ]),
            object(vec![
                ("x", Json::Integer(1)),
                ("y", Json::Integer(-1)),
                ("value", text("")),
                ("modifiedBy", text("bob")),
            ]),
        ]))
    );
    assert_eq!(encode_message(&Message::Moves(Vec::new())), Frame::Document(Json::Array(Vec::new())));
}

#[test]
fn cursor_is_written_as_an_object() {
    let message = Message::CurrentCell(CurrentCellDto { x: 3, y: 4, user: "alice".to_string() });
    assert_eq!(
        encode_message(&message),
        Frame::Document(object(vec![
            ("x", Json::Integer(3)),
            ("y", Json::Integer(4)),
            ("user", text("alice")),
        ]))
    );
}

#[test]
fn text_is_written_as_it_is() {
    assert_eq!(
        encode_message(&Message::Text("[{\"x\":1}]".to_string())),
        Frame::Verbatim("[{\"x\":1}]".to_string())
    );
}

#[test]
fn what_the_server_writes_reads_back() {
    let moves = Message::Moves(vec![item(0, 0, "C", "alice"), item(5, 6, "Z", "bob")]);
    match encode_message(&moves) {
        Frame::Document(json) => assert_eq!(
            decode_frame(&json),
            Some(Inbound::Moves(vec![item(0, 0, "C", ""), item(5, 6, "Z", "")]))
        ),
        Frame::Verbatim(_) => panic!("moves are a document"),
    }
    let cursor = Message::CurrentCell(CurrentCellDto { x: 3, y: 4, user: "alice".to_string() });
    match encode_message(&cursor) {
        Frame::Document(json) => assert_eq!(decode_frame(&json), Some(Inbound::Cursor { x: 3, y: 4 })),
        Frame::Verbatim(_) => panic!("a cursor is a document"),
    }
}

#[test]
fn connection_reads_frames_and_tags_them() {
    let (connection, _) = Connection::open("t".to_string(), "p".to_string(), "u".to_string());
    let id = connection.id();
    let cursor = object(vec![("x", Json::Integer(3)), ("y", Json::Integer(4))]);
    assert_eq!(
        connection.on_frame(Some(cursor)),
        Some(Report::CurrentCell(CurrentCell { x: 3, y: 4, sender: id }))
    );
    let edits = Json::Array(vec![object(vec![
        ("x", Json::Integer(0)),
        ("y", Json::Integer(0)),
        ("value", text("C")),
        ("modifiedBy", text("")),
    ])]);
    assert_eq!(
        connection.on_frame(Some(edits)),
        Some(Report::Move(Move { solution_items: vec![item(0, 0, "C", "")], sender: id }))
    );
    assert_eq!(connection.on_frame(Some(Json::Null)), None);
    assert_eq!(connection.on_frame(None), None);
}

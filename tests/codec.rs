use arson::codec::{
    decode_client, decode_server, encode_client, encode_server, ClientMessage, CommonMessage,
    DecodeError, ServerMessage,
};
use arson::json::{JsonField, JsonValue};

fn object(fields: Vec<(&str, JsonField)>) -> JsonValue {
    JsonValue::Object(fields.into_iter().map(|(k, v)| (k.to_string(), v)).collect())
}

fn all_client_messages() -> Vec<ClientMessage> {
    vec![
        ClientMessage::Common { common: CommonMessage::Chunk { data: vec![0, 1, 255], id: 4 } },
        ClientMessage::Common { common: CommonMessage::Chunk { data: vec![], id: 0 } },
        ClientMessage::Text { text: "hello".to_string() },
        ClientMessage::Rename { new_name: "bob".to_string() },
        ClientMessage::RequestFileUpload { name: "a.txt".to_string(), size: 5, id: 7 },
        ClientMessage::RequestFileDownload { name: "b.txt".to_string() },
        ClientMessage::AgreeFileDownload { id: 9 },
        ClientMessage::Leave,
        ClientMessage::Unrecognized {
            tag: "Ping".to_string(),
            fields: vec![("type".to_string(), JsonField::Str("Ping".to_string())), ("n".to_string(), JsonField::UInt(1))],
        },
    ]
}

fn all_server_messages() -> Vec<ServerMessage> {
    vec![
        ServerMessage::Common { common: CommonMessage::Chunk { data: vec![1, 2, 3], id: 9 } },
        ServerMessage::AgreeFileUpload { id: 7 },
        ServerMessage::DeclineFileUpload { id: 3, reason: "too big".to_string() },
        ServerMessage::AgreeFileDownload { name: "b.txt".to_string(), size: 3, id: 9 },
        ServerMessage::DeclineFileDownload { name: "c.txt".to_string(), reason: "not found".to_string() },
        ServerMessage::Unrecognized {
            tag: "Welcome".to_string(),
            fields: vec![
                ("type".to_string(), JsonField::Str("Welcome".to_string())),
                ("text".to_string(), JsonField::Str("hello all".to_string())),
                ("count".to_string(), JsonField::UInt(3)),
                ("list".to_string(), JsonField::UIntArray(vec![1, 2])),
                ("extra".to_string(), JsonField::Other),
            ],
        },
    ]
}

#[test]
fn client_messages_round_trip() {
    for m in all_client_messages() {
        assert_eq!(decode_client(&encode_client(&m)), Ok(m));
    }
}

#[test]
fn server_messages_round_trip() {
    for m in all_server_messages() {
        assert_eq!(decode_server(&encode_server(&m)), Ok(m));
    }
}

#[test]
fn encoding_puts_the_type_first() {
    let v = encode_client(&ClientMessage::RequestFileUpload { name: "a.txt".to_string(), size: 5, id: 7 });
    assert_eq!(
        v,
        object(vec![
            ("type", JsonField::Str("RequestFileUpload".to_string())),
            ("name", JsonField::Str("a.txt".to_string())),
            ("size", JsonField::UInt(5)),
            ("id", JsonField::UInt(7)),
        ])
    );
    let c = encode_server(&ServerMessage::Common { common: CommonMessage::Chunk { data: vec![1, 200], id: 2 } });
    assert_eq!(
        c,
        object(vec![
            ("type", JsonField::Str("Chunk".to_string())),
            ("data", JsonField::UIntArray(vec![1, 200])),
            ("id", JsonField::UInt(2)),
        ])
    );
}

#[test]
fn extra_fields_and_order_are_ignored() {
    let v = object(vec![
        ("id", JsonField::UInt(9)),
        ("extra", JsonField::Other),
        ("size", JsonField::UInt(3)),
        ("type", JsonField::Str("AgreeFileDownload".to_string())),
        ("name", JsonField::Str("b.txt".to_string())),
    ]);
    assert_eq!(
        decode_server(&v),
        Ok(ServerMessage::AgreeFileDownload { name: "b.txt".to_string(), size: 3, id: 9 })
    );
}

#[test]
fn wrong_shaped_field_names_the_field() {
    let v = object(vec![
        ("type", JsonField::Str("AgreeFileDownload".to_string())),
        ("name", JsonField::Str("b.txt".to_string())),
        ("size", JsonField::Str("3".to_string())),
        ("id", JsonField::UInt(9)),
    ]);
    assert_eq!(decode_server(&v), Err(DecodeError::Malformed { field: "size".to_string() }));
    let missing = object(vec![("type", JsonField::Str("DeclineFileUpload".to_string())), ("id", JsonField::UInt(1))]);
    assert_eq!(decode_server(&missing), Err(DecodeError::Malformed { field: "reason".to_string() }));
}

#[test]
fn chunk_data_must_be_bytes() {
    let v = object(vec![
        ("type", JsonField::Str("Chunk".to_string())),
        ("data", JsonField::UIntArray(vec![1, 256])),
        ("id", JsonField::UInt(1)),
    ]);
    assert_eq!(decode_server(&v), Err(DecodeError::Malformed { field: "data".to_string() }));
    let other = object(vec![
        ("type", JsonField::Str("Chunk".to_string())),
        ("data", JsonField::Other),
        ("id", JsonField::UInt(1)),
    ]);
    assert_eq!(decode_client(&other), Err(DecodeError::Malformed { field: "data".to_string() }));
}

#[test]
fn missing_type_and_non_objects_fail() {
    assert_eq!(decode_server(&JsonValue::NotObject), Err(DecodeError::NotAnObject));
    assert_eq!(decode_client(&JsonValue::NotObject), Err(DecodeError::NotAnObject));
    let untyped = object(vec![("id", JsonField::UInt(1))]);
    assert_eq!(decode_server(&untyped), Err(DecodeError::Malformed { field: "type".to_string() }));
    let numeric_type = object(vec![("type", JsonField::UInt(1))]);
    assert_eq!(decode_client(&numeric_type), Err(DecodeError::Malformed { field: "type".to_string() }));
}

#[test]
fn unknown_types_keep_their_fields() {
    let v = object(vec![("type", JsonField::Str("Welcome".to_string())), ("text", JsonField::Str("hi".to_string()))]);
    let fields = || {
        vec![
            ("type".to_string(), JsonField::Str("Welcome".to_string())),
            ("text".to_string(), JsonField::Str("hi".to_string())),
        ]
    };
    assert_eq!(decode_server(&v), Ok(ServerMessage::Unrecognized { tag: "Welcome".to_string(), fields: fields() }));
    assert_eq!(decode_client(&v), Ok(ClientMessage::Unrecognized { tag: "Welcome".to_string(), fields: fields() }));
}

#[test]
fn first_field_of_a_name_wins() {
    let v = object(vec![
        ("type", JsonField::Str("Text".to_string())),
        ("text", JsonField::Str("first".to_string())),
        ("text", JsonField::Str("second".to_string())),
    ]);
    assert_eq!(decode_client(&v), Ok(ClientMessage::Text { text: "first".to_string() }));
}

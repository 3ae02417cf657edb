use vstd::prelude::*;
use crate::json::{
    bytes_field, copy_entries, distinct_keys, entries_view, get_bytes, get_str, get_uint, lemma_lookup_distinct,
    lemma_widen_bytes, lookup, str_eq, str_field, uint_field, widen, widen_bytes, Entries,
    FieldModel, JsonField, JsonValue,
};

verus! {

/// A message that either side may send.
#[derive(Debug, PartialEq, Eq)]
pub enum CommonMessage {
    Chunk { data: Vec<u8>, id: u64 },
}

/// A message from the client to the server.
#[derive(Debug, PartialEq, Eq)]
pub enum ClientMessage {
    Common { common: CommonMessage },
    Text { text: String },
    Rename { new_name: String },
    RequestFileUpload { name: String, size: u64, id: u64 },
    RequestFileDownload { name: String },
    AgreeFileDownload { id: u64 },
    Leave,
    /// A message of a type the server does not act on, with all of its
    /// fields, the type included.
    Unrecognized { tag: String, fields: Vec<(String, JsonField)> },
}

/// A message from the server to the client.
#[derive(Debug, PartialEq, Eq)]
pub enum ServerMessage {
    Common { common: CommonMessage },
    AgreeFileUpload { id: u64 },
    DeclineFileUpload { id: u64, reason: String },
    AgreeFileDownload { name: String, size: u64, id: u64 },
    DeclineFileDownload { name: String, reason: String },
    /// A message of a type the client does not act on, with all of its
    /// fields, the type included, to be shown as it came.
    Unrecognized { tag: String, fields: Vec<(String, JsonField)> },
}

/// Why a JSON value is not a message.
#[derive(Debug, PartialEq, Eq)]
pub enum DecodeError {
    NotAnObject,
    /// The named field is missing or has the wrong shape.
    Malformed { field: String },
}

pub enum CommonModel {
    Chunk { data: Seq<u8>, id: u64 },
}

pub enum ClientModel {
    Common(CommonModel),
    Text(Seq<char>),
    Rename(Seq<char>),
    RequestFileUpload { name: Seq<char>, size: u64, id: u64 },
    RequestFileDownload(Seq<char>),
    AgreeFileDownload(u64),
    Leave,
    Unrecognized(Seq<char>, Entries),
}

pub enum ServerModel {
    Common(CommonModel),
    AgreeFileUpload(u64),
    DeclineFileUpload { id: u64, reason: Seq<char> },
    AgreeFileDownload { name: Seq<char>, size: u64, id: u64 },
    DeclineFileDownload { name: Seq<char>, reason: Seq<char> },
    Unrecognized(Seq<char>, Entries),
}

pub enum DecodeErrorModel {
    NotAnObject,
    Malformed(Seq<char>),
}

impl View for CommonMessage {
    type V = CommonModel;

    open spec fn view(&self) -> CommonModel {
        match self {
            CommonMessage::Chunk { data, id } => CommonModel::Chunk { data: data@, id: *id },
        }
    }
}

impl View for ClientMessage {
    type V = ClientModel;

    open spec fn view(&self) -> ClientModel {
        match self {
            ClientMessage::Common { common } => ClientModel::Common(common@),
            ClientMessage::Text { text } => ClientModel::Text(text@),
            ClientMessage::Rename { new_name } => ClientModel::Rename(new_name@),
            ClientMessage::RequestFileUpload { name, size, id } => ClientModel::RequestFileUpload {
                name: name@,
                size: *size,
                id: *id,
            },
            ClientMessage::RequestFileDownload { name } => ClientModel::RequestFileDownload(name@),
            ClientMessage::AgreeFileDownload { id } => ClientModel::AgreeFileDownload(*id),
            ClientMessage::Leave => ClientModel::Leave,
            ClientMessage::Unrecognized { tag, fields } => ClientModel::Unrecognized(
                tag@,
                entries_view(fields@),
            ),
        }
    }
}

impl View for ServerMessage {
    type V = ServerModel;

    open spec fn view(&self) -> ServerModel {
        match self {
            ServerMessage::Common { common } => ServerModel::Common(common@),
            ServerMessage::AgreeFileUpload { id } => ServerModel::AgreeFileUpload(*id),
            ServerMessage::DeclineFileUpload { id, reason } => ServerModel::DeclineFileUpload {
                id: *id,
                reason: reason@,
            },
            ServerMessage::AgreeFileDownload { name, size, id } => ServerModel::AgreeFileDownload {
                name: name@,
                size: *size,
                id: *id,
            },
            ServerMessage::DeclineFileDownload { name, reason } => ServerModel::DeclineFileDownload {
                name: name@,
                reason: reason@,
            },
            ServerMessage::Unrecognized { tag, fields } => ServerModel::Unrecognized(
                tag@,
                entries_view(fields@),
            ),
        }
    }
}

impl View for DecodeError {
    type V = DecodeErrorModel;

    open spec fn view(&self) -> DecodeErrorModel {
        match self {
            DecodeError::NotAnObject => DecodeErrorModel::NotAnObject,
            DecodeError::Malformed { field } => DecodeErrorModel::Malformed(field@),
        }
    }
}

// ---------------------------------------------------------------------------
// The wire shape: an object whose "type" field names the variant, followed
// by the variant's fields in declaration order.

pub open spec fn tag_entry(tag: Seq<char>) -> (Seq<char>, FieldModel) {
    ("type"@, FieldModel::Str(tag))
}

pub open spec fn common_entries(m: CommonModel) -> Entries {
    match m {
        CommonModel::Chunk { data, id } => seq![
            tag_entry("Chunk"@),
            ("data"@, FieldModel::UIntArray(widen(data))),
            ("id"@, FieldModel::UInt(id)),
        ],
    }
}

pub open spec fn client_entries(m: ClientModel) -> Entries {
    match m {
        ClientModel::Common(c) => common_entries(c),
        ClientModel::Text(text) => seq![tag_entry("Text"@), ("text"@, FieldModel::Str(text))],
        ClientModel::Rename(n) => seq![tag_entry("Rename"@), ("new_name"@, FieldModel::Str(n))],
        ClientModel::RequestFileUpload { name, size, id } => seq![
            tag_entry("RequestFileUpload"@),
            ("name"@, FieldModel::Str(name)),
            ("size"@, FieldModel::UInt(size)),
            ("id"@, FieldModel::UInt(id)),
        ],
        ClientModel::RequestFileDownload(name) => seq![
            tag_entry("RequestFileDownload"@),
            ("name"@, FieldModel::Str(name)),
        ],
        ClientModel::AgreeFileDownload(id) => seq![
            tag_entry("AgreeFileDownload"@),
            ("id"@, FieldModel::UInt(id)),
        ],
        ClientModel::Leave => seq![tag_entry("Leave"@)],
        ClientModel::Unrecognized(_, e) => e,
    }
}

pub open spec fn server_entries(m: ServerModel) -> Entries {
    match m {
        ServerModel::Common(c) => common_entries(c),
        ServerModel::AgreeFileUpload(id) => seq![
            tag_entry("AgreeFileUpload"@),
            ("id"@, FieldModel::UInt(id)),
        ],
        ServerModel::DeclineFileUpload { id, reason } => seq![
            tag_entry("DeclineFileUpload"@),
            ("id"@, FieldModel::UInt(id)),
            ("reason"@, FieldModel::Str(reason)),
        ],
        ServerModel::AgreeFileDownload { name, size, id } => seq![
            tag_entry("AgreeFileDownload"@),
            ("name"@, FieldModel::Str(name)),
            ("size"@, FieldModel::UInt(size)),
            ("id"@, FieldModel::UInt(id)),
        ],
        ServerModel::DeclineFileDownload { name, reason } => seq![
            tag_entry("DeclineFileDownload"@),
            ("name"@, FieldModel::Str(name)),
            ("reason"@, FieldModel::Str(reason)),
        ],
        ServerModel::Unrecognized(_, e) => e,
    }
}

pub open spec fn malformed<T>(field: Seq<char>) -> Result<T, DecodeErrorModel> {
    Err(DecodeErrorModel::Malformed(field))
}

pub open spec fn common_of(e: Entries) -> Result<CommonModel, DecodeErrorModel> {
    match (bytes_field(e, "data"@), uint_field(e, "id"@)) {
        (None, _) => malformed("data"@),
        (_, None) => malformed("id"@),
        (Some(data), Some(id)) => Ok(CommonModel::Chunk { data, id }),
    }
}

pub open spec fn client_of_tagged(e: Entries, tag: Seq<char>) -> Result<ClientModel, DecodeErrorModel> {
    if tag == "Chunk"@ {
        match common_of(e) {
            Ok(c) => Ok(ClientModel::Common(c)),
            Err(x) => Err(x),
        }
    } else if tag == "Text"@ {
        match str_field(e, "text"@) {
            Some(t) => Ok(ClientModel::Text(t)),
            None => malformed("text"@),
        }
    } else if tag == "Rename"@ {
        match str_field(e, "new_name"@) {
            Some(n) => Ok(ClientModel::Rename(n)),
            None => malformed("new_name"@),
        }
    } else if tag == "RequestFileUpload"@ {
        match (str_field(e, "name"@), uint_field(e, "size"@), uint_field(e, "id"@)) {
            (None, _, _) => malformed("name"@),
            (_, None, _) => malformed("size"@),
            (_, _, None) => malformed("id"@),
            (Some(name), Some(size), Some(id)) => Ok(ClientModel::RequestFileUpload { name, size, id }),
        }
    } else if tag == "RequestFileDownload"@ {
        match str_field(e, "name"@) {
            Some(n) => Ok(ClientModel::RequestFileDownload(n)),
            None => malformed("name"@),
        }
    } else if tag == "AgreeFileDownload"@ {
        match uint_field(e, "id"@) {
            Some(id) => Ok(ClientModel::AgreeFileDownload(id)),
            None => malformed("id"@),
        }
    } else if tag == "Leave"@ {
        Ok(ClientModel::Leave)
    } else {
        Ok(ClientModel::Unrecognized(tag, e))
    }
}

/// What a JSON value decodes to as a client message; a type the server
/// does not know is kept as `Unrecognized`.
pub open spec fn client_of(v: Option<Entries>) -> Result<ClientModel, DecodeErrorModel> {
    match v {
        None => Err(DecodeErrorModel::NotAnObject),
        Some(e) => match str_field(e, "type"@) {
            None => malformed("type"@),
            Some(tag) => client_of_tagged(e, tag),
        },
    }
}

pub open spec fn server_of_tagged(e: Entries, tag: Seq<char>) -> Result<ServerModel, DecodeErrorModel> {
    if tag == "Chunk"@ {
        match common_of(e) {
            Ok(c) => Ok(ServerModel::Common(c)),
            Err(x) => Err(x),
        }
    } else if tag == "AgreeFileUpload"@ {
        match uint_field(e, "id"@) {
            Some(id) => Ok(ServerModel::AgreeFileUpload(id)),
            None => malformed("id"@),
        }
    } else if tag == "DeclineFileUpload"@ {
        match (uint_field(e, "id"@), str_field(e, "reason"@)) {
            (None, _) => malformed("id"@),
            (_, None) => malformed("reason"@),
            (Some(id), Some(reason)) => Ok(ServerModel::DeclineFileUpload { id, reason }),
        }
    } else if tag == "AgreeFileDownload"@ {
        match (str_field(e, "name"@), uint_field(e, "size"@), uint_field(e, "id"@)) {
            (None, _, _) => malformed("name"@),
            (_, None, _) => malformed("size"@),
            (_, _, None) => malformed("id"@),
            (Some(name), Some(size), Some(id)) => Ok(ServerModel::AgreeFileDownload { name, size, id }),
        }
    } else if tag == "DeclineFileDownload"@ {
        match (str_field(e, "name"@), str_field(e, "reason"@)) {
            (None, _) => malformed("name"@),
            (_, None) => malformed("reason"@),
            (Some(name), Some(reason)) => Ok(ServerModel::DeclineFileDownload { name, reason }),
        }
    } else {
        Ok(ServerModel::Unrecognized(tag, e))
    }
}

/// What a JSON value decodes to as a server message; a type the client
/// does not know is kept as `Unrecognized`.
pub open spec fn server_of(v: Option<Entries>) -> Result<ServerModel, DecodeErrorModel> {
    match v {
        None => Err(DecodeErrorModel::NotAnObject),
        Some(e) => match str_field(e, "type"@) {
            None => malformed("type"@),
            Some(tag) => server_of_tagged(e, tag),
        },
    }
}

/// The server message types that the client acts on.
pub open spec fn is_known_server_tag(tag: Seq<char>) -> bool {
    ||| tag == "Chunk"@
    ||| tag == "AgreeFileUpload"@
    ||| tag == "DeclineFileUpload"@
    ||| tag == "AgreeFileDownload"@
    ||| tag == "DeclineFileDownload"@
}

/// A server message that can be sent: `Unrecognized` only for a type
/// the client does not act on, named by its own "type" field.
pub open spec fn server_sendable(m: ServerModel) -> bool {
    match m {
        ServerModel::Unrecognized(tag, e) => str_field(e, "type"@) == Some(tag)
            && !is_known_server_tag(tag),
        _ => true,
    }
}

/// The client message types that the server acts on.
pub open spec fn is_known_client_tag(tag: Seq<char>) -> bool {
    ||| tag == "Chunk"@
    ||| tag == "Text"@
    ||| tag == "Rename"@
    ||| tag == "RequestFileUpload"@
    ||| tag == "RequestFileDownload"@
    ||| tag == "AgreeFileDownload"@
    ||| tag == "Leave"@
}

/// A client message that can be sent: `Unrecognized` only for a type the
/// server does not act on, named by its own "type" field.
pub open spec fn client_sendable(m: ClientModel) -> bool {
    match m {
        ClientModel::Unrecognized(tag, e) => str_field(e, "type"@) == Some(tag)
            && !is_known_client_tag(tag),
        _ => true,
    }
}

/// Length and first two characters of each name used on the wire: enough
/// to tell any two of them apart.
proof fn lemma_wire_literals()
    ensures
        "type"@.len() == 4,
        "type"@[0] == 't',
        "type"@[1] == 'y',
        "data"@.len() == 4,
        "data"@[0] == 'd',
        "data"@[1] == 'a',
        "id"@.len() == 2,
        "id"@[0] == 'i',
        "id"@[1] == 'd',
        "text"@.len() == 4,
        "text"@[0] == 't',
        "text"@[1] == 'e',
        "new_name"@.len() == 8,
        "new_name"@[0] == 'n',
        "new_name"@[1] == 'e',
        "name"@.len() == 4,
        "name"@[0] == 'n',
        "name"@[1] == 'a',
        "size"@.len() == 4,
        "size"@[0] == 's',
        "size"@[1] == 'i',
        "reason"@.len() == 6,
        "reason"@[0] == 'r',
        "reason"@[1] == 'e',
        "Chunk"@.len() == 5,
        "Chunk"@[0] == 'C',
        "Chunk"@[1] == 'h',
        "Text"@.len() == 4,
        "Text"@[0] == 'T',
        "Text"@[1] == 'e',
        "Rename"@.len() == 6,
        "Rename"@[0] == 'R',
        "Rename"@[1] == 'e',
        "RequestFileUpload"@.len() == 17,
        "RequestFileUpload"@[0] == 'R',
        "RequestFileUpload"@[1] == 'e',
        "RequestFileDownload"@.len() == 19,
        "RequestFileDownload"@[0] == 'R',
        "RequestFileDownload"@[1] == 'e',
        "AgreeFileDownload"@.len() == 17,
        "AgreeFileDownload"@[0] == 'A',
        "AgreeFileDownload"@[1] == 'g',
        "Leave"@.len() == 5,
        "Leave"@[0] == 'L',
        "Leave"@[1] == 'e',
        "AgreeFileUpload"@.len() == 15,
        "AgreeFileUpload"@[0] == 'A',
        "AgreeFileUpload"@[1] == 'g',
        "DeclineFileUpload"@.len() == 17,
        "DeclineFileUpload"@[0] == 'D',
        "DeclineFileUpload"@[1] == 'e',
        "DeclineFileDownload"@.len() == 19,
        "DeclineFileDownload"@[0] == 'D',
        "DeclineFileDownload"@[1] == 'e',
{
    reveal_strlit("type");
    reveal_strlit("data");
    reveal_strlit("id");
    reveal_strlit("text");
    reveal_strlit("new_name");
    reveal_strlit("name");
    reveal_strlit("size");
    reveal_strlit("reason");
    reveal_strlit("Chunk");
    reveal_strlit("Text");
    reveal_strlit("Rename");
    reveal_strlit("RequestFileUpload");
    reveal_strlit("RequestFileDownload");
    reveal_strlit("AgreeFileDownload");
    reveal_strlit("Leave");
    reveal_strlit("AgreeFileUpload");
    reveal_strlit("DeclineFileUpload");
    reveal_strlit("DeclineFileDownload");
}

proof fn lemma_common_round_trip(c: CommonModel)
    ensures
        str_field(common_entries(c), "type"@) == Some("Chunk"@),
        common_of(common_entries(c)) == Ok::<CommonModel, DecodeErrorModel>(c),
{
    lemma_wire_literals();
    let e = common_entries(c);
    lemma_lookup_distinct(e);
    let CommonModel::Chunk { data, id } = c;
    lemma_widen_bytes(data);
    assert(lookup(e, e[0].0) == Some(e[0].1));
    assert(lookup(e, e[1].0) == Some(e[1].1));
    assert(lookup(e, e[2].0) == Some(e[2].1));
}

/// Decoding the encoding of any client message that can be sent gives the
/// message back.
pub proof fn lemma_client_round_trip(m: ClientModel)
    requires
        client_sendable(m),
    ensures
        client_of(Some(client_entries(m))) == Ok::<ClientModel, DecodeErrorModel>(m),
{
    if m is Unrecognized {
        return;
    }
    lemma_wire_literals();
    let e = client_entries(m);
    assert(distinct_keys(e));
    lemma_lookup_distinct(e);
    assert(lookup(e, e[0].0) == Some(e[0].1));
    if e.len() > 1 {
        assert(lookup(e, e[1].0) == Some(e[1].1));
    }
    if e.len() > 2 {
        assert(lookup(e, e[2].0) == Some(e[2].1));
    }
    if e.len() > 3 {
        assert(lookup(e, e[3].0) == Some(e[3].1));
    }
    if let ClientModel::Common(c) = m {
        lemma_common_round_trip(c);
    }
}

/// Decoding the encoding of any server message that can be sent gives the
/// message back.
pub proof fn lemma_server_round_trip(m: ServerModel)
    requires
        server_sendable(m),
    ensures
        server_of(Some(server_entries(m))) == Ok::<ServerModel, DecodeErrorModel>(m),
{
    if m is Unrecognized {
        return;
    }
    lemma_wire_literals();
    let e = server_entries(m);
    assert(distinct_keys(e));
    lemma_lookup_distinct(e);
    assert(lookup(e, e[0].0) == Some(e[0].1));
    if e.len() > 1 {
        assert(lookup(e, e[1].0) == Some(e[1].1));
    }
    if e.len() > 2 {
        assert(lookup(e, e[2].0) == Some(e[2].1));
    }
    if e.len() > 3 {
        assert(lookup(e, e[3].0) == Some(e[3].1));
    }
    if let ServerModel::Common(c) = m {
        lemma_common_round_trip(c);
    }
}

// ---------------------------------------------------------------------------
// Encoding.

fn push_entry(v: &mut Vec<(String, JsonField)>, key: &str, f: JsonField)
    ensures
        entries_view(final(v)@) == entries_view(old(v)@).push((key@, f@)),
{
    let ghost f_view = f@;
    v.push((key.to_owned(), f));
    assert(entries_view(v@) =~= entries_view(old(v)@).push((key@, f_view)));
}

fn tagged(tag: &str) -> (r: Vec<(String, JsonField)>)
    ensures
        entries_view(r@) == seq![tag_entry(tag@)],
{
    let mut v: Vec<(String, JsonField)> = Vec::new();
    assert(entries_view(v@) =~= Seq::<(Seq<char>, FieldModel)>::empty());
    push_entry(&mut v, "type", JsonField::Str(tag.to_owned()));
    v
}

fn common_fields(m: &CommonMessage) -> (r: Vec<(String, JsonField)>)
    ensures
        entries_view(r@) == common_entries(m@),
{
    match m {
        CommonMessage::Chunk { data, id } => {
            let mut v = tagged("Chunk");
            push_entry(&mut v, "data", JsonField::UIntArray(widen_bytes(data)));
            push_entry(&mut v, "id", JsonField::UInt(*id));
            v
        },
    }
}

/// The JSON form of a client message.
pub fn encode_client(m: &ClientMessage) -> (r: JsonValue)
    ensures
        r@ == Some(client_entries(m@)),
{
    let v = match m {
        ClientMessage::Common { common } => common_fields(common),
        ClientMessage::Text { text } => {
            let mut v = tagged("Text");
            push_entry(&mut v, "text", JsonField::Str(text.clone()));
            v
        },
        ClientMessage::Rename { new_name } => {
            let mut v = tagged("Rename");
            push_entry(&mut v, "new_name", JsonField::Str(new_name.clone()));
            v
        },
        ClientMessage::RequestFileUpload { name, size, id } => {
            let mut v = tagged("RequestFileUpload");
            push_entry(&mut v, "name", JsonField::Str(name.clone()));
            push_entry(&mut v, "size", JsonField::UInt(*size));
            push_entry(&mut v, "id", JsonField::UInt(*id));
            v
        },
        ClientMessage::RequestFileDownload { name } => {
            let mut v = tagged("RequestFileDownload");
            push_entry(&mut v, "name", JsonField::Str(name.clone()));
            v
        },
        ClientMessage::AgreeFileDownload { id } => {
            let mut v = tagged("AgreeFileDownload");
            push_entry(&mut v, "id", JsonField::UInt(*id));
            v
        },
        ClientMessage::Leave => tagged("Leave"),
        ClientMessage::Unrecognized { fields, .. } => copy_entries(fields),
    };
    JsonValue::Object(v)
}

/// The JSON form of a server message.
pub fn encode_server(m: &ServerMessage) -> (r: JsonValue)
    ensures
        r@ == Some(server_entries(m@)),
{
    let v = match m {
        ServerMessage::Common { common } => common_fields(common),
        ServerMessage::AgreeFileUpload { id } => {
            let mut v = tagged("AgreeFileUpload");
            push_entry(&mut v, "id", JsonField::UInt(*id));
            v
        },
        ServerMessage::DeclineFileUpload { id, reason } => {
            let mut v = tagged("DeclineFileUpload");
            push_entry(&mut v, "id", JsonField::UInt(*id));
            push_entry(&mut v, "reason", JsonField::Str(reason.clone()));
            v
        },
        ServerMessage::AgreeFileDownload { name, size, id } => {
            let mut v = tagged("AgreeFileDownload");
            push_entry(&mut v, "name", JsonField::Str(name.clone()));
            push_entry(&mut v, "size", JsonField::UInt(*size));
            push_entry(&mut v, "id", JsonField::UInt(*id));
            v
        },
        ServerMessage::DeclineFileDownload { name, reason } => {
            let mut v = tagged("DeclineFileDownload");
            push_entry(&mut v, "name", JsonField::Str(name.clone()));
            push_entry(&mut v, "reason", JsonField::Str(reason.clone()));
            v
        },
        ServerMessage::Unrecognized { fields, .. } => copy_entries(fields),
    };
    JsonValue::Object(v)
}

// ---------------------------------------------------------------------------
// Decoding.

fn malformed_field(field: &str) -> (r: DecodeError)
    ensures
        r@ == DecodeErrorModel::Malformed(field@),
{
    DecodeError::Malformed { field: field.to_owned() }
}

fn decode_common(e: &Vec<(String, JsonField)>) -> (r: Result<CommonMessage, DecodeError>)
    ensures
        match r {
            Ok(m) => common_of(entries_view(e@)) == Ok::<CommonModel, DecodeErrorModel>(m@),
            Err(x) => common_of(entries_view(e@)) == Err::<CommonModel, DecodeErrorModel>(x@),
        },
{
    let data = match get_bytes(e, "data") {
        Some(d) => d,
        None => return Err(malformed_field("data")),
    };
    match get_uint(e, "id") {
        Some(id) => Ok(CommonMessage::Chunk { data, id }),
        None => Err(malformed_field("id")),
    }
}

/// Reads a client message from a JSON value.
pub fn decode_client(v: &JsonValue) -> (r: Result<ClientMessage, DecodeError>)
    ensures
        match r {
            Ok(m) => client_of(v@) == Ok::<ClientModel, DecodeErrorModel>(m@),
            Err(x) => client_of(v@) == Err::<ClientModel, DecodeErrorModel>(x@),
        },
{
    let e = match v {
        JsonValue::Object(e) => e,
        JsonValue::NotObject => return Err(DecodeError::NotAnObject),
    };
    let tag = match get_str(e, "type") {
        Some(t) => t,
        None => return Err(malformed_field("type")),
    };
    if str_eq(&tag, "Chunk") {
        match decode_common(e) {
            Ok(common) => Ok(ClientMessage::Common { common }),
            Err(x) => Err(x),
        }
    } else if str_eq(&tag, "Text") {
        match get_str(e, "text") {
            Some(text) => Ok(ClientMessage::Text { text }),
            None => Err(malformed_field("text")),
        }
    } else if str_eq(&tag, "Rename") {
        match get_str(e, "new_name") {
            Some(new_name) => Ok(ClientMessage::Rename { new_name }),
            None => Err(malformed_field("new_name")),
        }
    } else if str_eq(&tag, "RequestFileUpload") {
        let name = match get_str(e, "name") {
            Some(n) => n,
            None => return Err(malformed_field("name")),
        };
        let size = match get_uint(e, "size") {
            Some(n) => n,
            None => return Err(malformed_field("size")),
        };
        match get_uint(e, "id") {
            Some(id) => Ok(ClientMessage::RequestFileUpload { name, size, id }),
            None => Err(malformed_field("id")),
        }
    } else if str_eq(&tag, "RequestFileDownload") {
        match get_str(e, "name") {
            Some(name) => Ok(ClientMessage::RequestFileDownload { name }),
            None => Err(malformed_field("name")),
        }
    } else if str_eq(&tag, "AgreeFileDownload") {
        match get_uint(e, "id") {
            Some(id) => Ok(ClientMessage::AgreeFileDownload { id }),
            None => Err(malformed_field("id")),
        }
    } else if str_eq(&tag, "Leave") {
        Ok(ClientMessage::Leave)
    } else {
        Ok(ClientMessage::Unrecognized { tag, fields: copy_entries(e) })
    }
}

/// Reads a server message from a JSON value.
pub fn decode_server(v: &JsonValue) -> (r: Result<ServerMessage, DecodeError>)
    ensures
        match r {
            Ok(m) => server_of(v@) == Ok::<ServerModel, DecodeErrorModel>(m@),
            Err(x) => server_of(v@) == Err::<ServerModel, DecodeErrorModel>(x@),
        },
{
    let e = match v {
        JsonValue::Object(e) => e,
        JsonValue::NotObject => return Err(DecodeError::NotAnObject),
    };
    let tag = match get_str(e, "type") {
        Some(t) => t,
        None => return Err(malformed_field("type")),
    };
    if str_eq(&tag, "Chunk") {
        match decode_common(e) {
            Ok(common) => Ok(ServerMessage::Common { common }),
            Err(x) => Err(x),
        }
    } else if str_eq(&tag, "AgreeFileUpload") {
        match get_uint(e, "id") {
            Some(id) => Ok(ServerMessage::AgreeFileUpload { id }),
            None => Err(malformed_field("id")),
        }
    } else if str_eq(&tag, "DeclineFileUpload") {
        let id = match get_uint(e, "id") {
            Some(n) => n,
            None => return Err(malformed_field("id")),
        };
        match get_str(e, "reason") {
            Some(reason) => Ok(ServerMessage::DeclineFileUpload { id, reason }),
            None => Err(malformed_field("reason")),
        }
    } else if str_eq(&tag, "AgreeFileDownload") {
        let name = match get_str(e, "name") {
            Some(n) => n,
            None => return Err(malformed_field("name")),
        };
        let size = match get_uint(e, "size") {
            Some(n) => n,
            None => return Err(malformed_field("size")),
        };
        match get_uint(e, "id") {
            Some(id) => Ok(ServerMessage::AgreeFileDownload { name, size, id }),
            None => Err(malformed_field("id")),
        }
    } else if str_eq(&tag, "DeclineFileDownload") {
        let name = match get_str(e, "name") {
            Some(n) => n,
            None => return Err(malformed_field("name")),
        };
        match get_str(e, "reason") {
            Some(reason) => Ok(ServerMessage::DeclineFileDownload { name, reason }),
            None => Err(malformed_field("reason")),
        }
    } else {
        Ok(ServerMessage::Unrecognized { tag, fields: copy_entries(e) })
    }
}

} // verus!

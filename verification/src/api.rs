//! The client side of the signalling API.
use vstd::prelude::*;
use vstd::string::*;

verus! {

/// The public kinds of data room.
#[derive(Debug, Clone, Copy, PartialEq, Eq, Structural)]
pub enum DataRoomPublicType {
    Float,
    Chat,
}

/// The kinds of room that the API creates and joins.
#[derive(Debug, Clone, Copy, PartialEq, Eq, Structural)]
pub enum SteckerAPIRoomType {
    Audio,
    Data(DataRoomPublicType),
}

impl SteckerAPIRoomType {
    /// The name of the room type in the API.
    pub open spec fn spec_api_name(self) -> Seq<char> {
        match self {
            SteckerAPIRoomType::Audio => "AUDIO"@,
            SteckerAPIRoomType::Data(DataRoomPublicType::Float) => "FLOAT"@,
            SteckerAPIRoomType::Data(DataRoomPublicType::Chat) => "CHAT"@,
        }
    }

    /// The name of the room type in the API.
    pub fn api_name(&self) -> (r: String)
        ensures
            r@ == self.spec_api_name(),
    {
        match self {
            SteckerAPIRoomType::Audio => "AUDIO".to_owned(),
            SteckerAPIRoomType::Data(data_channel) => match data_channel {
                DataRoomPublicType::Float => "FLOAT".to_owned(),
                DataRoomPublicType::Chat => "CHAT".to_owned(),
            },
        }
    }
}

/// The lower case hexadecimal digit of a value below 16.
pub open spec fn hex_digit(v: int) -> char {
    if v < 10 {
        (48 + v) as char
    } else {
        (87 + v) as char
    }
}

/// How a character stands inside a JSON string: quote and backslash are
/// escaped with a backslash, backspace, tab, line feed, form feed and
/// carriage return by their short escapes, the other control characters
/// below U+0020 as `\u00` and two hexadecimal digits; everything else as it is.
pub open spec fn json_escape_char(c: char) -> Seq<char> {
    if c == '"' {
        seq!['\\', '"']
    } else if c == '\\' {
        seq!['\\', '\\']
    } else if c == '\u{8}' {
        seq!['\\', 'b']
    } else if c == '\t' {
        seq!['\\', 't']
    } else if c == '\n' {
        seq!['\\', 'n']
    } else if c == '\u{c}' {
        seq!['\\', 'f']
    } else if c == '\r' {
        seq!['\\', 'r']
    } else if (c as u32) < 32 {
        seq!['\\', 'u', '0', '0', hex_digit((c as int) / 16), hex_digit((c as int) % 16)]
    } else {
        seq![c]
    }
}

/// The characters of a string, each as it stands inside a JSON string.
pub open spec fn json_escape(s: Seq<char>) -> Seq<char>
    decreases s.len(),
{
    if s.len() == 0 {
        Seq::empty()
    } else {
        json_escape_char(s[0]) + json_escape(s.drop_first())
    }
}

/// The JSON text of a string as `serde_json` writes it: the escaped
/// characters between double quotes.
pub open spec fn spec_json_string(s: Seq<char>) -> Seq<char> {
    seq!['"'] + json_escape(s) + seq!['"']
}

/// `serde_json::to_string` on a string slice. Claimed, as its source
/// (`format_escaped_str` with the compact formatter) shows: the JSON text of
/// `s`. Serialising a string does not fail: the documented causes of an
/// error are a failing `Serialize` impl and a map with non-string keys.
#[verifier::external_body]
pub(crate) fn json_string(s: &str) -> (r: String)
    ensures
        r@ == spec_json_string(s@),
{
    serde_json::to_string(s).unwrap()
}

/// The GraphQL mutation that creates a room.
pub open spec fn create_room_mutation() -> Seq<char> {
    "\n                mutation createRoom($name: String!, $offer: String!, $roomType: RoomType!, $password: String) {\n                    createRoom(name: $name, offer: $offer, roomType: $roomType, password: $password) {\n                        offer\n                        password\n                    }\n                }\n            "@
}

/// The GraphQL mutation that joins a room.
pub open spec fn join_room_mutation() -> Seq<char> {
    "mutation joinRoom($name:String!, $offer:String!, $roomType:RoomType!) { joinRoom(name:$name, offer:$offer, roomType:$roomType) }"@
}

/// The JSON body of the request that creates a room: the mutation, and as
/// its variables the name, the offer, the password and the room type, keys
/// in alphabetical order.
pub open spec fn spec_create_room_body(
    name: Seq<char>,
    password: Seq<char>,
    room_type: SteckerAPIRoomType,
    offer: Seq<char>,
) -> Seq<char> {
    "{\"query\":"@ + spec_json_string(create_room_mutation()) + ",\"variables\":{\"name\":"@ + spec_json_string(name)
        + ",\"offer\":"@ + spec_json_string(offer) + ",\"password\":"@ + spec_json_string(password)
        + ",\"roomType\":"@ + spec_json_string(room_type.spec_api_name()) + "}}"@
}

/// The JSON body of the request that joins a room: the mutation, and as its
/// variables the name, the offer and the room type, keys in alphabetical order.
pub open spec fn spec_join_room_body(name: Seq<char>, room_type: SteckerAPIRoomType, offer: Seq<char>) -> Seq<char> {
    "{\"query\":"@ + spec_json_string(join_room_mutation()) + ",\"variables\":{\"name\":"@ + spec_json_string(name)
        + ",\"offer\":"@ + spec_json_string(offer) + ",\"roomType\":"@ + spec_json_string(room_type.spec_api_name())
        + "}}"@
}

/// The body of the request that creates the room `name` of type `room_type`
/// with the local session description `offer`; a missing password is sent as
/// the empty string.
pub fn create_room_request_body(name: &str, password: Option<&str>, room_type: &SteckerAPIRoomType, offer: &str) -> (r:
    String)
    ensures
        r@ == spec_create_room_body(
            name@,
            match password {
                Some(p) => p@,
                None => ""@,
            },
            *room_type,
            offer@,
        ),
{
    let used_password = match password {
        Some(p) => p,
        None => "",
    };
    let room_string = room_type.api_name();
    let mut body = "{\"query\":".to_owned();
    body.append(json_string("\n                mutation createRoom($name: String!, $offer: String!, $roomType: RoomType!, $password: String) {\n                    createRoom(name: $name, offer: $offer, roomType: $roomType, password: $password) {\n                        offer\n                        password\n                    }\n                }\n            ").as_str());
    body.append(",\"variables\":{\"name\":");
    body.append(json_string(name).as_str());
    body.append(",\"offer\":");
    body.append(json_string(offer).as_str());
    body.append(",\"password\":");
    body.append(json_string(used_password).as_str());
    body.append(",\"roomType\":");
    body.append(json_string(room_string.as_str()).as_str());
    body.append("}}");
    body
}

/// The body of the request that joins the room `name` of type `room_type`
/// with the local session description `offer`.
pub fn join_room_request_body(name: &str, room_type: &SteckerAPIRoomType, offer: &str) -> (r: String)
    ensures
        r@ == spec_join_room_body(name@, *room_type, offer@),
{
    let room_string = room_type.api_name();
    let mut body = "{\"query\":".to_owned();
    body.append(json_string("mutation joinRoom($name:String!, $offer:String!, $roomType:RoomType!) { joinRoom(name:$name, offer:$offer, roomType:$roomType) }").as_str());
    body.append(",\"variables\":{\"name\":");
    body.append(json_string(name).as_str());
    body.append(",\"offer\":");
    body.append(json_string(offer).as_str());
    body.append(",\"roomType\":");
    body.append(json_string(room_string.as_str()).as_str());
    body.append("}}");
    body
}

/// A client of a server's GraphQL API.
pub struct APIClient {
    graphql_url: String,
}

impl APIClient {
    /// A client of the server at `host`: its API is at `host` followed by `/graphql`.
    pub fn new(host: String) -> (r: Self)
        ensures
            r.graphql_url()@ == host@ + "/graphql"@,
    {
        APIClient { graphql_url: host.concat("/graphql") }
    }

    /// The address of the server's GraphQL API.
    pub closed spec fn graphql_url(&self) -> String {
        self.graphql_url
    }

    /// The address of the server's GraphQL API.
    pub fn url(&self) -> (r: &String)
        ensures
            r@ == self.graphql_url()@,
    {
        &self.graphql_url
    }
}

} // verus!

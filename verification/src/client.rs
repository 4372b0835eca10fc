//! The command line client: the server it talks to and the rooms it handles.
use vstd::prelude::*;
use vstd::string::*;

use crate::api::{json_string, spec_json_string};

verus! {

/// A client of a server, by the address of its API.
pub struct APIClient {
    pub host: String,
}

/// The JSON body of the client's request that creates a room: the mutation,
/// and as its variables the name and the offer, keys in alphabetical order.
pub open spec fn spec_client_create_body(name: Seq<char>, offer: Seq<char>) -> Seq<char> {
    "{\"query\":"@ + spec_json_string(
        "mutation createRoom($name:String!, $offer:String!) { createRoom(name:$name, offer:$offer) }"@,
    ) + ",\"variables\":{\"name\":"@ + spec_json_string(name) + ",\"offer\":"@ + spec_json_string(offer) + "}}"@
}

/// The JSON body of the client's request that joins a room: the mutation,
/// and as its variables the offer and the room's uuid, keys in alphabetical
/// order.
pub open spec fn spec_client_join_body(uuid: Seq<char>, offer: Seq<char>) -> Seq<char> {
    "{\"query\":"@ + spec_json_string(
        "mutation joinRoom($uuid:String!, $offer:String!) { joinRoom(roomUuid:$uuid, offer:$offer) }"@,
    ) + ",\"variables\":{\"offer\":"@ + spec_json_string(offer) + ",\"uuid\":"@ + spec_json_string(uuid) + "}}"@
}

impl APIClient {
    /// The body of the request that creates the room `name` with the local
    /// session description `offer`.
    pub fn create_room_request_body(&self, name: &str, offer: &str) -> (r: String)
        ensures
            r@ == spec_client_create_body(name@, offer@),
    {
        let mut body = "{\"query\":".to_owned();
        body.append(
            json_string(
                "mutation createRoom($name:String!, $offer:String!) { createRoom(name:$name, offer:$offer) }",
            ).as_str(),
        );
        body.append(",\"variables\":{\"name\":");
        body.append(json_string(name).as_str());
        body.append(",\"offer\":");
        body.append(json_string(offer).as_str());
        body.append("}}");
        body
    }

    /// The body of the request that joins the room with the uuid `uuid` with
    /// the local session description `offer`.
    pub fn join_room_request_body(&self, uuid: &str, offer: &str) -> (r: String)
        ensures
            r@ == spec_client_join_body(uuid@, offer@),
    {
        let mut body = "{\"query\":".to_owned();
        body.append(
            json_string(
                "mutation joinRoom($uuid:String!, $offer:String!) { joinRoom(roomUuid:$uuid, offer:$offer) }",
            ).as_str(),
        );
        body.append(",\"variables\":{\"offer\":");
        body.append(json_string(offer).as_str());
        body.append(",\"uuid\":");
        body.append(json_string(uuid).as_str());
        body.append("}}");
        body
    }
}

/// The kinds of room the command line client creates and joins.
#[derive(Debug, Clone, Copy, PartialEq, Eq, Structural)]
pub enum ClientRoomType {
    Chat,
    Float,
}

} // verus!

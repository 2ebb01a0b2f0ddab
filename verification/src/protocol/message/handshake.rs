use vstd::prelude::*;

use super::state::{empty_json, is_object, read_empty, write_empty};
use super::Message;
use crate::error::{Error, ErrorKind};
use crate::protocol::headers::{
    insert_entry, lemma_insert_keeps_consistent, Headers, HeadersView, MessageFlags, MessageType,
    Value, ValueView, MESSAGE_FLAGS, MESSAGE_TYPE, STREAM_ID,
};
use crate::protocol::json::{
    find_member, json_object, json_quote, json_string, member, push_quoted, push_text,
    object_members, string_value, utf8,
};

verus! {

/// The name of the header that holds the version of the protocol.
pub const VERSION: &'static str = ":version";

/// The name of the header that holds the kind of the payload.
pub const CONTENT_TYPE: &'static str = ":content-type";

/// The version of the protocol that is spoken.
pub const PROTOCOL_VERSION: &'static str = "0.1.0";

/// The kind of every payload.
pub const JSON_CONTENT: &'static str = "application/json";

/// A request to connect to the server.
#[derive(Debug, PartialEq, Eq)]
pub struct ConnectRequest {
    auth_token: String,
}

/// A response to a connection request.
#[derive(Debug, PartialEq, Eq)]
pub struct ConnectResponse {}

/// The payload that stands for a request to connect with the token `auth_token`.
pub open spec fn connect_json(auth_token: Seq<char>) -> Seq<u8> {
    utf8("{\"authToken\":") + json_quote(auth_token) + utf8("}")
}

/// The token of the request that the payload `text` stands for: `text` is an object whose
/// member `authToken` is a string.
pub open spec fn connect_of_json(text: Seq<u8>) -> Option<Seq<char>> {
    match json_object(text) {
        Some(members) => match member(members, "authToken"@) {
            Some(value) => json_string(value),
            None => None,
        },
        None => None,
    }
}

/// The headers of a request to connect: stream 0, type `Connect`, no flags, the version of
/// the protocol and the kind of the payload.
pub open spec fn connect_headers() -> HeadersView {
    HeadersView {
        stream_id: 0,
        message_type: MessageType::Connect,
        message_flags: 0,
        entries: insert_entry(
            insert_entry(
                seq![
                    (MESSAGE_TYPE@, ValueView::Int32(4)),
                    (MESSAGE_FLAGS@, ValueView::Int32(0)),
                    (STREAM_ID@, ValueView::Int32(0)),
                ],
                VERSION@,
                ValueView::String(PROTOCOL_VERSION@),
            ),
            CONTENT_TYPE@,
            ValueView::String(JSON_CONTENT@),
        ),
    }
}

/// The names of the two headers of a request to connect are not reserved.
pub proof fn lemma_connect_names()
    ensures
        VERSION@ != STREAM_ID@,
        VERSION@ != MESSAGE_TYPE@,
        VERSION@ != MESSAGE_FLAGS@,
        CONTENT_TYPE@ != STREAM_ID@,
        CONTENT_TYPE@ != MESSAGE_TYPE@,
        CONTENT_TYPE@ != MESSAGE_FLAGS@,
{
    reveal_strlit(":stream-id");
    reveal_strlit(":message-type");
    reveal_strlit(":message-flags");
    reveal_strlit(":version");
    reveal_strlit(":content-type");
    assert(STREAM_ID@.len() == 10);
    assert(MESSAGE_FLAGS@.len() == 14);
    assert(VERSION@.len() == 8);
    assert(MESSAGE_TYPE@[1] == 'm');
    assert(CONTENT_TYPE@[1] == 'c');
}

impl View for ConnectRequest {
    type V = Seq<char>;

    closed spec fn view(&self) -> Seq<char> {
        self.auth_token@
    }
}

impl ConnectRequest {
    /// Creates a new `ConnectRequest`.
    pub fn new(auth_token: &str) -> (r: Result<Message, Error>)
        ensures
            r matches Ok(m) && m@.headers == connect_headers() && m@.headers.consistent()
                && m@.payload == Some(connect_json(auth_token@)),
    {
        let mut headers = Headers::new(0, MessageType::Connect, MessageFlags::none());
        proof {
            lemma_connect_names();
            lemma_insert_keeps_consistent(
                headers@,
                VERSION@,
                ValueView::String(PROTOCOL_VERSION@),
            );
        }
        headers.insert(VERSION, Value::String(PROTOCOL_VERSION.to_owned()));
        proof {
            lemma_insert_keeps_consistent(
                headers@,
                CONTENT_TYPE@,
                ValueView::String(JSON_CONTENT@),
            );
        }
        headers.insert(CONTENT_TYPE, Value::String(JSON_CONTENT.to_owned()));
        let payload = ConnectRequest { auth_token: auth_token.to_owned() };
        Ok(Message::new(headers, Some(payload.to_json())))
    }

    /// The authentication token.
    pub fn auth_token(&self) -> (r: &str)
        ensures
            r@ == self@,
    {
        self.auth_token.as_str()
    }

    /// The payload that stands for the request.
    pub fn to_json(&self) -> (r: Vec<u8>)
        ensures
            r@ == connect_json(self@),
    {
        let mut out: Vec<u8> = Vec::new();
        push_text(&mut out, "{\"authToken\":");
        push_quoted(&mut out, self.auth_token.as_str());
        push_text(&mut out, "}");
        assert(out@ =~= connect_json(self@));
        out
    }

    /// The request that the payload `text` stands for.
    pub fn from_json(text: &[u8]) -> (r: Result<ConnectRequest, Error>)
        ensures
            match connect_of_json(text@) {
                Some(token) => r matches Ok(x) && x@ == token,
                None => r matches Err(e) && e@ == ErrorKind::Protocol,
            },
    {
        let members = match object_members(text) {
            Some(members) => members,
            None => {
                return Err(Error::Protocol("Invalid payload".to_owned()));
            },
        };
        let token = match find_member(&members, "authToken") {
            Some(value) => string_value(value),
            None => None,
        };
        match token {
            Some(auth_token) => Ok(ConnectRequest { auth_token }),
            None => Err(Error::Protocol("Invalid payload".to_owned())),
        }
    }
}

impl ConnectResponse {
    /// The payload that stands for the response.
    pub fn to_json(&self) -> (r: Vec<u8>)
        ensures
            r@ == empty_json(),
    {
        write_empty()
    }

    /// The response that the payload `text` stands for: `text` is an object.
    pub fn from_json(text: &[u8]) -> (r: Result<ConnectResponse, Error>)
        ensures
            r is Ok <==> is_object(text@),
            r matches Err(e) ==> e@ == ErrorKind::Protocol,
    {
        match read_empty(text) {
            Ok(()) => Ok(ConnectResponse {  }),
            Err(e) => Err(e),
        }
    }
}

} // verus!

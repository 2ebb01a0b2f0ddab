use vstd::prelude::*;

use super::{ipc_call_headers, Message};
use crate::error::{Error, ErrorKind};
use crate::lifecycle_state::LifecycleState;
use crate::protocol::json::{
    find_member, json_object, json_quote, json_string, member, push_quoted, push_text,
    object_members, string_value, utf8,
};

verus! {

/// The shape of the payload of an `UpdateState` request.
pub const UPDATE_STATE_REQUEST: &'static str = "aws.greengrass#UpdateStateRequest";

/// The name of the `UpdateState` operation.
pub const UPDATE_STATE: &'static str = "aws.greengrass#UpdateState";

/// A request to update the state of a component.
#[derive(Debug, PartialEq, Eq)]
pub struct UpdateStateRequest {
    state: LifecycleState,
}

/// A response to a state update request.
#[derive(Debug, PartialEq, Eq)]
pub struct UpdateStateResponse {}

/// The payload that stands for a request to change to `state`.
pub open spec fn update_state_json(state: LifecycleState) -> Seq<u8> {
    utf8("{\"state\":") + json_quote(state.spec_name()) + utf8("}")
}

/// The state that the payload `text` asks for: `text` is an object whose member `state` is the
/// name of a state.
pub open spec fn update_state_of_json(text: Seq<u8>) -> Option<LifecycleState> {
    match json_object(text) {
        Some(members) => match member(members, "state"@) {
            Some(value) => match json_string(value) {
                Some(name) => LifecycleState::of_name(name),
                None => None,
            },
            None => None,
        },
        None => None,
    }
}

/// The payload of a response that says nothing: an empty object.
pub open spec fn empty_json() -> Seq<u8> {
    utf8("{}")
}

/// Whether `text` can be the payload of a response that says nothing: any object.
pub open spec fn is_object(text: Seq<u8>) -> bool {
    json_object(text) is Some
}

/// Writes an empty object.
pub(crate) fn write_empty() -> (r: Vec<u8>)
    ensures
        r@ == empty_json(),
{
    let mut out: Vec<u8> = Vec::new();
    push_text(&mut out, "{}");
    assert(out@ =~= empty_json());
    out
}

/// Whether `text` is an object.
pub(crate) fn read_empty(text: &[u8]) -> (r: Result<(), Error>)
    ensures
        r is Ok <==> is_object(text@),
        r matches Err(e) ==> e@ == ErrorKind::Protocol,
{
    match object_members(text) {
        Some(_) => Ok(()),
        None => Err(Error::Protocol("Invalid payload".to_owned())),
    }
}

impl UpdateStateRequest {
    /// Creates a new `UpdateStateRequest`.
    pub fn new(stream_id: i32, state: LifecycleState) -> (r: Message)
        ensures
            r@.headers == ipc_call_headers(UPDATE_STATE_REQUEST@, UPDATE_STATE@, stream_id),
            r@.headers.consistent(),
            r@.payload == Some(update_state_json(state)),
    {
        let payload = UpdateStateRequest { state };
        Message::ipc_call(UPDATE_STATE_REQUEST, UPDATE_STATE, stream_id, Some(payload.to_json()))
    }

    /// The state that the request asks for.
    pub fn state(&self) -> (r: LifecycleState)
        ensures
            r == self@,
    {
        self.state
    }

    /// The payload that stands for the request.
    pub fn to_json(&self) -> (r: Vec<u8>)
        ensures
            r@ == update_state_json(self@),
    {
        let mut out: Vec<u8> = Vec::new();
        push_text(&mut out, "{\"state\":");
        push_quoted(&mut out, self.state.name());
        push_text(&mut out, "}");
        assert(out@ =~= update_state_json(self@));
        out
    }

    /// The request that the payload `text` stands for.
    pub fn from_json(text: &[u8]) -> (r: Result<UpdateStateRequest, Error>)
        ensures
            match update_state_of_json(text@) {
                Some(state) => r matches Ok(x) && x@ == state,
                None => r matches Err(e) && e@ == ErrorKind::Protocol,
            },
    {
        let members = match object_members(text) {
            Some(members) => members,
            None => {
                return Err(Error::Protocol("Invalid payload".to_owned()));
            },
        };
        let name = match find_member(&members, "state") {
            Some(value) => string_value(value),
            None => None,
        };
        let state = match name {
            Some(name) => LifecycleState::from_name(name.as_str()),
            None => None,
        };
        match state {
            Some(state) => Ok(UpdateStateRequest { state }),
            None => Err(Error::Protocol("Invalid payload".to_owned())),
        }
    }
}

impl View for UpdateStateRequest {
    type V = LifecycleState;

    closed spec fn view(&self) -> LifecycleState {
        self.state
    }
}

impl UpdateStateResponse {
    /// The payload that stands for the response.
    pub fn to_json(&self) -> (r: Vec<u8>)
        ensures
            r@ == empty_json(),
    {
        write_empty()
    }

    /// The response that the payload `text` stands for: `text` is an object.
    pub fn from_json(text: &[u8]) -> (r: Result<UpdateStateResponse, Error>)
        ensures
            r is Ok <==> is_object(text@),
            r matches Err(e) ==> e@ == ErrorKind::Protocol,
    {
        match read_empty(text) {
            Ok(()) => Ok(UpdateStateResponse {  }),
            Err(e) => Err(e),
        }
    }
}

} // verus!

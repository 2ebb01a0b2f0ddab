//! Messages: headers and a payload of JSON.
//!
//! The payload of a [`Message`] is the JSON text itself. A message without a payload is
//! written as a frame without payload bytes, and such a frame is read as a message without a
//! payload.

use vstd::prelude::*;
use vstd::slice::slice_to_vec;
use vstd::utf8::{decode_utf8, valid_utf8};

use crate::error::{Error, ErrorKind};
use crate::protocol::frame::{
    decode_frame, encode_frame, frame_len, lemma_corruption_detected, lemma_encoded_frame_sound,
    lemma_frame_round_trip, lemma_prelude_corruption_detected, lemma_truncated_frame,
    read_frame, sound_frame, write_frame,
};
use crate::protocol::headers::{
    headers_bytes, insert_entry, lemma_insert_keeps_consistent, Headers, HeadersView,
    MessageFlags, MessageType, Value, ValueView,
};
use crate::protocol::json::{
    check_json, json_object, json_string, json_valid, object_members, string_value,
};
use crate::protocol::prelude::{parse_prelude, PreludeView, PRELUDE_SIZE};
use crate::protocol::text::string_from_utf8;

pub mod component_update;
pub mod handshake;
pub mod state;

verus! {

/// The name of the header that names the shape of the payload.
pub const SERVICE_MODEL_TYPE: &'static str = "service-model-type";

/// The name of the header that names the operation.
pub const OPERATION: &'static str = "operation";

/// A message: headers and, where there is one, a payload of JSON text.
#[derive(Debug, Clone, PartialEq, Eq)]
pub struct Message {
    headers: Headers,
    payload: Option<Vec<u8>>,
}

/// What a [`Message`] holds.
pub struct MessageView {
    pub headers: HeadersView,
    pub payload: Option<Seq<u8>>,
}

impl View for Message {
    type V = MessageView;

    closed spec fn view(&self) -> MessageView {
        MessageView {
            headers: self.headers@,
            payload: match self.payload {
                Some(p) => Some(p@),
                None => None,
            },
        }
    }
}

/// The bytes of a payload: none where there is no payload.
pub open spec fn payload_bytes(payload: Option<Seq<u8>>) -> Seq<u8> {
    match payload {
        Some(p) => p,
        None => Seq::empty(),
    }
}

/// The frame of a message, or the error that the message calls for. A payload that is empty
/// or is no JSON value is a JSON error. Any other message is written as the frame of its
/// headers and its payload.
pub open spec fn encode_message(m: MessageView) -> Result<Seq<u8>, ErrorKind> {
    let payload = payload_bytes(m.payload);
    if m.payload is Some && !(payload.len() > 0 && json_valid(payload)) {
        Err(ErrorKind::Json)
    } else {
        encode_frame(m.headers.entries, payload)
    }
}

/// The error that a message of type `ApplicationError` stands for. An empty payload is an
/// application error without a message; a JSON string is one with that string as its message;
/// a JSON object is one with the text of the object as its message. Any other payload is a
/// protocol error.
pub open spec fn application_error(payload: Seq<u8>) -> ErrorKind {
    if payload.len() == 0 {
        ErrorKind::Application(Seq::empty())
    } else {
        match json_string(payload) {
            Some(message) => ErrorKind::Application(message),
            None => if json_object(payload) is Some && valid_utf8(payload) {
                ErrorKind::Application(decode_utf8(payload))
            } else {
                ErrorKind::Protocol
            },
        }
    }
}

/// The message of the frame that the bytes `s` begin with, or the error that they call for.
///
/// The frame is read first. A message of type `ApplicationError` is the error that it stands
/// for. A frame without payload bytes is a message without a payload. A payload that is no
/// JSON value is a protocol error.
pub open spec fn decode_message(s: Seq<u8>) -> Result<MessageView, ErrorKind> {
    match decode_frame(s) {
        Err(k) => Err(k),
        Ok((headers, payload)) => if headers.message_type == MessageType::ApplicationError {
            Err(application_error(payload))
        } else if payload.len() == 0 {
            Ok(MessageView { headers, payload: None })
        } else if json_valid(payload) {
            Ok(MessageView { headers, payload: Some(payload) })
        } else {
            Err(ErrorKind::Protocol)
        },
    }
}

/// The error of a message of type `ApplicationError` with the payload `payload`.
fn read_application_error(payload: &[u8]) -> (e: Error)
    ensures
        e@ == application_error(payload@),
{
    if payload.len() == 0 {
        return Error::Application(String::new());
    }
    match string_value(payload) {
        Some(message) => Error::Application(message),
        None => match object_members(payload) {
            Some(_) => match string_from_utf8(slice_to_vec(payload)) {
                Some(text) => Error::Application(text),
                None => Error::Protocol("Invalid payload".to_owned()),
            },
            None => Error::Protocol("Invalid payload".to_owned()),
        },
    }
}

impl Message {
    /// The message with the given headers and payload.
    pub fn new(headers: Headers, payload: Option<Vec<u8>>) -> (r: Message)
        ensures
            r@.headers == headers@,
            r@.payload == (match payload {
                Some(p) => Some(p@),
                None => None::<Seq<u8>>,
            }),
    {
        Message { headers, payload }
    }

    /// A request of an operation: an application message with no flags, whose headers name
    /// the shape of the payload and the operation.
    pub fn ipc_call(
        service_model_type: &'static str,
        operation: &'static str,
        stream_id: i32,
        payload: Option<Vec<u8>>,
    ) -> (r: Message)
        ensures
            r@.headers == ipc_call_headers(service_model_type@, operation@, stream_id),
            r@.headers.consistent(),
            r@.payload == (match payload {
                Some(p) => Some(p@),
                None => None::<Seq<u8>>,
            }),
    {
        let mut headers = Headers::new(stream_id, MessageType::Application, MessageFlags::none());
        proof {
            lemma_plain_names();
            lemma_insert_keeps_consistent(
                headers@,
                SERVICE_MODEL_TYPE@,
                ValueView::String(service_model_type@),
            );
        }
        headers.insert(SERVICE_MODEL_TYPE, Value::String(service_model_type.to_owned()));
        proof {
            lemma_insert_keeps_consistent(headers@, OPERATION@, ValueView::String(operation@));
        }
        headers.insert(OPERATION, Value::String(operation.to_owned()));
        Message::new(headers, payload)
    }

    /// The headers of the message.
    pub fn headers(&self) -> (r: &Headers)
        ensures
            r@ == self@.headers,
    {
        &self.headers
    }

    /// The payload of the message.
    pub fn payload(&self) -> (r: &Option<Vec<u8>>)
        ensures
            match *r {
                Some(p) => self@.payload == Some(p@),
                None => self@.payload is None,
            },
    {
        &self.payload
    }

    /// The frame of the message.
    pub fn to_bytes(&self) -> (r: Result<Vec<u8>, Error>)
        ensures
            match encode_message(self@) {
                Ok(frame) => r matches Ok(bytes) && bytes@ == frame,
                Err(k) => r matches Err(e) && e@ == k,
            },
    {
        match &self.payload {
            Some(payload) => {
                if payload.len() == 0 {
                    return Err(Error::Json("EOF while parsing a value".to_owned()));
                }
                match check_json(payload.as_slice()) {
                    Ok(()) => write_frame(&self.headers, payload.as_slice()),
                    Err(text) => Err(Error::Json(text)),
                }
            },
            None => {
                let empty: Vec<u8> = Vec::new();
                write_frame(&self.headers, empty.as_slice())
            },
        }
    }

    /// Reads the message of the frame that `bytes` begin with.
    ///
    /// On success the frame is taken off the front of `bytes`. On an error they stay as they
    /// were.
    pub fn from_bytes(bytes: &mut &[u8]) -> (r: Result<Message, Error>)
        ensures
            match decode_message(old(bytes)@) {
                Ok(m) => r matches Ok(x) && x@ == m && m.headers.consistent() && frame_len(
                    old(bytes)@,
                ) is Some && 0 < frame_len(old(bytes)@).unwrap() <= old(bytes)@.len()
                    && final(bytes)@ == old(bytes)@.skip(
                    frame_len(old(bytes)@).unwrap() as int,
                ),
                Err(k) => r matches Err(e) && e@ == k && final(bytes)@ == old(bytes)@,
            },
    {
        let s: &[u8] = *bytes;
        let mut cursor: &[u8] = s;
        let (headers, payload) = match read_frame(&mut cursor) {
            Ok(frame) => frame,
            Err(e) => {
                return Err(e);
            },
        };
        if headers.message_type() == MessageType::ApplicationError {
            return Err(read_application_error(payload.as_slice()));
        }
        let payload = if payload.len() == 0 {
            None
        } else {
            match check_json(payload.as_slice()) {
                Ok(()) => Some(payload),
                Err(_) => {
                    return Err(Error::Protocol("Invalid payload".to_owned()));
                },
            }
        };
        *bytes = cursor;
        Ok(Message { headers, payload })
    }

    /// A copy of the message.
    pub fn to_owned(&self) -> (r: Message)
        ensures
            r@ == self@,
    {
        Message {
            headers: self.headers.to_owned(),
            payload: match &self.payload {
                Some(p) => Some(slice_to_vec(p.as_slice())),
                None => None,
            },
        }
    }
}

/// The headers of a request of an operation.
pub open spec fn ipc_call_headers(
    service_model_type: Seq<char>,
    operation: Seq<char>,
    stream_id: i32,
) -> HeadersView {
    HeadersView {
        stream_id,
        message_type: MessageType::Application,
        message_flags: 0,
        entries: insert_entry(
            insert_entry(
                seq![
                    (crate::protocol::headers::MESSAGE_TYPE@, ValueView::Int32(0)),
                    (crate::protocol::headers::MESSAGE_FLAGS@, ValueView::Int32(0)),
                    (crate::protocol::headers::STREAM_ID@, ValueView::Int32(stream_id)),
                ],
                SERVICE_MODEL_TYPE@,
                ValueView::String(service_model_type),
            ),
            OPERATION@,
            ValueView::String(operation),
        ),
    }
}

/// The names of the two headers of a request are not reserved.
pub proof fn lemma_plain_names()
    ensures
        SERVICE_MODEL_TYPE@ != crate::protocol::headers::STREAM_ID@,
        SERVICE_MODEL_TYPE@ != crate::protocol::headers::MESSAGE_TYPE@,
        SERVICE_MODEL_TYPE@ != crate::protocol::headers::MESSAGE_FLAGS@,
        OPERATION@ != crate::protocol::headers::STREAM_ID@,
        OPERATION@ != crate::protocol::headers::MESSAGE_TYPE@,
        OPERATION@ != crate::protocol::headers::MESSAGE_FLAGS@,
        OPERATION@ != SERVICE_MODEL_TYPE@,
{
    reveal_strlit(":stream-id");
    reveal_strlit(":message-type");
    reveal_strlit(":message-flags");
    reveal_strlit("service-model-type");
    reveal_strlit("operation");
    assert(crate::protocol::headers::STREAM_ID@.len() == 10);
    assert(crate::protocol::headers::MESSAGE_TYPE@.len() == 13);
    assert(crate::protocol::headers::MESSAGE_FLAGS@.len() == 14);
    assert(SERVICE_MODEL_TYPE@.len() == 18);
    assert(OPERATION@.len() == 9);
}

/// Reading the frame of a message gives the message back, whatever follows the frame.
///
/// This holds of every message that can be written, whose headers are those of a message,
/// and whose type is not `ApplicationError`: a frame of that type is read as the error that it
/// stands for.
pub proof fn lemma_message_round_trip(m: Message, rest: Seq<u8>)
    requires
        m@.headers.consistent(),
        m@.headers.message_type != MessageType::ApplicationError,
        encode_message(m@) is Ok,
    ensures
        decode_message(encode_message(m@)->Ok_0 + rest) == Ok::<MessageView, ErrorKind>(m@),
{
    lemma_frame_round_trip(m.headers, payload_bytes(m@.payload), rest);
}

/// A message that was cut short is not read: every beginning of a frame that is shorter than
/// the frame is a protocol error.
pub proof fn lemma_truncated_message(s: Seq<u8>, k: int)
    requires
        parse_prelude(s) is Some,
        0 <= k <= s.len(),
        k < parse_prelude(s).unwrap().total_len,
    ensures
        decode_message(s.subrange(0, k)) == Err::<MessageView, ErrorKind>(ErrorKind::Protocol),
{
    lemma_truncated_frame(s, k);
}

/// A change of one byte after the prelude is noticed: where a whole frame with the right
/// checksums has one byte between its prelude and its end changed, the result is read as a
/// checksum mismatch. Every frame that a message was written as, and every frame that a
/// message was read from, is such a frame.
pub proof fn lemma_corrupted_message(s: Seq<u8>, p: PreludeView, i: int, b: u8)
    requires
        sound_frame(s, p),
        PRELUDE_SIZE <= i < p.total_len,
        b != s[i],
    ensures
        decode_message(s.update(i, b)) == Err::<MessageView, ErrorKind>(
            ErrorKind::ChecksumMismatch,
        ),
{
    lemma_corruption_detected(s, p, i, b);
}

/// A change of one byte of the prelude is noticed: where bytes that begin with a prelude have
/// one of its twelve bytes changed, the result is read as a protocol error.
pub proof fn lemma_corrupted_prelude(s: Seq<u8>, i: int, b: u8)
    requires
        parse_prelude(s) is Some,
        0 <= i < PRELUDE_SIZE,
        b != s[i],
    ensures
        decode_message(s.update(i, b)) == Err::<MessageView, ErrorKind>(ErrorKind::Protocol),
{
    lemma_prelude_corruption_detected(s, i, b);
}

/// The frame of a message is a whole frame whose checksums are right, and so are the bytes
/// that a message was read from.
pub proof fn lemma_message_frames_sound(m: Message, s: Seq<u8>, rest: Seq<u8>)
    ensures
        encode_message(m@) matches Ok(frame) ==> sound_frame(
            frame + rest,
            PreludeView {
                total_len: frame.len(),
                headers_len: headers_bytes(m@.headers.entries).len(),
            },
        ),
        decode_message(s) is Ok ==> parse_prelude(s) is Some && sound_frame(
            s,
            parse_prelude(s).unwrap(),
        ),
{
    if encode_message(m@) is Ok {
        lemma_encoded_frame_sound(m@.headers.entries, payload_bytes(m@.payload), rest);
    }
}

} // verus!

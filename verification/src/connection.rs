//! The state of a connection and what it decides.
//!
//! A connection speaks over one byte stream. This module holds everything about it but the
//! stream itself: the handshake, the stream ids, which of the frames that arrive answers a
//! request, and the buffer that frames are read through. Whoever owns the stream writes the
//! bytes that the connection hands out and hands it the bytes that arrive.

use vstd::prelude::*;
use vstd::slice::{slice_subrange, slice_to_vec};
use vstd::utf8::{decode_utf8, valid_utf8};

use crate::error::{Error, ErrorKind};
use crate::lifecycle_state::LifecycleState;
use crate::protocol::headers::{has_flag, MessageFlags, MessageType};
use crate::protocol::identifier::Uuid;
use crate::protocol::message::component_update::{
    defer_json, ComponentUpdateSubscriptionRequest, DeferComponentUpdateRequest, DeferView,
    RecheckAfterMs, DEFER_COMPONENT_UPDATE, DEFER_COMPONENT_UPDATE_REQUEST,
    SUBSCRIBE_TO_COMPONENT_UPDATES, SUBSCRIBE_TO_COMPONENT_UPDATES_REQUEST,
};
use crate::protocol::message::handshake::{connect_headers, connect_json, ConnectRequest};
use crate::protocol::message::state::{
    update_state_json, UpdateStateRequest, UPDATE_STATE, UPDATE_STATE_REQUEST,
};
use crate::protocol::frame::frame_len;
use crate::protocol::message::{
    decode_message, encode_message, ipc_call_headers, Message, MessageView,
};
use crate::protocol::prelude::{parse_prelude, Prelude};
use crate::protocol::text::string_from_utf8;

verus! {

/// The size in bytes of the buffer of a new connection.
pub const INITIAL_BUFFER_SIZE: usize = 1024;

/// The stream of the handshake.
pub const HANDSHAKE_STREAM: i32 = 0;

/// A connection to the server.
///
/// This is the low-level API to directly interact with the server. Typically you would use the
/// [`crate::IpcClient`] instead.
#[derive(Debug)]
pub struct Connection {
    next_stream_id: i32,
    buffer: Vec<u8>,
    socket_path: &'static str,
    auth_token: &'static str,
}

/// What a [`Connection`] holds.
pub struct ConnectionView {
    pub next_stream_id: i32,
    pub buffer: Seq<u8>,
    pub socket_path: Seq<char>,
    pub auth_token: Seq<char>,
}

/// What is odd about the flags of a response that is handed out all the same.
#[derive(Debug, Clone, Copy, PartialEq, Eq, Structural)]
pub enum StreamWarning {
    /// The last response of a stream does not end the stream.
    NotTerminated,
    /// A response that was not to be the last ends the stream.
    UnexpectedEnd,
}

/// What a message that arrives is to a request that waits.
#[derive(Debug, Clone, Copy, PartialEq, Eq, Structural)]
pub enum Verdict {
    /// The message belongs to another stream.
    Skip,
    /// The message is the response, with what is odd about it.
    Accept(Option<StreamWarning>),
    /// The message belongs to the stream and is of the wrong type.
    Reject { expected: MessageType, received: MessageType },
    /// The message belongs to the stream and reports an internal error of the server.
    ServerFailure,
}

/// A response, and what is odd about it.
pub type Response = (MessageView, Option<StreamWarning>);

/// The type that a response on the stream `stream_id` is to have.
pub open spec fn expected_type(stream_id: i32) -> MessageType {
    if stream_id == HANDSHAKE_STREAM {
        MessageType::ConnectAck
    } else {
        MessageType::Application
    }
}

/// What the message `m` is to a request that waits on the stream `stream_id`. A message of
/// another stream is skipped. A message of the stream is to be of the expected type; off the
/// handshake stream, one of type `InternalError` reports an internal error of the server. Off
/// the handshake stream it is odd for the last response not to end the stream, and for
/// another to end it.
pub open spec fn judge(m: MessageView, stream_id: i32, last_response: bool) -> Verdict {
    if m.headers.stream_id != stream_id {
        Verdict::Skip
    } else if m.headers.message_type != expected_type(stream_id) {
        if stream_id != HANDSHAKE_STREAM && m.headers.message_type == MessageType::InternalError {
            Verdict::ServerFailure
        } else {
            Verdict::Reject {
                expected: expected_type(stream_id),
                received: m.headers.message_type,
            }
        }
    } else {
        let terminated = has_flag(m.headers.message_flags, MessageFlags::TerminateStream);
        if stream_id != HANDSHAKE_STREAM && last_response && !terminated {
            Verdict::Accept(Some(StreamWarning::NotTerminated))
        } else if stream_id != HANDSHAKE_STREAM && !last_response && terminated {
            Verdict::Accept(Some(StreamWarning::UnexpectedEnd))
        } else {
            Verdict::Accept(None)
        }
    }
}

/// What waiting for a response on the stream `stream_id` gives when the bytes `s` arrive, and
/// the bytes that are left. Frames are read one after the other. A frame that cannot be read
/// ends the wait with its error, and is left. A message of another stream is dropped. The
/// first message of the stream ends the wait: it is the response, or an error where it is of
/// the wrong type or reports an internal error of the server. Where the bytes end before
/// that, there is no response yet.
pub open spec fn await_response(s: Seq<u8>, stream_id: i32, last_response: bool) -> (
    Result<Option<Response>, ErrorKind>,
    Seq<u8>,
)
    decreases s.len(),
{
    if s.len() == 0 {
        (Ok(None), s)
    } else {
        match (decode_message(s), frame_len(s)) {
            (Ok(m), Some(n)) => if 0 < n <= s.len() {
                match judge(m, stream_id, last_response) {
                    Verdict::Skip => await_response(s.skip(n as int), stream_id, last_response),
                    Verdict::Accept(warning) => (Ok(Some((m, warning))), s.skip(n as int)),
                    Verdict::Reject { expected, received } => (
                        Err(ErrorKind::UnexpectedMessageType { expected, received }),
                        s.skip(n as int),
                    ),
                    Verdict::ServerFailure => (Err(ErrorKind::InternalServer), s.skip(n as int)),
                }
            } else {
                (Err(ErrorKind::Protocol), s)
            },
            (Err(k), _) => (Err(k), s),
            (Ok(_), None) => (Err(ErrorKind::Protocol), s),
        }
    }
}

/// The buffer after the frame that the bytes `s` begin with was read through it. Where the
/// bytes begin with a prelude, the buffer has grown by zeros to hold the frame, where it was
/// smaller; where the bytes hold the whole frame, the buffer begins with the frame.
pub open spec fn read_through(buffer: Seq<u8>, s: Seq<u8>) -> Seq<u8> {
    match parse_prelude(s) {
        None => buffer,
        Some(p) => {
            let room = if p.total_len > buffer.len() {
                buffer + Seq::new((p.total_len - buffer.len()) as nat, |i: int| 0u8)
            } else {
                buffer
            };
            if s.len() < p.total_len {
                room
            } else {
                s.subrange(0, p.total_len as int) + room.skip(p.total_len as int)
            }
        },
    }
}

/// The buffer after waiting for a response on the stream `stream_id` when the bytes `s`
/// arrive: every frame that was read, was read through it.
pub open spec fn read_through_all(
    buffer: Seq<u8>,
    s: Seq<u8>,
    stream_id: i32,
    last_response: bool,
) -> Seq<u8>
    decreases s.len(),
{
    if s.len() == 0 {
        buffer
    } else {
        match (decode_message(s), frame_len(s)) {
            (Ok(m), Some(n)) => if 0 < n <= s.len() && judge(m, stream_id, last_response)
                == Verdict::Skip {
                read_through_all(
                    read_through(buffer, s),
                    s.skip(n as int),
                    stream_id,
                    last_response,
                )
            } else {
                read_through(buffer, s)
            },
            _ => read_through(buffer, s),
        }
    }
}

/// What checking the response to the handshake gives: nothing where the server accepted the
/// connection, a protocol error where the response is no `ConnectAck`, and a refusal where it
/// is one without the flag `ConnectionAccepted`.
pub open spec fn handshake_outcome(m: MessageView) -> Result<(), ErrorKind> {
    if m.headers.message_type != MessageType::ConnectAck {
        Err(ErrorKind::Protocol)
    } else if !has_flag(m.headers.message_flags, MessageFlags::ConnectionAccepted) {
        Err(ErrorKind::ConnectionRefused)
    } else {
        Ok(())
    }
}

impl View for Connection {
    type V = ConnectionView;

    closed spec fn view(&self) -> ConnectionView {
        ConnectionView {
            next_stream_id: self.next_stream_id,
            buffer: self.buffer@,
            socket_path: self.socket_path@,
            auth_token: self.auth_token@,
        }
    }
}

/// Copies the bytes of `src` from `from` up to `to` to the same places of `dst`.
fn copy_into(dst: &mut Vec<u8>, src: &[u8], from: usize, to: usize)
    requires
        from <= to <= src@.len(),
        to <= old(dst)@.len(),
    ensures
        final(dst)@.len() == old(dst)@.len(),
        forall|i: int|
            0 <= i < old(dst)@.len() ==> final(dst)@[i] == (if from <= i < to {
                src@[i]
            } else {
                old(dst)@[i]
            }),
{
    let mut i: usize = from;
    while i < to
        invariant
            from <= i <= to <= src@.len(),
            dst@.len() == old(dst)@.len(),
            to <= dst@.len(),
            forall|j: int|
                0 <= j < dst@.len() ==> dst@[j] == (if from <= j < i {
                    src@[j]
                } else {
                    old(dst)@[j]
                }),
        decreases to - i,
    {
        dst.set(i, src[i]);
        i += 1;
    }
}

/// The payload of a message as text: the text whose UTF-8 encoding the payload is, and the
/// empty text where there is no payload or the payload is no UTF-8.
pub open spec fn text_of_payload(payload: Option<Seq<u8>>) -> Seq<char> {
    match payload {
        Some(p) => if valid_utf8(p) {
            decode_utf8(p)
        } else {
            Seq::empty()
        },
        None => Seq::empty(),
    }
}

/// The payload of a message as text: nothing where there is none or it is no text.
fn payload_text(message: &Message) -> (r: String)
    ensures
        r@ == text_of_payload(message@.payload),
{
    match message.payload() {
        Some(payload) => match string_from_utf8(slice_to_vec(payload.as_slice())) {
            Some(text) => text,
            None => String::new(),
        },
        None => String::new(),
    }
}

impl Connection {
    /// The state of a connection that is new: the first stream id is 1, and the buffer has
    /// [`INITIAL_BUFFER_SIZE`] bytes.
    pub fn new(socket_path: &'static str, auth_token: &'static str) -> (r: Connection)
        ensures
            r@.next_stream_id == 1,
            r@.buffer == Seq::new(INITIAL_BUFFER_SIZE as nat, |i: int| 0u8),
            r@.socket_path == socket_path@,
            r@.auth_token == auth_token@,
    {
        let mut buffer: Vec<u8> = Vec::new();
        buffer.resize(INITIAL_BUFFER_SIZE, 0);
        assert(buffer@ =~= Seq::new(INITIAL_BUFFER_SIZE as nat, |i: int| 0u8));
        Connection { next_stream_id: 1, buffer, socket_path, auth_token }
    }

    /// The request that opens the handshake: a `Connect` message on stream 0 with the
    /// authentication token.
    pub fn handshake(&self) -> (r: Result<Message, Error>)
        ensures
            r matches Ok(m) && m@.headers == connect_headers() && m@.headers.consistent()
                && m@.payload == Some(connect_json(self@.auth_token)),
    {
        ConnectRequest::new(self.auth_token)
    }

    /// Checks the response to the handshake.
    pub fn check_handshake(response: &Message) -> (r: Result<(), Error>)
        ensures
            match handshake_outcome(response@) {
                Ok(_) => r is Ok,
                Err(k) => r matches Err(e) && e@ == k,
            },
    {
        let headers = response.headers();
        if headers.message_type() != MessageType::ConnectAck {
            return Err(Error::Protocol("Invalid connection response".to_owned()));
        }
        if !headers.message_flags().contains(MessageFlags::ConnectionAccepted) {
            return Err(Error::ConnectionRefused);
        }
        Ok(())
    }

    /// Takes the next stream id. The ids start at 1 and each is one more than the one
    /// before. When the ids have run out, none is taken and a protocol error is returned:
    /// the largest 32-bit integer is never handed out.
    pub fn next_stream_id(&mut self) -> (r: Result<i32, Error>)
        ensures
            match r {
                Ok(id) => takes_stream_id(old(self)@, final(self)@, id),
                Err(e) => !(1 <= old(self)@.next_stream_id < i32::MAX) && e@
                    == ErrorKind::Protocol && final(self)@ == old(self)@,
            },
    {
        let stream_id = self.next_stream_id;
        if stream_id < 1 || stream_id == i32::MAX {
            return Err(Error::Protocol("Stream ids exhausted".to_owned()));
        }
        self.next_stream_id = stream_id + 1;
        Ok(stream_id)
    }

    /// The request that subscribes to component updates, on a new stream.
    pub fn subscribe_to_component_updates(&mut self) -> (r: Result<Message, Error>)
        ensures
            match r {
                Ok(m) => takes_stream_id(old(self)@, final(self)@, m@.headers.stream_id)
                    && m@.headers == ipc_call_headers(
                    SUBSCRIBE_TO_COMPONENT_UPDATES_REQUEST@,
                    SUBSCRIBE_TO_COMPONENT_UPDATES@,
                    old(self)@.next_stream_id,
                ) && m@.headers.consistent() && m@.payload is None,
                Err(e) => !(1 <= old(self)@.next_stream_id < i32::MAX) && e@
                    == ErrorKind::Protocol && final(self)@ == old(self)@,
            },
    {
        match self.next_stream_id() {
            Ok(id) => Ok(ComponentUpdateSubscriptionRequest::new(id)),
            Err(e) => Err(e),
        }
    }

    /// The request that defers a component update, on a new stream.
    pub fn defer_component_update(
        &mut self,
        deployment_id: Uuid,
        component_name: Option<&str>,
        recheck_after_ms: RecheckAfterMs,
    ) -> (r: Result<Message, Error>)
        ensures
            match r {
                Ok(m) => takes_stream_id(old(self)@, final(self)@, m@.headers.stream_id)
                    && m@.headers == ipc_call_headers(
                    DEFER_COMPONENT_UPDATE_REQUEST@,
                    DEFER_COMPONENT_UPDATE@,
                    old(self)@.next_stream_id,
                ) && m@.headers.consistent() && m@.payload == Some(
                    defer_json(
                        DeferView {
                            deployment_id: deployment_id@,
                            message: match component_name {
                                Some(m) => Some(m@),
                                None => None,
                            },
                            recheck_after_ms,
                        },
                    ),
                ),
                Err(e) => !(1 <= old(self)@.next_stream_id < i32::MAX) && e@
                    == ErrorKind::Protocol && final(self)@ == old(self)@,
            },
    {
        match self.next_stream_id() {
            Ok(id) => Ok(
                DeferComponentUpdateRequest::new(
                    id,
                    deployment_id,
                    component_name,
                    recheck_after_ms,
                ),
            ),
            Err(e) => Err(e),
        }
    }

    /// The request that updates the state of the lifecycle, on a new stream.
    pub fn update_state(&mut self, state: LifecycleState) -> (r: Result<Message, Error>)
        ensures
            match r {
                Ok(m) => takes_stream_id(old(self)@, final(self)@, m@.headers.stream_id)
                    && m@.headers == ipc_call_headers(
                    UPDATE_STATE_REQUEST@,
                    UPDATE_STATE@,
                    old(self)@.next_stream_id,
                ) && m@.headers.consistent() && m@.payload == Some(update_state_json(state)),
                Err(e) => !(1 <= old(self)@.next_stream_id < i32::MAX) && e@
                    == ErrorKind::Protocol && final(self)@ == old(self)@,
            },
    {
        match self.next_stream_id() {
            Ok(id) => Ok(UpdateStateRequest::new(id, state)),
            Err(e) => Err(e),
        }
    }

    /// What calling a method on a service takes: the bytes to send, and the stream on which
    /// the response is to be awaited.
    pub fn call(&self, request: &Message) -> (r: Result<(Vec<u8>, i32), Error>)
        ensures
            match encode_message(request@) {
                Ok(frame) => r matches Ok((bytes, stream_id)) && bytes@ == frame && stream_id
                    == request@.headers.stream_id,
                Err(k) => r matches Err(e) && e@ == k,
            },
    {
        let stream_id = request.headers().stream_id();
        match self.send_message(request) {
            Ok(bytes) => Ok((bytes, stream_id)),
            Err(e) => Err(e),
        }
    }

    /// The bytes to send for a message: its frame.
    pub fn send_message(&self, message: &Message) -> (r: Result<Vec<u8>, Error>)
        ensures
            match encode_message(message@) {
                Ok(frame) => r matches Ok(bytes) && bytes@ == frame,
                Err(k) => r matches Err(e) && e@ == k,
            },
    {
        message.to_bytes()
    }

    /// What the message `message` is to a request that waits on the stream `stream_id`.
    pub fn check_response(message: &Message, stream_id: i32, last_response: bool) -> (r: Verdict)
        ensures
            r == judge(message@, stream_id, last_response),
    {
        let headers = message.headers();
        if headers.stream_id() != stream_id {
            return Verdict::Skip;
        }
        let message_type = headers.message_type();
        let expected_type = if stream_id == HANDSHAKE_STREAM {
            MessageType::ConnectAck
        } else {
            MessageType::Application
        };
        if message_type != expected_type {
            if stream_id != HANDSHAKE_STREAM && message_type == MessageType::InternalError {
                return Verdict::ServerFailure;
            }
            return Verdict::Reject { expected: expected_type, received: message_type };
        }
        let stream_terminated = headers.message_flags().contains(MessageFlags::TerminateStream);
        if stream_id != HANDSHAKE_STREAM {
            if last_response && !stream_terminated {
                return Verdict::Accept(Some(StreamWarning::NotTerminated));
            } else if !last_response && stream_terminated {
                return Verdict::Accept(Some(StreamWarning::UnexpectedEnd));
            }
        }
        Verdict::Accept(None)
    }

    /// Reads messages from `input` until it finds a message with the specified stream ID.
    ///
    /// Messages of other streams are dropped. Where `input` ends before a message of the
    /// stream, there is no response yet. What was read is taken off the front of `input`; a
    /// frame that cannot be read is left.
    pub fn read_response(&mut self, input: &mut &[u8], stream_id: i32, last_response: bool) -> (r:
        Result<Option<(Message, Option<StreamWarning>)>, Error>)
        ensures
            match await_response(old(input)@, stream_id, last_response).0 {
                Ok(Some((m, warning))) => r matches Ok(Some((x, w))) && x@ == m && w == warning,
                Ok(None) => r matches Ok(None),
                Err(k) => r matches Err(e) && e@ == k,
            },
            final(input)@ == await_response(old(input)@, stream_id, last_response).1,
            final(self)@ == (ConnectionView {
                buffer: read_through_all(
                    old(self)@.buffer,
                    old(input)@,
                    stream_id,
                    last_response,
                ),
                ..old(self)@
            }),
    {
        loop
            invariant
                await_response(old(input)@, stream_id, last_response) == await_response(
                    input@,
                    stream_id,
                    last_response,
                ),
                read_through_all(old(self)@.buffer, old(input)@, stream_id, last_response)
                    == read_through_all(self@.buffer, input@, stream_id, last_response),
                self@ == (ConnectionView { buffer: self@.buffer, ..old(self)@ }),
            decreases input@.len(),
        {
            if input.len() == 0 {
                return Ok(None);
            }
            let message = match self.read_message(input) {
                Ok(message) => message,
                Err(e) => {
                    return Err(e);
                },
            };
            match Connection::check_response(&message, stream_id, last_response) {
                Verdict::Skip => {},
                Verdict::Accept(warning) => {
                    return Ok(Some((message, warning)));
                },
                Verdict::Reject { expected, received } => {
                    return Err(Error::UnexpectedMessageType { expected, received });
                },
                Verdict::ServerFailure => {
                    return Err(Error::InternalServer(payload_text(&message)));
                },
            }
        }
    }

    /// Reads the message of the frame that `input` begins with, through the buffer.
    ///
    /// The buffer grows to hold the frame, where it was smaller. On success the frame is
    /// taken off the front of `input`. On an error `input` stays as it was.
    pub fn read_message(&mut self, input: &mut &[u8]) -> (r: Result<Message, Error>)
        ensures
            match decode_message(old(input)@) {
                Ok(m) => r matches Ok(x) && x@ == m && m.headers.consistent() && frame_len(
                    old(input)@,
                ) is Some && 0 < frame_len(old(input)@).unwrap() <= old(input)@.len()
                    && final(input)@ == old(input)@.skip(
                    frame_len(old(input)@).unwrap() as int,
                ),
                Err(k) => r matches Err(e) && e@ == k && final(input)@ == old(input)@,
            },
            final(self)@ == (ConnectionView {
                buffer: read_through(old(self)@.buffer, old(input)@),
                ..old(self)@
            }),
    {
        let s: &[u8] = *input;
        let mut head: &[u8] = s;
        let prelude = match Prelude::from_bytes(&mut head) {
            Ok(prelude) => prelude,
            Err(_) => {
                return Err(Error::Protocol("Invalid prelude".to_owned()));
            },
        };
        let total_len = prelude.total_len();
        let ghost before = self.buffer@;
        if total_len > self.buffer.len() {
            self.buffer.resize(total_len, 0);
            assert(self.buffer@ =~= before + Seq::new(
                (total_len - before.len()) as nat,
                |i: int| 0u8,
            ));
        }
        if s.len() < total_len {
            return Err(Error::Protocol("Invalid message: missing bytes".to_owned()));
        }
        let ghost room = self.buffer@;
        copy_into(&mut self.buffer, s, 0, total_len);
        let mut frame: &[u8] = slice_subrange(self.buffer.as_slice(), 0, total_len);
        proof {
            assert(frame@ =~= s@.subrange(0, total_len as int));
            assert(self.buffer@ =~= s@.subrange(0, total_len as int) + room.skip(
                total_len as int,
            ));
            crate::protocol::frame::lemma_decode_frame_only(s@);
        }
        match Message::from_bytes(&mut frame) {
            Ok(message) => {
                *input = slice_subrange(s, total_len, s.len());
                Ok(message)
            },
            Err(e) => Err(e),
        }
    }

    /// The path of the socket.
    pub fn socket_path(&self) -> (r: &'static str)
        ensures
            r@ == self@.socket_path,
    {
        self.socket_path
    }

    /// The authentication token.
    pub fn auth_token(&self) -> (r: &'static str)
        ensures
            r@ == self@.auth_token,
    {
        self.auth_token
    }
}

/// The response that a wait ends with belongs to the awaited stream and is of the type that
/// is expected there, whatever arrived before it; and the bytes that are left are an end of
/// the bytes that arrived.
#[verifier::rlimit(50)]
pub proof fn lemma_response_is_of_the_stream(s: Seq<u8>, stream_id: i32, last_response: bool)
    ensures
        await_response(s, stream_id, last_response).0 matches Ok(Some((m, warning)))
            ==> m.headers.stream_id == stream_id && m.headers.message_type == expected_type(
            stream_id,
        ) && judge(m, stream_id, last_response) == Verdict::Accept(warning),
        await_response(s, stream_id, last_response).1.len() <= s.len(),
        await_response(s, stream_id, last_response).1 == s.skip(
            s.len() - await_response(s, stream_id, last_response).1.len(),
        ),
    decreases s.len(),
{
    assert(s.skip(0) =~= s);
    if s.len() > 0 {
        match (decode_message(s), frame_len(s)) {
            (Ok(m), Some(n)) => {
                if 0 < n <= s.len() {
                    let rest = s.skip(n as int);
                    if judge(m, stream_id, last_response) == Verdict::Skip {
                        lemma_response_is_of_the_stream(rest, stream_id, last_response);
                        let left = await_response(rest, stream_id, last_response).1;
                        assert(rest.skip(rest.len() - left.len()) =~= s.skip(s.len() - left.len()));
                    }
                }
            },
            _ => {},
        }
    }
}

/// Stream ids never repeat and never go back: of two ids that a connection hands out one
/// after the other, the first is positive and the second is one more.
pub proof fn lemma_stream_ids_increase(
    before: ConnectionView,
    between: ConnectionView,
    after: ConnectionView,
    first: i32,
    second: i32,
)
    requires
        takes_stream_id(before, between, first),
        takes_stream_id(between, after, second),
    ensures
        1 <= first < second,
        second == first + 1,
{
}

/// Whether a connection that held `before` handed out the stream id `id` and then held
/// `after`.
pub open spec fn takes_stream_id(before: ConnectionView, after: ConnectionView, id: i32) -> bool {
    &&& 1 <= before.next_stream_id < i32::MAX
    &&& id == before.next_stream_id
    &&& after == (ConnectionView { next_stream_id: (id + 1) as i32, ..before })
}

} // verus!

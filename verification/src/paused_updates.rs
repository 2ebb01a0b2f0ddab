//! The supervisor that keeps component updates paused.
//!
//! It has a connection of its own, on which it has subscribed to component updates. Whenever
//! the server announces an update, it asks for the update to be deferred. It decides; whoever
//! owns the byte stream reads the events and sends what the supervisor hands out.

use vstd::prelude::*;

use crate::connection::{
    await_response, read_through_all, takes_stream_id, Connection, ConnectionView, StreamWarning,
};
use crate::error::{Error, ErrorKind};
use crate::protocol::message::component_update::{
    defer_json, updates_of_json, ComponentUpdateSubscriptionResponse, DeferView, RecheckAfterMs,
    DEFER_COMPONENT_UPDATE, DEFER_COMPONENT_UPDATE_REQUEST,
};
use crate::protocol::message::{ipc_call_headers, Message, MessageView};

verus! {

/// The time in milliseconds for which an update is deferred: one minute.
pub const DEFER_COMPONENT_UPDATE_TIMEOUT_MS: u64 = 60_000;

/// The supervisor: its connection, and the stream of its subscription.
#[derive(Debug)]
pub struct PausedUpdates {
    conn: Connection,
    stream_id: i32,
}

/// What a [`PausedUpdates`] holds.
pub struct PausedUpdatesView {
    pub conn: ConnectionView,
    pub stream_id: i32,
}

/// What the supervisor does next.
#[derive(Debug)]
pub enum Action {
    /// Stop: the connection is of no use any more.
    Stop,
    /// Wait for the next event.
    Continue,
    /// Send this request to defer the update, await its response, then wait for the next
    /// event.
    Defer(Message),
}

/// What an [`Action`] holds.
pub enum ActionView {
    Stop,
    Continue,
    Defer(MessageView),
}

impl View for Action {
    type V = ActionView;

    open spec fn view(&self) -> ActionView {
        match self {
            Action::Stop => ActionView::Stop,
            Action::Continue => ActionView::Continue,
            Action::Defer(m) => ActionView::Defer(m@),
        }
    }
}

impl View for PausedUpdates {
    type V = PausedUpdatesView;

    closed spec fn view(&self) -> PausedUpdatesView {
        PausedUpdatesView { conn: self.conn@, stream_id: self.stream_id }
    }
}

/// What reading an event gave, by what it holds.
pub open spec fn event_view(event: Result<Message, Error>) -> Result<MessageView, ErrorKind> {
    match event {
        Ok(m) => Ok(m@),
        Err(e) => Err(e@),
    }
}

/// The request that defers the update of the deployment `deployment_id` on the stream
/// `stream_id`: for a minute, with no message.
pub open spec fn defer_request(stream_id: i32, deployment_id: Seq<u8>) -> MessageView {
    MessageView {
        headers: ipc_call_headers(
            DEFER_COMPONENT_UPDATE_REQUEST@,
            DEFER_COMPONENT_UPDATE@,
            stream_id,
        ),
        payload: Some(
            defer_json(
                DeferView {
                    deployment_id,
                    message: None,
                    recheck_after_ms: RecheckAfterMs::Defer(DEFER_COMPONENT_UPDATE_TIMEOUT_MS),
                },
            ),
        ),
    }
}

/// What the supervisor does when reading an event gave `event`, where `next_stream_id` is the
/// next stream id of its connection.
///
/// An IO error, an internal error of the server and a protocol error stop it, and so does a
/// payload that is not what a subscription says. Any other error it lets pass. An event
/// without a payload, or without an event before an update, it lets pass. For an event before
/// an update it asks for the update to be deferred, on a new stream; where the stream ids
/// have run out it lets the event pass.
pub open spec fn supervise(
    next_stream_id: i32,
    event: Result<MessageView, ErrorKind>,
) -> ActionView {
    match event {
        Err(ErrorKind::Io) => ActionView::Stop,
        Err(ErrorKind::InternalServer) => ActionView::Stop,
        Err(ErrorKind::Protocol) => ActionView::Stop,
        Err(_) => ActionView::Continue,
        Ok(m) => match m.payload {
            None => ActionView::Continue,
            Some(payload) => match updates_of_json(payload) {
                None => ActionView::Stop,
                Some(updates) => match updates.pre_update_event {
                    None => ActionView::Continue,
                    Some(e) => if 1 <= next_stream_id < i32::MAX {
                        ActionView::Defer(defer_request(next_stream_id, e.deployment_id))
                    } else {
                        ActionView::Continue
                    },
                },
            },
        },
    }
}

impl PausedUpdates {
    /// The supervisor of the connection `conn`, which has subscribed to component updates on
    /// the stream `stream_id`.
    pub fn new(conn: Connection, stream_id: i32) -> (r: PausedUpdates)
        ensures
            r@ == (PausedUpdatesView { conn: conn@, stream_id }),
    {
        PausedUpdates { conn, stream_id }
    }

    /// The stream of the subscription.
    pub fn stream_id(&self) -> (r: i32)
        ensures
            r == self@.stream_id,
    {
        self.stream_id
    }

    /// Reads the next event of the subscription from `input`: the next message on its
    /// stream, which is not expected to end the stream.
    pub fn read_update(&mut self, input: &mut &[u8]) -> (r: Result<
        Option<(Message, Option<StreamWarning>)>,
        Error,
    >)
        ensures
            match await_response(old(input)@, old(self)@.stream_id, false).0 {
                Ok(Some((m, warning))) => r matches Ok(Some((x, w))) && x@ == m && w == warning,
                Ok(None) => r matches Ok(None),
                Err(k) => r matches Err(e) && e@ == k,
            },
            final(input)@ == await_response(old(input)@, old(self)@.stream_id, false).1,
            final(self)@.stream_id == old(self)@.stream_id,
            final(self)@.conn == (ConnectionView {
                buffer: read_through_all(
                    old(self)@.conn.buffer,
                    old(input)@,
                    old(self)@.stream_id,
                    false,
                ),
                ..old(self)@.conn
            }),
    {
        self.conn.read_response(input, self.stream_id, false)
    }

    /// Reads the response to a request to defer an update from `input`: the next message on
    /// the stream `stream_id`, which is expected to end the stream.
    pub fn read_deferred(&mut self, input: &mut &[u8], stream_id: i32) -> (r: Result<
        Option<(Message, Option<StreamWarning>)>,
        Error,
    >)
        ensures
            match await_response(old(input)@, stream_id, true).0 {
                Ok(Some((m, warning))) => r matches Ok(Some((x, w))) && x@ == m && w == warning,
                Ok(None) => r matches Ok(None),
                Err(k) => r matches Err(e) && e@ == k,
            },
            final(input)@ == await_response(old(input)@, stream_id, true).1,
            final(self)@.stream_id == old(self)@.stream_id,
            final(self)@.conn == (ConnectionView {
                buffer: read_through_all(
                    old(self)@.conn.buffer,
                    old(input)@,
                    stream_id,
                    true,
                ),
                ..old(self)@.conn
            }),
    {
        self.conn.read_response(input, stream_id, true)
    }

    /// Decides what to do when reading an event gave `event`.
    ///
    /// Only a request to defer an update takes a stream id.
    pub fn keep_paused(&mut self, event: Result<Message, Error>) -> (r: Action)
        ensures
            r@ == supervise(old(self)@.conn.next_stream_id, event_view(event)),
            final(self)@.stream_id == old(self)@.stream_id,
            match r {
                Action::Defer(m) => takes_stream_id(
                    old(self)@.conn,
                    final(self)@.conn,
                    m@.headers.stream_id,
                ),
                _ => final(self)@ == old(self)@,
            },
    {
        let update = match event {
            Ok(update) => update,
            Err(Error::Io(_)) => {
                return Action::Stop;
            },
            Err(Error::InternalServer(_)) => {
                return Action::Stop;
            },
            Err(Error::Protocol(_)) => {
                return Action::Stop;
            },
            Err(_) => {
                return Action::Continue;
            },
        };
        let response = match update.payload() {
            Some(payload) => match ComponentUpdateSubscriptionResponse::from_json(
                payload.as_slice(),
            ) {
                Ok(response) => response,
                Err(_) => {
                    return Action::Stop;
                },
            },
            None => {
                return Action::Continue;
            },
        };
        let deployment_id = match response.pre_update_event() {
            Some(e) => e.deployment_id(),
            None => {
                return Action::Continue;
            },
        };
        match self.conn.defer_component_update(
            deployment_id,
            None,
            RecheckAfterMs::Defer(DEFER_COMPONENT_UPDATE_TIMEOUT_MS),
        ) {
            Ok(request) => Action::Defer(request),
            Err(_) => Action::Continue,
        }
    }
}

} // verus!

//! The client: the primary connection, and the task that keeps component updates paused
//! while there is one.

use vstd::prelude::*;

use crate::connection::{
    await_response, read_through_all, takes_stream_id, Connection, ConnectionView, StreamWarning,
};
use crate::error::{Error, ErrorKind};
use crate::lifecycle_state::LifecycleState;
use crate::protocol::message::state::{update_state_json, UPDATE_STATE, UPDATE_STATE_REQUEST};
use crate::protocol::message::{ipc_call_headers, Message};

verus! {

/// The IPC client for interacting with the Greengrass Nucleus.
///
/// `T` is the handle of the task that keeps component updates paused: whoever runs the task
/// hands the handle in and gets it back to cancel the task.
#[derive(Debug)]
pub struct IpcClient<T> {
    conn: Connection,
    component_update_task: Option<T>,
}

/// What an [`IpcClient`] holds.
pub struct IpcClientView<T> {
    pub conn: ConnectionView,
    pub component_update_task: Option<T>,
}

impl<T> View for IpcClient<T> {
    type V = IpcClientView<T>;

    closed spec fn view(&self) -> IpcClientView<T> {
        IpcClientView { conn: self.conn@, component_update_task: self.component_update_task }
    }
}

impl<T> IpcClient<T> {
    /// Create a new IPC client on a connection whose handshake is done. Component updates
    /// are not paused.
    pub fn new(conn: Connection) -> (r: IpcClient<T>)
        ensures
            r@ == (IpcClientView::<T> { conn: conn@, component_update_task: None }),
    {
        IpcClient { conn, component_update_task: None }
    }

    /// The primary connection.
    pub fn connection(&self) -> (r: &Connection)
        ensures
            r@ == self@.conn,
    {
        &self.conn
    }

    /// Whether component updates are paused.
    pub fn is_paused(&self) -> (r: bool)
        ensures
            r == self@.component_update_task is Some,
    {
        self.component_update_task.is_some()
    }

    /// Pause component updates: `task` is the handle of the task that keeps them paused.
    ///
    /// After this call the component updates are paused until
    /// [`IpcClient::resume_component_update`] is called. Where they are paused already,
    /// nothing changes and `task` is handed back.
    pub fn pause_component_update(&mut self, task: T) -> (r: Option<T>)
        ensures
            final(self)@.conn == old(self)@.conn,
            match old(self)@.component_update_task {
                Some(running) => final(self)@.component_update_task == Some(running) && r == Some(
                    task,
                ),
                None => final(self)@.component_update_task == Some(task) && r is None,
            },
    {
        if self.component_update_task.is_some() {
            return Some(task);
        }
        self.component_update_task = Some(task);
        None
    }

    /// Resume component updates.
    ///
    /// This hands out the handle of the task that kept them paused, if there was one, for
    /// the task to be cancelled.
    pub fn resume_component_update(&mut self) -> (r: Option<T>)
        ensures
            r == old(self)@.component_update_task,
            final(self)@ == (IpcClientView::<T> { component_update_task: None, ..old(self)@ }),
    {
        self.component_update_task.take()
    }

    /// Manually update the state of the component: the request to send, on a new stream of
    /// the primary connection.
    pub fn update_state(&mut self, state: LifecycleState) -> (r: Result<Message, Error>)
        ensures
            final(self)@.component_update_task == old(self)@.component_update_task,
            match r {
                Ok(m) => takes_stream_id(old(self)@.conn, final(self)@.conn, m@.headers.stream_id)
                    && m@.headers == ipc_call_headers(
                    UPDATE_STATE_REQUEST@,
                    UPDATE_STATE@,
                    old(self)@.conn.next_stream_id,
                ) && m@.headers.consistent() && m@.payload == Some(update_state_json(state)),
                Err(e) => !(1 <= old(self)@.conn.next_stream_id < i32::MAX) && e@
                    == ErrorKind::Protocol && final(self)@.conn == old(self)@.conn,
            },
    {
        self.conn.update_state(state)
    }

    /// Reads messages from `input` until it finds the response on the stream `stream_id` of
    /// the primary connection.
    pub fn read_response(&mut self, input: &mut &[u8], stream_id: i32, last_response: bool) -> (r:
        Result<Option<(Message, Option<StreamWarning>)>, Error>)
        ensures
            match await_response(old(input)@, stream_id, last_response).0 {
                Ok(Some((m, warning))) => r matches Ok(Some((x, w))) && x@ == m && w == warning,
                Ok(None) => r matches Ok(None),
                Err(k) => r matches Err(e) && e@ == k,
            },
            final(input)@ == await_response(old(input)@, stream_id, last_response).1,
            final(self)@.component_update_task == old(self)@.component_update_task,
            final(self)@.conn == (ConnectionView {
                buffer: read_through_all(
                    old(self)@.conn.buffer,
                    old(input)@,
                    stream_id,
                    last_response,
                ),
                ..old(self)@.conn
            }),
    {
        self.conn.read_response(input, stream_id, last_response)
    }
}

} // verus!

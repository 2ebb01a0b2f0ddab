//! A client for the IPC of the AWS Greengrass Nucleus.
//!
//! Components talk to the Nucleus over a local socket, in frames with a checksum that carry
//! typed headers and a JSON payload. This crate holds the protocol: the codec of the frames,
//! the state of a connection, and the decisions of the task that keeps component updates
//! paused. It reads and writes bytes in memory; the socket belongs to whoever uses it.

mod client;
mod connection;
pub mod env;
mod error;
mod lifecycle_state;
mod paused_updates;
pub mod protocol;

pub use client::{IpcClient, IpcClientView};
pub use connection::{
    await_response, expected_type, handshake_outcome, judge, lemma_response_is_of_the_stream,
    lemma_stream_ids_increase, read_through, read_through_all, takes_stream_id, text_of_payload,
    Connection, ConnectionView, Response, StreamWarning, Verdict, HANDSHAKE_STREAM,
    INITIAL_BUFFER_SIZE,
};
pub use error::{Error, ErrorKind};
pub use lifecycle_state::{lemma_lifecycle_state_name, LifecycleState};
pub use paused_updates::{
    defer_request, event_view, supervise, Action, ActionView, PausedUpdates, PausedUpdatesView,
    DEFER_COMPONENT_UPDATE_TIMEOUT_MS,
};

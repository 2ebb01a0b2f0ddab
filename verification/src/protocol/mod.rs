//! The protocol module contains the definitions of the protocol messages and the (de)serialization
//! logic for them.

pub mod checksum;
pub mod frame;
pub mod headers;
pub mod identifier;
pub mod json;
pub mod message;
pub mod prelude;
pub mod text;
pub mod wire;

pub use headers::{BitFlags, Headers, MessageFlags, MessageType, Value};
pub use identifier::Uuid;
pub use message::component_update::{
    ComponentUpdateSubscriptionRequest, ComponentUpdateSubscriptionResponse,
    DeferComponentUpdateRequest, DeferComponentUpdateResponse, PostComponentUpdateEvent,
    PreComponentUpdateEvent, RecheckAfterMs,
};
pub use message::handshake::{ConnectRequest, ConnectResponse};
pub use message::state::{UpdateStateRequest, UpdateStateResponse};
pub use message::Message;
pub use prelude::Prelude;

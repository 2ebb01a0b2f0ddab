use vstd::prelude::*;
use vstd::std_specs::convert::TryFromSpecImpl;

use crate::error::Error;

verus! {

/// The type of a message.
#[derive(Debug, Clone, Copy, PartialEq, Eq, Structural)]
pub enum MessageType {
    /// An application message.
    Application,
    /// An application error message.
    ApplicationError,
    /// A ping message.
    Ping,
    /// A pong message.
    Pong,
    /// A connect message.
    Connect,
    /// A connect acknowledgment message.
    ConnectAck,
    /// A protocol error message.
    ProtocolError,
    /// An internal server error message.
    InternalError,
    /// The number of message types.
    Count,
}

impl MessageType {
    /// The code that stands for the type in the `:message-type` header.
    pub open spec fn spec_code(self) -> i32 {
        match self {
            MessageType::Application => 0,
            MessageType::ApplicationError => 1,
            MessageType::Ping => 2,
            MessageType::Pong => 3,
            MessageType::Connect => 4,
            MessageType::ConnectAck => 5,
            MessageType::ProtocolError => 6,
            MessageType::InternalError => 7,
            MessageType::Count => 8,
        }
    }

    /// The type that the code `code` stands for, if it stands for one.
    pub open spec fn of_code(code: i32) -> Option<MessageType> {
        if code == 0 {
            Some(MessageType::Application)
        } else if code == 1 {
            Some(MessageType::ApplicationError)
        } else if code == 2 {
            Some(MessageType::Ping)
        } else if code == 3 {
            Some(MessageType::Pong)
        } else if code == 4 {
            Some(MessageType::Connect)
        } else if code == 5 {
            Some(MessageType::ConnectAck)
        } else if code == 6 {
            Some(MessageType::ProtocolError)
        } else if code == 7 {
            Some(MessageType::InternalError)
        } else if code == 8 {
            Some(MessageType::Count)
        } else {
            None
        }
    }

    /// The name of the type, as it is written in messages for people.
    pub open spec fn spec_name(self) -> Seq<char> {
        match self {
            MessageType::Application => "Application"@,
            MessageType::ApplicationError => "ApplicationError"@,
            MessageType::Ping => "Ping"@,
            MessageType::Pong => "Pong"@,
            MessageType::Connect => "Connect"@,
            MessageType::ConnectAck => "ConnectAck"@,
            MessageType::ProtocolError => "ProtocolError"@,
            MessageType::InternalError => "InternalError"@,
            MessageType::Count => "Count"@,
        }
    }

    /// The code that stands for the type in the `:message-type` header.
    #[verifier::when_used_as_spec(spec_code)]
    pub fn code(self) -> (r: i32)
        ensures
            r == self.spec_code(),
            0 <= r <= 8,
            MessageType::of_code(r) == Some(self),
    {
        match self {
            MessageType::Application => 0,
            MessageType::ApplicationError => 1,
            MessageType::Ping => 2,
            MessageType::Pong => 3,
            MessageType::Connect => 4,
            MessageType::ConnectAck => 5,
            MessageType::ProtocolError => 6,
            MessageType::InternalError => 7,
            MessageType::Count => 8,
        }
    }

    /// The name of the type.
    pub fn to_string(&self) -> (r: String)
        ensures
            r@ == self.spec_name(),
    {
        match self {
            MessageType::Application => "Application".to_owned(),
            MessageType::ApplicationError => "ApplicationError".to_owned(),
            MessageType::Ping => "Ping".to_owned(),
            MessageType::Pong => "Pong".to_owned(),
            MessageType::Connect => "Connect".to_owned(),
            MessageType::ConnectAck => "ConnectAck".to_owned(),
            MessageType::ProtocolError => "ProtocolError".to_owned(),
            MessageType::InternalError => "InternalError".to_owned(),
            MessageType::Count => "Count".to_owned(),
        }
    }
}

/// Every type is the one that its own code stands for, and a code stands for at most one type.
pub proof fn lemma_message_type_code(t: MessageType, code: i32)
    ensures
        MessageType::of_code(t.spec_code()) == Some(t),
        MessageType::of_code(code) == Some(t) ==> code == t.spec_code(),
        MessageType::of_code(code) is Some <==> 0 <= code <= 8,
{
}

impl TryFrom<i32> for MessageType {
    type Error = Error;

    /// The type that `value` stands for; a protocol error if it stands for none.
    fn try_from(value: i32) -> (r: Result<Self, Error>)
        ensures
            match MessageType::of_code(value) {
                Some(t) => r == Ok::<MessageType, Error>(t),
                None => r matches Err(e) && e@ == crate::error::ErrorKind::Protocol,
            },
    {
        match value {
            0 => Ok(MessageType::Application),
            1 => Ok(MessageType::ApplicationError),
            2 => Ok(MessageType::Ping),
            3 => Ok(MessageType::Pong),
            4 => Ok(MessageType::Connect),
            5 => Ok(MessageType::ConnectAck),
            6 => Ok(MessageType::ProtocolError),
            7 => Ok(MessageType::InternalError),
            8 => Ok(MessageType::Count),
            _ => Err(Error::Protocol("Invalid message type".to_owned())),
        }
    }
}

impl TryFromSpecImpl<i32> for MessageType {
    open spec fn obeys_try_from_spec() -> bool {
        false
    }

    open spec fn try_from_spec(v: i32) -> Result<Self, Error> {
        arbitrary()
    }
}

impl From<MessageType> for i32 {
    fn from(value: MessageType) -> (r: i32) {
        value.code()
    }
}

impl vstd::std_specs::convert::FromSpecImpl<MessageType> for i32 {
    open spec fn obeys_from_spec() -> bool {
        true
    }

    open spec fn from_spec(v: MessageType) -> i32 {
        v.spec_code()
    }
}

} // verus!

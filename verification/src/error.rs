use vstd::prelude::*;
use vstd::std_specs::convert::FromSpecImpl;
use vstd::string::StringExecFns;

use crate::protocol::headers::MessageType;
use crate::protocol::json::decimal;

verus! {

/// The error of an operation of the operating system, as the standard library reports it.
/// Nothing is known of what it holds.
#[verifier::external_type_specification]
#[verifier::external_body]
pub struct ExIoError(std::io::Error);

/// Error type for the AWS Greengrass Nucleus IPC client.
#[derive(Debug)]
pub enum Error {
    /// An IO error occurred.
    Io(std::io::Error),
    /// A JSON error occurred: what the JSON library said of it.
    Json(String),
    /// An application error occurred.
    Application(String),
    /// A protocol error occurred.
    Protocol(String),
    /// An internal server error occurred.
    InternalServer(String),
    /// An error occurred because a message of an unexpected type was received.
    UnexpectedMessageType {
        /// The expected message type.
        expected: MessageType,
        /// The received message type.
        received: MessageType,
    },
    /// Missing header from a message.
    MissingHeader(&'static str),
    /// Buffer or string size exceeds maximum allowed size.
    BufferTooLarge {
        /// The size of the buffer or string.
        size: usize,
        /// The maximum allowed size.
        max_size: usize,
    },
    /// An environment variable was not set.
    EnvVarNotSet(&'static str),
    /// Checksum mismatch.
    ChecksumMismatch,
    /// Connection refused by the server.
    ConnectionRefused,
}

/// What an [`Error`] says, without the wording of its message.
pub enum ErrorKind {
    /// An IO error.
    Io,
    /// A JSON error.
    Json,
    /// An error that the server reported, with its message.
    Application(Seq<char>),
    /// A violation of the wire format.
    Protocol,
    /// An internal error of the server.
    InternalServer,
    /// A message of the wrong type.
    UnexpectedMessageType { expected: MessageType, received: MessageType },
    /// A reserved header that is absent or is no 32-bit integer, by its name.
    MissingHeader(Seq<char>),
    /// A field too large to be written.
    BufferTooLarge { size: nat, max_size: nat },
    /// An environment variable that is not set, by its name.
    EnvVarNotSet(Seq<char>),
    /// A frame whose checksum does not fit its bytes.
    ChecksumMismatch,
    /// A handshake that the server refused.
    ConnectionRefused,
}

impl View for Error {
    type V = ErrorKind;

    open spec fn view(&self) -> ErrorKind {
        match self {
            Error::Io(_) => ErrorKind::Io,
            Error::Json(_) => ErrorKind::Json,
            Error::Application(m) => ErrorKind::Application(m@),
            Error::Protocol(_) => ErrorKind::Protocol,
            Error::InternalServer(_) => ErrorKind::InternalServer,
            Error::UnexpectedMessageType { expected, received } => {
                ErrorKind::UnexpectedMessageType { expected: *expected, received: *received }
            },
            Error::MissingHeader(name) => ErrorKind::MissingHeader(name@),
            Error::BufferTooLarge { size, max_size } => ErrorKind::BufferTooLarge {
                size: *size as nat,
                max_size: *max_size as nat,
            },
            Error::EnvVarNotSet(name) => ErrorKind::EnvVarNotSet(name@),
            Error::ChecksumMismatch => ErrorKind::ChecksumMismatch,
            Error::ConnectionRefused => ErrorKind::ConnectionRefused,
        }
    }
}

impl From<std::io::Error> for Error {
    fn from(e: std::io::Error) -> (r: Error) {
        Error::Io(e)
    }
}

impl FromSpecImpl<std::io::Error> for Error {
    open spec fn obeys_from_spec() -> bool {
        true
    }

    open spec fn from_spec(e: std::io::Error) -> Error {
        Error::Io(e)
    }
}

/// The decimal digits of `n` as text.
pub open spec fn decimal_text(n: nat) -> Seq<char> {
    decimal(n).map_values(|b: u8| b as char)
}

/// `to_string` of the standard library on an IO error: the text that the error is shown as.
#[verifier::external_body]
fn io_error_text(e: &std::io::Error) -> (r: String) {
    e.to_string()
}

/// `to_string` of the standard library on a number: its decimal digits.
#[verifier::external_body]
fn number_text(n: usize) -> (r: String)
    ensures
        r@ == decimal_text(n as nat),
{
    n.to_string()
}

impl Error {
    /// What the error is shown as; of an IO error, what that begins with.
    pub open spec fn spec_text(&self) -> Seq<char> {
        match self {
            Error::Io(_) => "IO error: "@,
            Error::Json(e) => "JSON error: "@ + e@,
            Error::Protocol(e) => "Protocol Error: "@ + e@,
            Error::Application(e) => "Application Error: "@ + e@,
            Error::InternalServer(e) => "Internal Server Error: "@ + e@,
            Error::UnexpectedMessageType { expected, received } => "message of unexpected type (`"@
                + received.spec_name() + "`) received. Expected: `"@ + expected.spec_name() + "`"@,
            Error::MissingHeader(header) => "Missing header: `"@ + header@ + "`"@,
            Error::BufferTooLarge { size, max_size } => "Buffer or string size ("@ + decimal_text(
                *size as nat,
            ) + ") exceeds maximum allowed size ("@ + decimal_text(*max_size as nat) + ")"@,
            Error::EnvVarNotSet(var) => "Environment variable `"@ + var@ + "` not set"@,
            Error::ChecksumMismatch => "Checksum mismatch"@,
            Error::ConnectionRefused => "Connection refused by the server"@,
        }
    }

    /// The error in words. An IO error is shown as `IO error: ` and what the operating
    /// system says of it.
    pub fn to_string(&self) -> (r: String)
        ensures
            match self {
                Error::Io(_) => r@.len() >= self.spec_text().len() && r@.subrange(
                    0,
                    self.spec_text().len() as int,
                ) == self.spec_text(),
                _ => r@ == self.spec_text(),
            },
    {
        match self {
            Error::Io(e) => {
                let mut text = "IO error: ".to_owned();
                let ghost head = text@;
                let tail = io_error_text(e);
                text.append(tail.as_str());
                assert(text@.subrange(0, head.len() as int) =~= head);
                text
            },
            Error::Json(e) => {
                let mut text = "JSON error: ".to_owned();
                text.append(e.as_str());
                text
            },
            Error::Protocol(e) => {
                let mut text = "Protocol Error: ".to_owned();
                text.append(e.as_str());
                text
            },
            Error::Application(e) => {
                let mut text = "Application Error: ".to_owned();
                text.append(e.as_str());
                text
            },
            Error::InternalServer(e) => {
                let mut text = "Internal Server Error: ".to_owned();
                text.append(e.as_str());
                text
            },
            Error::UnexpectedMessageType { expected, received } => {
                let mut text = "message of unexpected type (`".to_owned();
                text.append(received.to_string().as_str());
                text.append("`) received. Expected: `");
                text.append(expected.to_string().as_str());
                text.append("`");
                text
            },
            Error::MissingHeader(header) => {
                let mut text = "Missing header: `".to_owned();
                text.append(header);
                text.append("`");
                text
            },
            Error::BufferTooLarge { size, max_size } => {
                let mut text = "Buffer or string size (".to_owned();
                text.append(number_text(*size).as_str());
                text.append(") exceeds maximum allowed size (");
                text.append(number_text(*max_size).as_str());
                text.append(")");
                text
            },
            Error::EnvVarNotSet(var) => {
                let mut text = "Environment variable `".to_owned();
                text.append(var);
                text.append("` not set");
                text
            },
            Error::ChecksumMismatch => "Checksum mismatch".to_owned(),
            Error::ConnectionRefused => "Connection refused by the server".to_owned(),
        }
    }
}

} // verus!

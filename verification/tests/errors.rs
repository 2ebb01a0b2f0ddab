use greengrass_sdk_rs::env::{AUTH_TOKEN_ENV, SOCKET_PATH_ENV};
use greengrass_sdk_rs::protocol::headers::MessageType;
use greengrass_sdk_rs::Error;

#[test]
fn errors_are_shown_in_words() {
    let io = std::io::Error::new(std::io::ErrorKind::Other, "pipe closed");
    assert_eq!(Error::from(io).to_string(), "IO error: pipe closed");
    assert_eq!(Error::Json("EOF".to_string()).to_string(), "JSON error: EOF");
    assert_eq!(Error::Protocol("bad".to_string()).to_string(), "Protocol Error: bad");
    assert_eq!(Error::Application("no".to_string()).to_string(), "Application Error: no");
    assert_eq!(
        Error::InternalServer("down".to_string()).to_string(),
        "Internal Server Error: down"
    );
    assert_eq!(
        Error::UnexpectedMessageType {
            expected: MessageType::Application,
            received: MessageType::ConnectAck
        }
        .to_string(),
        "message of unexpected type (`ConnectAck`) received. Expected: `Application`"
    );
    assert_eq!(Error::MissingHeader(":stream-id").to_string(), "Missing header: `:stream-id`");
    assert_eq!(
        Error::BufferTooLarge { size: 65536, max_size: 65535 }.to_string(),
        "Buffer or string size (65536) exceeds maximum allowed size (65535)"
    );
    assert_eq!(
        Error::BufferTooLarge { size: 0, max_size: 10 }.to_string(),
        "Buffer or string size (0) exceeds maximum allowed size (10)"
    );
    assert_eq!(
        Error::EnvVarNotSet(AUTH_TOKEN_ENV).to_string(),
        "Environment variable `SVCUID` not set"
    );
    assert_eq!(Error::ChecksumMismatch.to_string(), "Checksum mismatch");
    assert_eq!(Error::ConnectionRefused.to_string(), "Connection refused by the server");
}

#[test]
fn environment_variables_have_their_names() {
    assert_eq!(SOCKET_PATH_ENV, "AWS_GG_NUCLEUS_DOMAIN_SOCKET_FILEPATH_FOR_COMPONENT");
    assert_eq!(AUTH_TOKEN_ENV, "SVCUID");
}

#[test]
fn io_errors_become_errors() {
    let io = std::io::Error::new(std::io::ErrorKind::BrokenPipe, "gone");
    match Error::from(io) {
        Error::Io(e) => assert_eq!(e.kind(), std::io::ErrorKind::BrokenPipe),
        other => panic!("unexpected error: {other:?}"),
    }
}

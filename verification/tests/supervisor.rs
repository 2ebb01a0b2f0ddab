use greengrass_sdk_rs::protocol::headers::{Headers, MessageFlags, MessageType, Value};
use greengrass_sdk_rs::protocol::identifier::Uuid;
use greengrass_sdk_rs::protocol::message::component_update::{
    ComponentUpdateSubscriptionResponse, DeferComponentUpdateRequest, PostComponentUpdateEvent,
    PreComponentUpdateEvent, RecheckAfterMs,
};
use greengrass_sdk_rs::protocol::message::Message;
use greengrass_sdk_rs::{
    Action, Connection, Error, PausedUpdates, DEFER_COMPONENT_UPDATE_TIMEOUT_MS,
};

/// A supervisor whose connection has subscribed on stream 1.
fn supervisor() -> PausedUpdates {
    let mut conn = Connection::new("/run/ipc.socket", "whatever");
    let request = conn.subscribe_to_component_updates().unwrap();
    PausedUpdates::new(conn, request.headers().stream_id())
}

/// An event of the subscription on stream 1 with the given payload.
fn event(payload: Option<Vec<u8>>) -> Message {
    Message::new(Headers::new(1, MessageType::Application, MessageFlags::none()), payload)
}

#[test]
fn defer_a_pre_update_event() {
    let mut supervisor = supervisor();
    assert_eq!(supervisor.stream_id(), 1);
    let id = Uuid::parse_str("77d00c6b-f0c6-4e14-86cb-d476f0016044").unwrap();
    let update = ComponentUpdateSubscriptionResponse::new(
        Some(PreComponentUpdateEvent::new(id, false)),
        None,
    );
    let frame = event(Some(update.to_json())).to_bytes().unwrap();
    let mut input = &frame[..];
    let (message, warning) = supervisor.read_update(&mut input).unwrap().unwrap();
    assert_eq!(warning, None);

    let request = match supervisor.keep_paused(Ok(message)) {
        Action::Defer(request) => request,
        other => panic!("unexpected action: {other:?}"),
    };
    assert_eq!(request.headers().stream_id(), 2);
    assert_eq!(request.headers().message_type(), MessageType::Application);
    assert!(request.headers().message_flags().is_empty());
    assert_eq!(
        request.headers().get("operation"),
        Some(&Value::String("aws.greengrass#DeferComponentUpdate".to_string()))
    );
    assert_eq!(
        request.payload().as_ref().unwrap(),
        b"{\"deploymentId\":\"77d00c6b-f0c6-4e14-86cb-d476f0016044\",\"recheckAfterMs\":60000}"
    );
    let sent = Message::from_bytes(&mut &request.to_bytes().unwrap()[..]).unwrap();
    let decoded = DeferComponentUpdateRequest::from_json(sent.payload().as_ref().unwrap()).unwrap();
    assert_eq!(decoded.deployment_id(), id);
    assert_eq!(decoded.component_name(), None);
    assert_eq!(decoded.recheck_after_ms(), RecheckAfterMs::Defer(60_000));
    assert_eq!(DEFER_COMPONENT_UPDATE_TIMEOUT_MS, 60_000);

    // The response of the server ends the stream of the request.
    let answer = Message::new(
        Headers::new(2, MessageType::Application, MessageFlags::TerminateStream.into()),
        Some(b"{}".to_vec()),
    )
    .to_bytes()
    .unwrap();
    let mut input = &answer[..];
    let (response, warning) = supervisor.read_deferred(&mut input, 2).unwrap().unwrap();
    assert_eq!(response.headers().stream_id(), 2);
    assert_eq!(warning, None);
    assert!(input.is_empty());

    // The next deferral takes the next stream.
    let again = match supervisor.keep_paused(Ok(event(Some(update.to_json())))) {
        Action::Defer(request) => request,
        other => panic!("unexpected action: {other:?}"),
    };
    assert_eq!(again.headers().stream_id(), 3);
}

#[test]
fn post_update_event_ignored() {
    let mut supervisor = supervisor();
    let id = Uuid::parse_str("8f55775e-8db1-4b82-a548-1916f7b361fb").unwrap();
    let update =
        ComponentUpdateSubscriptionResponse::new(None, Some(PostComponentUpdateEvent::new(id)));
    assert!(matches!(supervisor.keep_paused(Ok(event(Some(update.to_json())))), Action::Continue));
    // No stream id was taken: the next request is the first after the subscription.
    let pre = ComponentUpdateSubscriptionResponse::new(
        Some(PreComponentUpdateEvent::new(id, true)),
        None,
    );
    match supervisor.keep_paused(Ok(event(Some(pre.to_json())))) {
        Action::Defer(request) => assert_eq!(request.headers().stream_id(), 2),
        other => panic!("unexpected action: {other:?}"),
    }
}

#[test]
fn events_without_a_pre_update_event_are_let_pass() {
    let mut supervisor = supervisor();
    assert!(matches!(supervisor.keep_paused(Ok(event(None))), Action::Continue));
    assert!(matches!(supervisor.keep_paused(Ok(event(Some(b"{}".to_vec())))), Action::Continue));
    assert!(matches!(
        supervisor.keep_paused(Ok(event(Some(b"{\"preUpdateEvent\":null}".to_vec())))),
        Action::Continue
    ));
}

#[test]
fn a_payload_that_is_no_update_stops_the_supervisor() {
    let mut supervisor = supervisor();
    assert!(matches!(supervisor.keep_paused(Ok(event(Some(b"[]".to_vec())))), Action::Stop));
    assert!(matches!(
        supervisor.keep_paused(Ok(event(Some(b"{\"preUpdateEvent\":{}}".to_vec())))),
        Action::Stop
    ));
}

#[test]
fn errors_stop_the_supervisor_or_are_let_pass() {
    let mut supervisor = supervisor();
    let io = std::io::Error::new(std::io::ErrorKind::UnexpectedEof, "closed");
    assert!(matches!(supervisor.keep_paused(Err(Error::from(io))), Action::Stop));
    assert!(matches!(
        supervisor.keep_paused(Err(Error::InternalServer("down".to_string()))),
        Action::Stop
    ));
    assert!(matches!(
        supervisor.keep_paused(Err(Error::Protocol("bad".to_string()))),
        Action::Stop
    ));
    let passing = vec![
        Error::Application("denied".to_string()),
        Error::Json("bad".to_string()),
        Error::UnexpectedMessageType {
            expected: MessageType::Application,
            received: MessageType::Ping,
        },
        Error::MissingHeader(":stream-id"),
        Error::BufferTooLarge { size: 2, max_size: 1 },
        Error::EnvVarNotSet("SVCUID"),
        Error::ChecksumMismatch,
        Error::ConnectionRefused,
    ];
    for error in passing {
        assert!(matches!(supervisor.keep_paused(Err(error)), Action::Continue));
    }
}

#[test]
fn an_internal_error_on_the_subscription_stops_the_supervisor() {
    let mut supervisor = supervisor();
    let frame =
        Message::new(Headers::new(1, MessageType::InternalError, MessageFlags::none()), None)
            .to_bytes()
            .unwrap();
    let result = supervisor.read_update(&mut &frame[..]).map(|found| found.unwrap().0);
    assert!(matches!(&result, Err(Error::InternalServer(message)) if message.is_empty()));
    assert!(matches!(supervisor.keep_paused(result), Action::Stop));
}

#[test]
fn an_error_from_the_subscription_read_reaches_the_supervisor() {
    let mut supervisor = supervisor();
    let mut frame = event(Some(b"{}".to_vec())).to_bytes().unwrap();
    let last = frame.len() - 1;
    frame[last] ^= 1;
    let mut input = &frame[..];
    let result = supervisor.read_update(&mut input).map(|found| found.unwrap().0);
    assert!(matches!(result, Err(Error::ChecksumMismatch)));
    assert!(matches!(supervisor.keep_paused(result), Action::Continue));

    let mut input = &frame[..10];
    let result = supervisor.read_update(&mut input).map(|found| found.unwrap().0);
    assert!(matches!(result, Err(Error::Protocol(_))));
    assert!(matches!(supervisor.keep_paused(result), Action::Stop));
}

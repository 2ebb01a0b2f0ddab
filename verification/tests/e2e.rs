use greengrass_sdk_rs::protocol::{
    BitFlags, ComponentUpdateSubscriptionRequest, ComponentUpdateSubscriptionResponse,
    ConnectRequest, ConnectResponse, DeferComponentUpdateRequest, DeferComponentUpdateResponse,
    Headers, Message, MessageFlags, MessageType, PreComponentUpdateEvent, RecheckAfterMs,
    UpdateStateRequest, UpdateStateResponse, Uuid,
};
use greengrass_sdk_rs::{Action, Connection, IpcClient, LifecycleState, PausedUpdates};

/// What the mock server does with a request: it checks the request and hands out the bytes
/// of its response.
fn mock_greengrass_server_response(
    request_bytes: &[u8],
    stream_id: i32,
    request_message_type: MessageType,
    request_message_flags: BitFlags,
    request_payload: &Option<Vec<u8>>,
    response_bytes: &[u8],
) -> Vec<u8> {
    let mut input = request_bytes;
    let msg = Message::from_bytes(&mut input).unwrap();
    assert!(input.is_empty());
    assert_eq!(msg.headers().message_type(), request_message_type);
    assert_eq!(msg.headers().message_flags(), request_message_flags);
    assert_eq!(msg.headers().stream_id(), stream_id);
    assert_eq!(msg.payload(), request_payload);
    response_bytes.to_vec()
}

/// The handshake of a new connection with the mock server.
fn connect() -> Connection {
    let mut conn = Connection::new("/tmp/greengrass-sdk-rs", "whatever");
    let (request_bytes, stream_id) = conn.call(&conn.handshake().unwrap()).unwrap();
    let response_headers =
        Headers::new(0, MessageType::ConnectAck, MessageFlags::ConnectionAccepted.into());
    let response = Message::new(response_headers, None);
    let response_bytes = mock_greengrass_server_response(
        &request_bytes,
        0,
        MessageType::Connect,
        MessageFlags::none(),
        ConnectRequest::new("whatever").unwrap().payload(),
        &response.to_bytes().unwrap(),
    );
    let (response, _) =
        conn.read_response(&mut &response_bytes[..], stream_id, true).unwrap().unwrap();
    Connection::check_handshake(&response).unwrap();
    assert!(response.payload().is_none());
    conn
}

#[test]
fn test_ipc_client() {
    let mut client: IpcClient<u32> = IpcClient::new(connect());

    // Receive set component state request.
    let request = client.update_state(LifecycleState::Running).unwrap();
    let response_headers =
        Headers::new(1, MessageType::Application, MessageFlags::TerminateStream.into());
    let response = Message::new(response_headers, Some(UpdateStateResponse {}.to_json()));
    let response_bytes = mock_greengrass_server_response(
        &request.to_bytes().unwrap(),
        1,
        MessageType::Application,
        MessageFlags::none(),
        UpdateStateRequest::new(1, LifecycleState::Running).payload(),
        &response.to_bytes().unwrap(),
    );
    let (response, warning) =
        client.read_response(&mut &response_bytes[..], 1, true).unwrap().unwrap();
    assert_eq!(warning, None);
    UpdateStateResponse::from_json(response.payload().as_ref().unwrap()).unwrap();

    // Component update subscription is received from a second connection.
    assert!(!client.is_paused());
    let mut conn = connect();
    let request = conn.subscribe_to_component_updates().unwrap();
    let response_headers = Headers::new(1, MessageType::Application, MessageFlags::none());
    let response = Message::new(
        response_headers.to_owned(),
        Some(ComponentUpdateSubscriptionResponse::new(None, None).to_json()),
    );
    let response_bytes = mock_greengrass_server_response(
        &request.to_bytes().unwrap(),
        1,
        MessageType::Application,
        MessageFlags::none(),
        ComponentUpdateSubscriptionRequest::new(1).payload(),
        &response.to_bytes().unwrap(),
    );
    let (_, warning) = conn.read_response(&mut &response_bytes[..], 1, false).unwrap().unwrap();
    assert_eq!(warning, None);
    let mut paused_updates = PausedUpdates::new(conn, request.headers().stream_id());
    assert_eq!(client.pause_component_update(1), None);

    // Now send out a component pre-update event.
    let deployment_id = Uuid::parse_str("77d00c6b-f0c6-4e14-86cb-d476f0016044").unwrap();
    let pre_update_event = PreComponentUpdateEvent::new(deployment_id, false);
    let response = Message::new(
        response_headers,
        Some(ComponentUpdateSubscriptionResponse::new(Some(pre_update_event), None).to_json()),
    );
    let event_bytes = response.to_bytes().unwrap();
    let update = paused_updates.read_update(&mut &event_bytes[..]).map(|found| found.unwrap().0);
    let request = match paused_updates.keep_paused(update) {
        Action::Defer(request) => request,
        other => panic!("unexpected action: {other:?}"),
    };

    // Now receive a defer component update request and respond with success.
    let response_headers =
        Headers::new(2, MessageType::Application, MessageFlags::TerminateStream.into());
    let request_bytes = request.to_bytes().unwrap();
    let msg = Message::from_bytes(&mut &request_bytes[..]).unwrap();
    assert_eq!(msg.headers().message_type(), MessageType::Application);
    assert_eq!(msg.headers().message_flags(), MessageFlags::none());
    assert_eq!(msg.headers().stream_id(), 2);
    let request = DeferComponentUpdateRequest::from_json(msg.payload().as_ref().unwrap()).unwrap();
    assert_eq!(request.deployment_id(), deployment_id);
    assert_eq!(request.component_name(), None);
    assert_eq!(request.recheck_after_ms(), RecheckAfterMs::Defer(60_000));

    let response = Message::new(response_headers, Some(DeferComponentUpdateResponse {}.to_json()));
    let response_bytes = response.to_bytes().unwrap();
    let (response, warning) =
        paused_updates.read_deferred(&mut &response_bytes[..], 2).unwrap().unwrap();
    assert_eq!(warning, None);
    DeferComponentUpdateResponse::from_json(response.payload().as_ref().unwrap()).unwrap();
    ConnectResponse::from_json(b"{}").unwrap();

    assert_eq!(client.resume_component_update(), Some(1));
    assert!(!client.is_paused());
}

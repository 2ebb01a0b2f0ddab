use greengrass_sdk_rs::protocol::headers::{MessageType, Value};
use greengrass_sdk_rs::protocol::identifier::Uuid;
use greengrass_sdk_rs::protocol::json::{find_member, is_null, read_bool, read_u64, write_decimal};
use greengrass_sdk_rs::protocol::message::component_update::{
    ComponentUpdateSubscriptionRequest, ComponentUpdateSubscriptionResponse,
    DeferComponentUpdateRequest, DeferComponentUpdateResponse, PostComponentUpdateEvent,
    PreComponentUpdateEvent, RecheckAfterMs,
};
use greengrass_sdk_rs::protocol::message::handshake::{ConnectRequest, ConnectResponse};
use greengrass_sdk_rs::protocol::message::state::{UpdateStateRequest, UpdateStateResponse};
use greengrass_sdk_rs::protocol::text::{same_bytes, same_text};
use greengrass_sdk_rs::{Error, LifecycleState};

const DEPLOYMENT: &str = "77d00c6b-f0c6-4e14-86cb-d476f0016044";

#[test]
fn uuids_are_read_and_written_as_text() {
    let uuid = Uuid::parse_str(DEPLOYMENT).unwrap();
    assert_eq!(
        uuid.as_bytes(),
        &[
            0x77, 0xd0, 0x0c, 0x6b, 0xf0, 0xc6, 0x4e, 0x14, 0x86, 0xcb, 0xd4, 0x76, 0xf0, 0x01,
            0x60, 0x44
        ]
    );
    assert_eq!(uuid.to_string(), DEPLOYMENT);
    assert_eq!(Uuid::parse_str("77D00C6BF0C64E1486CBD476F0016044"), Some(uuid));
    assert_eq!(Uuid::parse_str("{77d00c6b-f0c6-4e14-86cb-d476f0016044}"), Some(uuid));
    assert_eq!(Uuid::parse_str("77d00c6b-f0c6-4e14-86cb-d476f001604"), None);
    assert_eq!(Uuid::parse_str("not a uuid"), None);
    assert_eq!(Uuid::from_slice(uuid.as_bytes()), Some(uuid));
    assert_eq!(Uuid::from_slice(&[0; 15]), None);
    assert_eq!(Uuid::from_slice(&[0; 17]), None);
    assert_eq!(Uuid::from_bytes([0; 16]).to_string(), "00000000-0000-0000-0000-000000000000");
    assert_eq!(
        Uuid::parse_str(DEPLOYMENT).unwrap().to_string(),
        uuid::Uuid::parse_str(DEPLOYMENT).unwrap().hyphenated().to_string()
    );
}

#[test]
fn texts_and_bytes_are_compared() {
    assert!(same_text("", ""));
    assert!(same_text(":stream-id", ":stream-id"));
    assert!(!same_text(":stream-id", ":stream-iD"));
    assert!(!same_text("a", "ab"));
    assert!(same_bytes(&[1, 2], &[1, 2]));
    assert!(!same_bytes(&[1, 2], &[1, 3]));
    assert!(!same_bytes(&[], &[0]));
}

#[test]
fn json_strings_are_quoted_and_read() {
    let token = "a \"b\"\n\\ \u{e9} \u{1}";
    let message = ConnectRequest::new(token).unwrap();
    let payload = message.payload().as_ref().unwrap();
    assert_eq!(payload, "{\"authToken\":\"a \\\"b\\\"\\n\\\\ \u{e9} \\u0001\"}".as_bytes());
    assert_eq!(ConnectRequest::from_json(payload).unwrap().auth_token(), token);
    let read = |text: &[u8]| ConnectRequest::from_json(text).map(|r| r.auth_token().to_string());
    assert_eq!(read(b"{\"authToken\":\"a \\\"b\\\"\\n\\u00e9\"}").unwrap(), "a \"b\"\n\u{e9}");
    assert_eq!(read(b"{\"authToken\": \"padded\" }").unwrap(), "padded");
    assert_eq!(read(b"{\"authToken\":\"\"}").unwrap(), "");
    assert!(matches!(read(b"{\"authToken\":plain}"), Err(Error::Protocol(_))));
    assert!(matches!(read(b"{\"authToken\":12}"), Err(Error::Protocol(_))));
    assert!(matches!(read(b"{\"authToken\":[\"a\"]}"), Err(Error::Protocol(_))));
    assert!(matches!(read(b"{\"authToken\":null}"), Err(Error::Protocol(_))));
}

#[test]
fn json_objects_give_their_members_as_they_stand() {
    // The members of an object are found by name, whatever their order and whatever stands
    // between them, and each is read from its own text.
    let text = b" { \"postUpdateEvent\" : { \"more\": [1, {\"x\": null}], \"deploymentId\" :\"8f55775e-8db1-4b82-a548-1916f7b361fb\" } , \"a\":\"s\", \"preUpdateEvent\": {\"isGgcRestarting\":true,\"deploymentId\":\"77d00c6b-f0c6-4e14-86cb-d476f0016044\"} } ";
    let response = ComponentUpdateSubscriptionResponse::from_json(text).unwrap();
    assert_eq!(
        response.pre_update_event().unwrap().deployment_id(),
        Uuid::parse_str(DEPLOYMENT).unwrap()
    );
    assert!(response.pre_update_event().unwrap().is_ggc_restarting());
    assert_eq!(
        response.post_update_event().unwrap().deployment_id(),
        Uuid::parse_str("8f55775e-8db1-4b82-a548-1916f7b361fb").unwrap()
    );
    // A truth value is read from the word alone.
    assert!(matches!(
        PreComponentUpdateEvent::from_json(
            b"{ \"deploymentId\": \"77d00c6b-f0c6-4e14-86cb-d476f0016044\", \"isGgcRestarting\" :  false  }"
        ),
        Ok(event) if !event.is_ggc_restarting()
    ));

    let members = vec![
        ("a".to_string(), b"\"s\"".to_vec()),
        ("b".to_string(), b"[1]".to_vec()),
        ("a".to_string(), b"2".to_vec()),
    ];
    assert_eq!(find_member(&members, "a"), Some(&b"\"s\""[..]));
    assert_eq!(find_member(&members, "b"), Some(&b"[1]"[..]));
    assert_eq!(find_member(&members, "c"), None);
    assert_eq!(find_member(&Vec::new(), "a"), None);
}

#[test]
fn json_numbers_and_words_are_read_and_written() {
    for (n, text) in [
        (0u64, "0"),
        (7, "7"),
        (10, "10"),
        (60_000, "60000"),
        (u64::MAX, "18446744073709551615"),
    ] {
        let mut out = b"<".to_vec();
        write_decimal(n, &mut out);
        assert_eq!(&out[1..], text.as_bytes());
        assert_eq!(read_u64(text.as_bytes()), Some(n));
        assert_eq!(serde_json::to_vec(&n).unwrap(), text.as_bytes());
    }
    for text in ["", "01", "00", "-1", "+1", "1.0", "1e3", " 1", "18446744073709551616", "x"] {
        assert_eq!(read_u64(text.as_bytes()), None, "{text:?}");
    }
    assert_eq!(read_bool(b"true"), Some(true));
    assert_eq!(read_bool(b"false"), Some(false));
    assert_eq!(read_bool(b"True"), None);
    assert_eq!(read_bool(b"1"), None);
    assert!(is_null(b"null"));
    assert!(!is_null(b"nul"));
    assert!(!is_null(b"\"null\""));
}

#[test]
fn lifecycle_states_have_their_serialized_names() {
    assert_eq!(LifecycleState::Running.name(), "RUNNING");
    assert_eq!(LifecycleState::Errored.name(), "ERRORED");
    assert_eq!(LifecycleState::from_name("RUNNING"), Some(LifecycleState::Running));
    assert_eq!(LifecycleState::from_name("ERRORED"), Some(LifecycleState::Errored));
    assert_eq!(LifecycleState::from_name("running"), None);
}

#[test]
fn recheck_after_ms_is_zero_or_a_delay() {
    assert_eq!(RecheckAfterMs::DontDefer.millis(), 0);
    assert_eq!(RecheckAfterMs::Defer(60_000).millis(), 60_000);
    assert_eq!(RecheckAfterMs::from_millis(0), RecheckAfterMs::DontDefer);
    assert_eq!(RecheckAfterMs::from_millis(1), RecheckAfterMs::Defer(1));
}

#[test]
fn connect_request_has_the_handshake_headers_and_the_token() {
    let message = ConnectRequest::new("SECRET-REDACTED").unwrap();
    let headers = message.headers();
    assert_eq!(headers.stream_id(), 0);
    assert_eq!(headers.message_type(), MessageType::Connect);
    assert!(headers.message_flags().is_empty());
    assert_eq!(headers.get(":version"), Some(&Value::String("0.1.0".to_string())));
    assert_eq!(headers.get(":content-type"), Some(&Value::String("application/json".to_string())));
    assert_eq!(headers.iter().len(), 5);
    let payload = message.payload().as_ref().unwrap();
    assert_eq!(payload, b"{\"authToken\":\"SECRET-REDACTED\"}");
    let request = ConnectRequest::from_json(payload).unwrap();
    assert_eq!(request.auth_token(), "SECRET-REDACTED");
    assert_eq!(request.to_json(), *payload);

    let quoted = ConnectRequest::new("a\"b").unwrap();
    assert_eq!(quoted.payload().as_ref().unwrap(), b"{\"authToken\":\"a\\\"b\"}");
    assert_eq!(
        ConnectRequest::from_json(b" { \"other\": 1, \"authToken\": \"a\\\"b\" } ")
            .unwrap()
            .auth_token(),
        "a\"b"
    );
    for text in [&b"{}"[..], &b"{\"authToken\":1}"[..], &b"[]"[..], &b"\"t\""[..]] {
        assert!(matches!(ConnectRequest::from_json(text), Err(Error::Protocol(_))));
    }
}

#[test]
fn responses_that_say_nothing_are_empty_objects() {
    assert_eq!(ConnectResponse {}.to_json(), b"{}");
    assert_eq!(UpdateStateResponse {}.to_json(), b"{}");
    assert_eq!(DeferComponentUpdateResponse {}.to_json(), b"{}");
    assert_eq!(ComponentUpdateSubscriptionRequest {}.to_json(), b"{}");
    assert_eq!(ConnectResponse::from_json(b"{}").unwrap(), ConnectResponse {});
    assert_eq!(UpdateStateResponse::from_json(b"{\"extra\":1}").unwrap(), UpdateStateResponse {});
    assert_eq!(
        DeferComponentUpdateResponse::from_json(b" {} ").unwrap(),
        DeferComponentUpdateResponse {}
    );
    assert_eq!(
        ComponentUpdateSubscriptionRequest::from_json(b"{}").unwrap(),
        ComponentUpdateSubscriptionRequest {}
    );
    assert!(matches!(ConnectResponse::from_json(b"[]"), Err(Error::Protocol(_))));
    assert!(matches!(UpdateStateResponse::from_json(b"null"), Err(Error::Protocol(_))));
    assert!(matches!(DeferComponentUpdateResponse::from_json(b""), Err(Error::Protocol(_))));
    assert!(matches!(
        ComponentUpdateSubscriptionRequest::from_json(b"1"),
        Err(Error::Protocol(_))
    ));
}

#[test]
fn update_state_request_names_the_operation_and_the_state() {
    let message = UpdateStateRequest::new(4, LifecycleState::Running);
    let headers = message.headers();
    assert_eq!(headers.stream_id(), 4);
    assert_eq!(headers.message_type(), MessageType::Application);
    assert!(headers.message_flags().is_empty());
    assert_eq!(
        headers.get("service-model-type"),
        Some(&Value::String("aws.greengrass#UpdateStateRequest".to_string()))
    );
    assert_eq!(
        headers.get("operation"),
        Some(&Value::String("aws.greengrass#UpdateState".to_string()))
    );
    assert_eq!(message.payload().as_ref().unwrap(), b"{\"state\":\"RUNNING\"}");
    let errored = UpdateStateRequest::new(5, LifecycleState::Errored);
    assert_eq!(errored.payload().as_ref().unwrap(), b"{\"state\":\"ERRORED\"}");
    let request = UpdateStateRequest::from_json(b"{\"state\":\"ERRORED\"}").unwrap();
    assert_eq!(request.state(), LifecycleState::Errored);
    assert_eq!(request.to_json(), b"{\"state\":\"ERRORED\"}");
    for text in [&b"{\"state\":\"STOPPED\"}"[..], &b"{\"state\":1}"[..], &b"{}"[..]] {
        assert!(matches!(UpdateStateRequest::from_json(text), Err(Error::Protocol(_))));
    }
}

#[test]
fn subscription_request_has_no_payload() {
    let message = ComponentUpdateSubscriptionRequest::new(9);
    assert_eq!(message.headers().stream_id(), 9);
    assert_eq!(message.headers().message_type(), MessageType::Application);
    assert!(message.headers().message_flags().is_empty());
    assert_eq!(
        message.headers().get("service-model-type"),
        Some(&Value::String("aws.greengrass#SubscribeToComponentUpdatesRequest".to_string()))
    );
    assert_eq!(
        message.headers().get("operation"),
        Some(&Value::String("aws.greengrass#SubscribeToComponentUpdates".to_string()))
    );
    assert!(message.payload().is_none());
}

#[test]
fn defer_request_carries_the_deployment_and_the_delay() {
    let id = Uuid::parse_str(DEPLOYMENT).unwrap();
    let message = DeferComponentUpdateRequest::new(2, id, None, RecheckAfterMs::Defer(60_000));
    assert_eq!(message.headers().stream_id(), 2);
    assert_eq!(
        message.headers().get("service-model-type"),
        Some(&Value::String("aws.greengrass#DeferComponentUpdateRequest".to_string()))
    );
    assert_eq!(
        message.headers().get("operation"),
        Some(&Value::String("aws.greengrass#DeferComponentUpdate".to_string()))
    );
    let payload = message.payload().as_ref().unwrap();
    assert_eq!(
        payload,
        b"{\"deploymentId\":\"77d00c6b-f0c6-4e14-86cb-d476f0016044\",\"recheckAfterMs\":60000}"
    );
    let request = DeferComponentUpdateRequest::from_json(payload).unwrap();
    assert_eq!(request.deployment_id(), id);
    assert_eq!(request.component_name(), None);
    assert_eq!(request.recheck_after_ms(), RecheckAfterMs::Defer(60_000));

    let named =
        DeferComponentUpdateRequest::new(3, id, Some("my \"part\""), RecheckAfterMs::DontDefer);
    let payload = named.payload().as_ref().unwrap();
    assert_eq!(
        payload,
        b"{\"deploymentId\":\"77d00c6b-f0c6-4e14-86cb-d476f0016044\",\"message\":\"my \\\"part\\\"\",\"recheckAfterMs\":0}"
    );
    let request = DeferComponentUpdateRequest::from_json(payload).unwrap();
    assert_eq!(request.component_name(), Some("my \"part\""));
    assert_eq!(request.recheck_after_ms(), RecheckAfterMs::DontDefer);
    assert_eq!(request.to_json(), *payload);

    let with_null = DeferComponentUpdateRequest::from_json(
        b"{\"recheckAfterMs\": 5, \"message\": null, \"deploymentId\": \"77D00C6BF0C64E1486CBD476F0016044\"}",
    )
    .unwrap();
    assert_eq!(with_null.deployment_id(), id);
    assert_eq!(with_null.component_name(), None);
    assert_eq!(with_null.recheck_after_ms(), RecheckAfterMs::Defer(5));
    for text in [
        &b"{\"deploymentId\":\"77d00c6b-f0c6-4e14-86cb-d476f0016044\"}"[..],
        &b"{\"recheckAfterMs\":1}"[..],
        &b"{\"deploymentId\":\"nope\",\"recheckAfterMs\":1}"[..],
        &b"{\"deploymentId\":\"77d00c6b-f0c6-4e14-86cb-d476f0016044\",\"recheckAfterMs\":-1}"[..],
        &b"{\"deploymentId\":\"77d00c6b-f0c6-4e14-86cb-d476f0016044\",\"message\":3,\"recheckAfterMs\":1}"[..],
        &b"[]"[..],
    ] {
        assert!(matches!(DeferComponentUpdateRequest::from_json(text), Err(Error::Protocol(_))));
    }
}

#[test]
fn subscription_response_holds_either_event_both_or_neither() {
    let id = Uuid::parse_str(DEPLOYMENT).unwrap();
    let other = Uuid::parse_str("8f55775e-8db1-4b82-a548-1916f7b361fb").unwrap();

    let neither = ComponentUpdateSubscriptionResponse::new(None, None);
    assert_eq!(neither.to_json(), b"{}");
    assert_eq!(ComponentUpdateSubscriptionResponse::from_json(b"{}").unwrap(), neither);

    let pre = ComponentUpdateSubscriptionResponse::new(
        Some(PreComponentUpdateEvent::new(id, true)),
        None,
    );
    assert_eq!(
        pre.to_json(),
        b"{\"preUpdateEvent\":{\"deploymentId\":\"77d00c6b-f0c6-4e14-86cb-d476f0016044\",\"isGgcRestarting\":true}}"
    );
    let decoded = ComponentUpdateSubscriptionResponse::from_json(&pre.to_json()).unwrap();
    assert_eq!(decoded, pre);
    assert_eq!(decoded.pre_update_event().unwrap().deployment_id(), id);
    assert!(decoded.pre_update_event().unwrap().is_ggc_restarting());
    assert!(decoded.post_update_event().is_none());

    let post =
        ComponentUpdateSubscriptionResponse::new(None, Some(PostComponentUpdateEvent::new(other)));
    assert_eq!(
        post.to_json(),
        b"{\"postUpdateEvent\":{\"deploymentId\":\"8f55775e-8db1-4b82-a548-1916f7b361fb\"}}"
    );
    assert_eq!(ComponentUpdateSubscriptionResponse::from_json(&post.to_json()).unwrap(), post);

    let both = ComponentUpdateSubscriptionResponse::new(
        Some(PreComponentUpdateEvent::new(id, false)),
        Some(PostComponentUpdateEvent::new(other)),
    );
    assert_eq!(
        both.to_json(),
        b"{\"preUpdateEvent\":{\"deploymentId\":\"77d00c6b-f0c6-4e14-86cb-d476f0016044\",\"isGgcRestarting\":false},\"postUpdateEvent\":{\"deploymentId\":\"8f55775e-8db1-4b82-a548-1916f7b361fb\"}}"
    );
    let decoded = ComponentUpdateSubscriptionResponse::from_json(&both.to_json()).unwrap();
    assert_eq!(decoded, both);
    assert_eq!(decoded.post_update_event().unwrap().deployment_id(), other);

    let nulls = ComponentUpdateSubscriptionResponse::from_json(
        b"{\"preUpdateEvent\": null, \"postUpdateEvent\": null, \"more\": []}",
    )
    .unwrap();
    assert_eq!(nulls, neither);

    for text in [
        &b"{\"preUpdateEvent\":{}}"[..],
        &b"{\"preUpdateEvent\":{\"deploymentId\":\"77d00c6b-f0c6-4e14-86cb-d476f0016044\"}}"[..],
        &b"{\"preUpdateEvent\":{\"deploymentId\":\"77d00c6b-f0c6-4e14-86cb-d476f0016044\",\"isGgcRestarting\":\"no\"}}"[..],
        &b"{\"postUpdateEvent\":{\"deploymentId\":5}}"[..],
        &b"{\"postUpdateEvent\":7}"[..],
        &b"[]"[..],
        &b"{"[..],
    ] {
        assert!(matches!(
            ComponentUpdateSubscriptionResponse::from_json(text),
            Err(Error::Protocol(_))
        ));
    }
}

#[test]
fn events_are_read_and_written_alone() {
    let id = Uuid::parse_str(DEPLOYMENT).unwrap();
    let pre = PreComponentUpdateEvent::new(id, false);
    assert_eq!(
        pre.to_json(),
        b"{\"deploymentId\":\"77d00c6b-f0c6-4e14-86cb-d476f0016044\",\"isGgcRestarting\":false}"
    );
    assert_eq!(PreComponentUpdateEvent::from_json(&pre.to_json()).unwrap(), pre);
    let post = PostComponentUpdateEvent::new(id);
    assert_eq!(post.to_json(), b"{\"deploymentId\":\"77d00c6b-f0c6-4e14-86cb-d476f0016044\"}");
    assert_eq!(PostComponentUpdateEvent::from_json(&post.to_json()).unwrap(), post);
    assert_eq!(post.deployment_id(), id);
}

use kimi_feishu::feishu::api::{EndpointClientConfig, EndpointData};
use kimi_feishu::feishu::query::parse_query_u32;
use kimi_feishu::feishu::session::{
    connection_plan, ends_connection, on_frame_handled, on_socket_event, Reconnect, SocketAction,
    SocketEvent,
};

#[test]
fn query_parser_reads_service_id() {
    assert_eq!(
        parse_query_u32(
            "wss://example.test/ws?device_id=x&service_id=42",
            "service_id"
        ),
        Some(42)
    );
}

#[test]
fn query_parser_takes_the_first_number() {
    for (url, expected) in [
        ("wss://x/ws", None),
        ("wss://x/ws?", None),
        ("wss://x/ws?k", None),
        ("wss://x/ws?k=1?k=2", None),
        ("wss://x/ws?a=0&k=+7", Some(7)),
        ("wss://x/ws?k=x&k=3&k=4", Some(3)),
        ("wss://x/ws?k=4294967295", Some(4_294_967_295)),
        ("wss://x/ws?k=4294967296", None),
        ("wss://x/ws?k=-1", None),
        ("wss://x/ws?k=", None),
        ("wss://x/ws?k=1=1", None),
    ] {
        assert_eq!(parse_query_u32(url, "k"), expected, "{url}");
    }
}

#[test]
fn connections_are_kept_alive_as_the_platform_says() {
    let endpoint = |url: &str, config: Option<Option<u64>>| EndpointData {
        url: url.to_string(),
        client_config: config.map(|ping_interval| EndpointClientConfig { ping_interval }),
    };
    for (endpoint, ping_interval, service_id) in [
        (endpoint("wss://x/ws?service_id=9", Some(Some(30))), 30, 9),
        (endpoint("wss://x/ws?service_id=no", Some(Some(0))), 120, 0),
        (endpoint("wss://x/ws", Some(None)), 120, 0),
        (endpoint("wss://x/ws", None), 120, 0),
    ] {
        let plan = connection_plan(&endpoint);
        assert_eq!(plan.ping_interval, ping_interval);
        assert_eq!(plan.service_id, service_id);
    }
}

#[test]
fn events_of_a_connection_have_their_actions() {
    assert!(matches!(on_socket_event(SocketEvent::Cancelled), SocketAction::Close));
    assert!(matches!(on_socket_event(SocketEvent::KeepaliveDue), SocketAction::SendPing));
    assert!(matches!(
        on_socket_event(SocketEvent::Binary(vec![1])),
        SocketAction::Receive(bytes) if bytes == [1]
    ));
    assert!(matches!(
        on_socket_event(SocketEvent::Ping(vec![2])),
        SocketAction::SendPong(bytes) if bytes == [2]
    ));
    assert!(matches!(on_socket_event(SocketEvent::Closed), SocketAction::Leave));
    assert!(matches!(on_socket_event(SocketEvent::Ended), SocketAction::Leave));
    assert!(matches!(on_socket_event(SocketEvent::ReadFailed), SocketAction::Leave));
    assert!(matches!(on_socket_event(SocketEvent::SendFailed), SocketAction::Leave));
    assert!(matches!(on_socket_event(SocketEvent::Other), SocketAction::Wait));
    assert!(matches!(
        on_socket_event(SocketEvent::Handled(Some(vec![3]))),
        SocketAction::Respond(bytes) if bytes == [3]
    ));
    assert!(matches!(on_socket_event(SocketEvent::Handled(None)), SocketAction::Wait));
}

#[test]
fn waits_grow_up_to_half_a_minute() {
    let mut reconnect = Reconnect::new();
    for expected in [1, 2, 4, 8, 16, 30, 30] {
        assert_eq!(reconnect.after_connection(true, false), Some(expected));
    }
    assert_eq!(reconnect.after_connection(false, true), Some(30));
    assert_eq!(reconnect.after_connection(true, true), None);
}

#[test]
fn open_connections_end_well() {
    for event in [
        SocketEvent::Cancelled,
        SocketEvent::Closed,
        SocketEvent::Ended,
        SocketEvent::ReadFailed,
        SocketEvent::SendFailed,
    ] {
        assert_eq!(ends_connection(&on_socket_event(event)), Some(true));
    }
    for event in [
        SocketEvent::KeepaliveDue,
        SocketEvent::Binary(vec![1]),
        SocketEvent::Handled(Some(vec![1])),
        SocketEvent::Handled(None),
        SocketEvent::Ping(vec![]),
        SocketEvent::Other,
    ] {
        assert_eq!(ends_connection(&on_socket_event(event)), None);
    }
}

#[test]
fn frames_that_fail_get_no_response() {
    let handled = |result: Result<Option<Vec<u8>>, &str>| on_socket_event(on_frame_handled(result));
    assert!(matches!(handled(Ok(Some(vec![4]))), SocketAction::Respond(bytes) if bytes == [4]));
    assert!(matches!(handled(Ok(None)), SocketAction::Wait));
    assert!(matches!(handled(Err("broken")), SocketAction::Wait));
}

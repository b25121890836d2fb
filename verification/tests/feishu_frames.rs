use kimi_feishu::feishu::api::{ApiResponse, TokenResponseData, TokenStep};
use kimi_feishu::feishu::channel::FeishuChannel;
use kimi_feishu::feishu::error::ChannelError;
use kimi_feishu::feishu::frames::{
    build_ping_frame, build_response_frame, frame_headers, header_from_pairs, response_frame, WsFrame,
    WsHeader,
};
use kimi_feishu::feishu::inbound::{respond, response_to, FrameOutcome};

const TTL: u64 = 300_000_000_000;

fn channel() -> FeishuChannel {
    FeishuChannel::new("cli_x".to_string(), "secret".to_string(), None)
}

fn frame(headers: Vec<WsHeader>, payload: &[u8]) -> WsFrame {
    WsFrame {
        seq_id: 7,
        log_id: "log".to_string(),
        service: 3,
        method: 1,
        headers,
        payload_encoding: "gzip".to_string(),
        payload_type: "json".to_string(),
        payload: payload.to_vec(),
        log_id_new: "new".to_string(),
    }
}

fn part(message_id: &str, sum: &str, seq: &str, payload: &[u8]) -> WsFrame {
    frame(
        vec![header_from_pairs([
            ("message_id", message_id),
            ("sum", sum),
            ("seq", seq),
        ])],
        payload,
    )
}

fn complete(
    channel: &mut FeishuChannel,
    frame: &WsFrame,
    now: u64,
) -> Result<Option<Vec<u8>>, ChannelError> {
    let headers = frame_headers(frame);
    channel.complete_payload(frame, &headers, now)
}

fn nothing(_: &str) -> Option<(String, String)> {
    None
}

fn approve(callback: &str) -> Option<(String, String)> {
    let (id, decision) = callback.strip_prefix("a:")?.split_once(':')?;
    Some((id.to_string(), decision.to_string()))
}

#[test]
fn later_headers_replace_earlier_ones() {
    let frame = frame(
        vec![
            header_from_pairs([("type", "event"), ("a", "1")]),
            header_from_pairs([("a", "2"), ("a", "3")]),
        ],
        b"",
    );
    let headers = frame_headers(&frame);
    assert_eq!(headers.get("type"), Some(&"event".to_string()));
    assert_eq!(headers.get("a"), Some(&"3".to_string()));
    assert_eq!(headers.get("b"), None);
}

#[test]
fn ping_frames_carry_the_time_and_the_service() {
    let ping = build_ping_frame(42, 1_700_000_000_000);
    assert_eq!(ping.seq_id, 1_700_000_000_000);
    assert_eq!(ping.service, 42);
    assert_eq!(ping.method, 0);
    assert_eq!(frame_headers(&ping).get("type"), Some(&"ping".to_string()));
    assert!(ping.payload.is_empty() && ping.log_id.is_empty());
    assert_eq!(build_ping_frame(1, -5).seq_id, 0);
}

#[test]
fn responses_keep_the_frame_and_tell_the_status() {
    let request = frame(
        vec![header_from_pairs([("type", "event"), ("biz_rt", "9")])],
        b"in",
    );
    let response = build_response_frame(&request, 500).expect("a response");
    assert_eq!(response.payload, br#"{"code":500,"data":{}}"#);
    assert_eq!(response.seq_id, 7);
    assert_eq!(response.log_id, "log");
    assert_eq!(response.service, 3);
    assert_eq!(response.method, 1);
    assert_eq!(response.payload_encoding, "gzip");
    assert_eq!(response.payload_type, "json");
    assert_eq!(response.log_id_new, "new");
    assert_eq!(response.headers.len(), 2);
    let headers = frame_headers(&response);
    assert_eq!(headers.get("response-code"), Some(&"500".to_string()));
    assert_eq!(headers.get("biz_rt"), Some(&"0".to_string()));
    assert_eq!(headers.get("type"), Some(&"event".to_string()));
    assert_eq!(
        response_frame(&request, 7, b"out".to_vec()).payload,
        b"out"
    );
}

#[test]
fn responses_tell_whether_a_frame_was_handled() {
    let request = frame(vec![], b"");
    let well = respond(&request, true).expect("a response");
    let badly = respond(&request, false).expect("a response");
    assert_eq!(well.payload, br#"{"code":200,"data":{}}"#);
    assert_eq!(badly.payload, br#"{"code":500,"data":{}}"#);
}

#[test]
fn a_payload_in_one_part_is_complete() {
    let mut channel = channel();
    for sum in ["0", "1", "x", "-3", ""] {
        let frame = part("m", sum, "x", b"whole");
        assert_eq!(
            complete(&mut channel, &frame, 0).expect("a payload"),
            Some(b"whole".to_vec())
        );
    }
}

#[test]
fn parts_are_put_together_in_their_order() {
    let mut channel = channel();
    assert_eq!(complete(&mut channel, &part("m", "3", "3", b"c"), 1).expect("ok"), None);
    assert_eq!(complete(&mut channel, &part("n", "2", "1", b"x"), 2).expect("ok"), None);
    assert_eq!(complete(&mut channel, &part("m", "3", "1", b"old"), 3).expect("ok"), None);
    assert_eq!(complete(&mut channel, &part("m", "3", "1", b"a"), 4).expect("ok"), None);
    assert_eq!(
        complete(&mut channel, &part("m", "3", "2", b"b"), 5).expect("ok"),
        Some(b"abc".to_vec())
    );
    assert_eq!(
        complete(&mut channel, &part("n", "2", "2", b"y"), 6).expect("ok"),
        Some(b"xy".to_vec())
    );
    assert_eq!(complete(&mut channel, &part("m", "3", "2", b"b"), 7).expect("ok"), None);
}

#[test]
fn parts_of_another_number_of_parts_start_over() {
    let mut channel = channel();
    assert_eq!(complete(&mut channel, &part("m", "2", "1", b"a"), 1).expect("ok"), None);
    assert_eq!(complete(&mut channel, &part("m", "3", "2", b"b"), 2).expect("ok"), None);
    assert_eq!(complete(&mut channel, &part("m", "2", "2", b"b"), 3).expect("ok"), None);
}

#[test]
fn old_parts_are_forgotten() {
    let mut channel = channel();
    assert_eq!(complete(&mut channel, &part("m", "2", "1", b"a"), 10).expect("ok"), None);
    assert_eq!(
        complete(&mut channel, &part("m", "2", "2", b"b"), 9 + TTL).expect("ok"),
        Some(b"ab".to_vec())
    );
    assert_eq!(complete(&mut channel, &part("m", "2", "1", b"a"), 10).expect("ok"), None);
    assert_eq!(
        complete(&mut channel, &part("m", "2", "2", b"b"), 10 + TTL).expect("ok"),
        None
    );
}

#[test]
fn a_great_number_of_parts_takes_no_room() {
    let mut channel = channel();
    let frame = part("m", "18446744073709551615", "18446744073709551615", b"z");
    assert_eq!(complete(&mut channel, &frame, 0).expect("ok"), None);
}

#[test]
fn parts_that_cannot_be_placed_are_refused() {
    let mut channel = channel();
    let nameless = frame(vec![header_from_pairs([("sum", "2"), ("seq", "1")])], b"");
    let error = complete(&mut channel, &nameless, 0).expect_err("no message");
    assert_eq!(error.message(), "feishu partial frame missing message_id");
    let error = complete(&mut channel, &part("m", "2", "one", b""), 0).expect_err("no number");
    assert_eq!(error.message(), "feishu partial frame missing seq");
    let error = complete(&mut channel, &part("m", "2", "0", b""), 0).expect_err("too low");
    assert_eq!(error.message(), "feishu partial frame has invalid seq 0/2");
    let error = complete(&mut channel, &part("m", "2", "+3", b""), 0).expect_err("too high");
    assert_eq!(error.message(), "feishu partial frame has invalid seq 3/2");
}

#[test]
fn keepalive_frames_are_not_answered() {
    let mut channel = channel();
    for kind in ["ping", "pong"] {
        let frame = frame(
            vec![header_from_pairs([("type", kind), ("sum", "2")])],
            b"",
        );
        assert!(matches!(
            channel.receive_frame(&frame, 0, &nothing),
            Ok(FrameOutcome::Silent)
        ));
    }
}

#[test]
fn frames_of_unknown_kinds_are_settled() {
    let mut channel = channel();
    assert!(matches!(
        channel.receive_frame(&frame(vec![], b"x"), 0, &nothing),
        Ok(FrameOutcome::Settled(Ok(())))
    ));
    assert!(channel
        .receive_frame(&part("m", "2", "9", b""), 0, &nothing)
        .is_err());
}

#[test]
fn event_frames_deliver_messages_also_in_parts() {
    let mut channel = channel();
    let text = br#"{"header": {"event_type": "im.message.receive_v1"},
        "event": {"sender": {"sender_id": {"open_id": "ou_user"}},
        "message": {"message_id": "om", "chat_id": "oc", "chat_type": "p2p",
                    "message_type": "text", "content": "{\"text\":\"hi\"}"}}}"#;
    let headers = |seq: &str| {
        vec![
            header_from_pairs([("type", "event")]),
            header_from_pairs([("message_id", "m"), ("sum", "2"), ("seq", seq)]),
        ]
    };
    let (first, second) = text.split_at(40);
    assert!(matches!(
        channel.receive_frame(&frame(headers("2"), second), 0, &nothing),
        Ok(FrameOutcome::Silent)
    ));
    match channel.receive_frame(&frame(headers("1"), first), 0, &nothing) {
        Ok(FrameOutcome::Deliver(message)) => assert_eq!(message.text, "hi"),
        other => panic!("{other:?}"),
    }
}

#[test]
fn payloads_that_are_no_documents_are_told() {
    let mut channel = channel();
    let event = frame(vec![header_from_pairs([("type", "event")])], b"{");
    match channel.receive_frame(&event, 0, &nothing) {
        Ok(FrameOutcome::Settled(Err(error))) => {
            assert_eq!(error.message(), "feishu event payload decode failed")
        }
        other => panic!("{other:?}"),
    }
    let card = frame(vec![header_from_pairs([("type", "card")])], b"\xff");
    match channel.receive_frame(&card, 0, &nothing) {
        Ok(FrameOutcome::Settled(Err(error))) => {
            assert_eq!(error.message(), "feishu card payload decode failed")
        }
        other => panic!("{other:?}"),
    }
    let idle = frame(vec![header_from_pairs([("type", "event")])], b"{}");
    assert!(matches!(
        channel.receive_frame(&idle, 0, &nothing),
        Ok(FrameOutcome::Settled(Ok(())))
    ));
}

#[test]
fn card_frames_deliver_decisions() {
    let mut channel = channel();
    let headers = || vec![header_from_pairs([("type", "card")])];
    let pressed = br#"{"action": {"value": {"callback": "a:approval-1:allow"}}, "open_id": "ou_1"}"#;
    match channel.receive_frame(&frame(headers(), pressed), 0, &approve) {
        Ok(FrameOutcome::Deliver(message)) => assert_eq!(message.peer_id.0, "ou_1"),
        other => panic!("{other:?}"),
    }
    assert!(matches!(
        channel.receive_frame(&frame(headers(), pressed), 0, &nothing),
        Ok(FrameOutcome::Settled(Ok(())))
    ));
}

#[test]
fn frames_leave_tokens_and_threads_alone() {
    let mut channel = channel();
    channel.activate_thread("oc_1", "om_1");
    let data = TokenResponseData {
        tenant_access_token: "tok".to_string(),
        expire: 1_000,
    };
    let answer = ApiResponse {
        code: 0,
        msg: None,
        data: Some(data),
    };
    channel.accept_token(0, answer).expect("a token");
    let bad = frame(vec![header_from_pairs([("type", "event")])], b"{");
    for frame in [part("m", "2", "1", b"a"), part("m", "2", "7", b""), bad] {
        let _ = channel.receive_frame(&frame, 0, &nothing);
    }
    assert!(channel.is_thread_active("oc_1", "om_1"));
    assert!(matches!(channel.token_step(0), TokenStep::Cached(token) if token == "tok"));
}

#[test]
fn parts_come_again_and_between_others() {
    let mut channel = channel();
    for (id, sum, seq, payload, expected) in [
        ("m", "3", "2", "b", None),
        ("n", "2", "2", "y", None),
        ("m", "3", "2", "b", None),
        ("m", "3", "3", "c", None),
        ("n", "2", "1", "x", Some("xy")),
        ("m", "3", "3", "c", None),
        ("m", "3", "1", "a", Some("abc")),
    ] {
        let frame = part(id, sum, seq, payload.as_bytes());
        assert_eq!(
            complete(&mut channel, &frame, 0).expect("ok"),
            expected.map(|bytes| bytes.as_bytes().to_vec())
        );
    }
}

#[test]
fn outcomes_have_their_responses() {
    let mut channel = channel();
    let message = br#"{"header": {"event_type": "im.message.receive_v1"},
        "event": {"sender": {"sender_id": {"open_id": "ou_user"}},
        "message": {"message_id": "om", "chat_id": "oc", "chat_type": "p2p",
                    "message_type": "text", "content": "hi"}}}"#;
    let event = |payload: &[u8]| frame(vec![header_from_pairs([("type", "event")])], payload);
    let ping = frame(vec![header_from_pairs([("type", "ping")])], b"");
    for (request, delivered, status) in [
        (event(message), true, Some(200)),
        (event(message), false, Some(500)),
        (event(b"{}"), false, Some(200)),
        (event(b"{"), true, Some(500)),
        (frame(vec![], b"x"), false, Some(200)),
        (part("m", "2", "1", b"a"), true, None),
        (ping, true, None),
    ] {
        let outcome = channel.receive_frame(&request, 0, &nothing).expect("an outcome");
        let response = response_to(&request, &outcome, delivered).expect("a response");
        let payload = response.map(|response| response.payload);
        let expected = status.map(|status| format!(r#"{{"code":{status},"data":{{}}}}"#));
        assert_eq!(payload, expected.map(String::into_bytes));
    }
}

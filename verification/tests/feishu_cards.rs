use kimi_feishu::feishu::cards::{build_approval_card, build_status_card, callback_of};
use kimi_feishu::feishu::channel::FeishuChannel;
use kimi_feishu::feishu::types::{ApprovalButton, ButtonStyle, ChatType};
use kimi_feishu::json::Json;
use kimi_feishu::json_codec::{parse_text, render_text};

fn json(text: &str) -> Json {
    parse_text(text).expect("a document")
}

fn channel() -> FeishuChannel {
    FeishuChannel::new("cli_x".to_string(), "secret".to_string(), None)
}

fn approve(callback: &str) -> Option<(String, String)> {
    let (id, decision) = callback.strip_prefix("a:")?.split_once(':')?;
    Some((id.to_string(), decision.to_string()))
}

#[test]
fn card_button_callback_is_embedded() {
    let card = build_approval_card(
        "Approve?",
        &[ApprovalButton {
            label: "Allow".to_string(),
            callback_data: "a:approval-1:allow".to_string(),
            style: ButtonStyle::Success,
        }],
    );
    assert!(render_text(&card)
        .expect("a text")
        .contains("a:approval-1:allow"));
}

#[test]
fn approval_cards_show_a_text_and_buttons() {
    let card = build_approval_card(
        "Run \"it\"?",
        &[
            ApprovalButton {
                label: "Allow".to_string(),
                callback_data: "yes".to_string(),
                style: ButtonStyle::Success,
            },
            ApprovalButton {
                label: "Deny".to_string(),
                callback_data: "no".to_string(),
                style: ButtonStyle::Danger,
            },
        ],
    );
    assert_eq!(
        render_text(&card).expect("a text"),
        concat_lines(&[
            r#"{"config":{"wide_screen_mode":true},"#,
            r#""elements":[{"tag":"div","text":{"content":"Run \"it\"?","tag":"lark_md"}},"#,
            r#"{"actions":["#,
            r#"{"tag":"button","text":{"content":"Allow","tag":"plain_text"},"type":"primary","value":{"callback":"yes"}},"#,
            r#"{"tag":"button","text":{"content":"Deny","tag":"plain_text"},"type":"danger","value":{"callback":"no"}}"#,
            r#"],"tag":"action"}],"#,
            r#""header":{"title":{"content":"Stakpak approval","tag":"plain_text"}}}"#,
        ])
    );
}

fn concat_lines(lines: &[&str]) -> String {
    lines.iter().map(|line| line.to_string()).collect()
}

#[test]
fn status_cards_show_a_text() {
    assert_eq!(
        render_text(&build_status_card("done")).expect("a text"),
        r#"{"config":{"wide_screen_mode":true},"elements":[{"tag":"div","text":{"content":"done","tag":"lark_md"}}]}"#
    );
}

#[test]
fn callbacks_come_back_from_the_first_place_that_has_one() {
    for (text, expected) in [
        (r#"{"event": {"action": {"value": {"callback": "1", "action": "2"}}}}"#, Some("1")),
        (r#"{"event": {"action": {"value": {"callback": " ", "callback_data": "2"}}}}"#, Some("2")),
        (r#"{"event": {"action": {"value": {"action": 3}}}, "action": {"value": {"callback": "4"}}}"#, Some("3")),
        (r#"{"action": {"value": {"callback_data": "5"}}}"#, Some("5")),
        (r#"{"action": {"value": {"action": "6"}}}"#, Some("6")),
        (r#"{"action": {"value": "6"}}"#, None),
        (r#"[]"#, None),
    ] {
        assert_eq!(callback_of(&json(text)).as_deref(), expected, "{text}");
    }
}

#[test]
fn a_pressed_button_answers_a_request_for_approval() {
    let message = channel()
        .map_card_callback(
            &json(
                r#"{"event": {"action": {"value": {"callback": "a:approval-1:allow"}},
                    "operator": {"operator_id": {"open_id": "ou_1"}},
                    "context": {"open_chat_id": "oc_1", "open_message_id": "om_1"}}}"#,
            ),
            &approve,
        )
        .expect("a message");
    assert_eq!(message.channel.0, "feishu");
    assert_eq!(message.peer_id.0, "ou_1");
    assert!(matches!(&message.chat_type, ChatType::Group { id } if id == "oc_1"));
    assert_eq!(message.text, "");
    assert_eq!(message.timestamp, None);
    assert_eq!(
        render_text(&message.metadata).expect("a text"),
        r#"{"approval_id":"approval-1","chat_id":"oc_1","decision":"allow","message_id":"om_1","type":"approval_response"}"#
    );
}

#[test]
fn a_pressed_button_may_come_without_context() {
    let message = channel()
        .map_card_callback(
            &json(r#"{"action": {"value": {"callback": "a:1:deny"}}}"#),
            &approve,
        )
        .expect("a message");
    assert_eq!(message.peer_id.0, "unknown");
    assert!(matches!(message.chat_type, ChatType::Direct));
    assert_eq!(message.metadata.get("chat_id"), Some(&Json::Null));
    assert_eq!(message.metadata.get("message_id"), Some(&Json::Null));
}

#[test]
fn operators_chats_and_messages_are_looked_for_in_turn() {
    for (place, peer) in [
        (r#""event": {"operator": {"open_id": "a"}}"#, "a"),
        (r#""operator": {"operator_id": {"open_id": "b"}}"#, "b"),
        (r#""operator": {"open_id": "c"}"#, "c"),
        (r#""open_id": "d""#, "d"),
        (r#""user_id": "e""#, "e"),
    ] {
        let text = format!(r#"{{"action": {{"value": {{"callback": "a:1:x"}}}}, {place}}}"#);
        let message = channel()
            .map_card_callback(&json(&text), &approve)
            .expect("a message");
        assert_eq!(message.peer_id.0, peer);
    }
    for place in [
        r#""event": {"context": {"chat_id": "oc", "message_id": "om"}}"#,
        r#""context": {"open_chat_id": "oc", "open_message_id": "om"}"#,
        r#""context": {"chat_id": "oc", "message_id": "om"}"#,
        r#""open_chat_id": "oc", "open_message_id": "om""#,
        r#""chat_id": "oc", "message_id": "om""#,
    ] {
        let text = format!(r#"{{"action": {{"value": {{"callback": "a:1:x"}}}}, {place}}}"#);
        let message = channel()
            .map_card_callback(&json(&text), &approve)
            .expect("a message");
        assert_eq!(message.metadata.get("chat_id"), Some(&Json::Text("oc".to_string())));
        assert_eq!(message.metadata.get("message_id"), Some(&Json::Text("om".to_string())));
    }
}

#[test]
fn buttons_that_decide_nothing_are_passed_over() {
    let value = json(r#"{"action": {"value": {"callback": "other"}}}"#);
    assert!(channel().map_card_callback(&value, &approve).is_none());
    assert!(channel().map_card_callback(&Json::Null, &approve).is_none());
}

#[test]
fn callbacks_travel_with_the_card_and_back() {
    let button = |callback: &str| ApprovalButton {
        label: "Go".to_string(),
        callback_data: callback.to_string(),
        style: ButtonStyle::Danger,
    };
    let card = build_approval_card("Which?", &[button("a:1:yes"), button("a:1:no")]);
    let elements = card.get("elements").and_then(|it| it.as_items()).expect("elements");
    let actions = elements[1].get("actions").and_then(|it| it.as_items()).expect("actions");
    for (action, callback) in actions.iter().zip(["a:1:yes", "a:1:no"]) {
        let value = render_text(action.get("value").expect("a value")).expect("a text");
        let event = json(&format!(r#"{{"event": {{"action": {{"value": {value}}}}}}}"#));
        assert_eq!(callback_of(&event).as_deref(), Some(callback));
    }
}

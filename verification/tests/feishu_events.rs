use kimi_feishu::feishu::channel::FeishuChannel;
use kimi_feishu::feishu::events::{
    mention_targets_bot, parse_text_content, read_event, strip_mention_text, text_of_content,
};
use kimi_feishu::feishu::types::{ChatType, InboundMessage};
use kimi_feishu::json::Json;
use kimi_feishu::json_codec::parse_text;

fn json(text: &str) -> Json {
    parse_text(text).expect("a document")
}

fn list(text: &str) -> Vec<Json> {
    match json(text) {
        Json::Array(items) => items,
        _ => panic!("not a list"),
    }
}

fn channel() -> FeishuChannel {
    let mut channel = FeishuChannel::new(
        "cli_x".to_string(),
        "secret".to_string(),
        Some("https://open.feishu.cn".to_string()),
    );
    channel.set_bot_open_id(Some("ou_bot".to_string()));
    channel
}

fn event(message: &str) -> Json {
    json(&format!(
        r#"{{"header": {{"event_type": "im.message.receive_v1"}},
            "event": {{"sender": {{"sender_id": {{"open_id": "ou_user"}}}}, "message": {message}}}}}"#
    ))
}

fn metadata_text<'a>(message: &'a InboundMessage, key: &str) -> Option<&'a str> {
    message
        .metadata
        .get(key)
        .and_then(|value| value.as_text())
        .map(String::as_str)
}

#[test]
fn text_content_extracts_text_field() {
    assert_eq!(
        parse_text_content(r#"{"text":"hello"}"#),
        "hello".to_string()
    );
    assert_eq!(parse_text_content("plain"), "plain".to_string());
}

#[test]
fn text_content_without_a_text_stays_as_it_is() {
    assert_eq!(parse_text_content(r#"{"text":5}"#), r#"{"text":5}"#);
    assert_eq!(parse_text_content("[1]"), "[1]");
    assert_eq!(text_of_content("raw", None), "raw");
    assert_eq!(text_of_content("raw", Some(json(r#"{"text":"x"}"#))), "x");
}

#[test]
fn mention_text_strips_keys_and_names() {
    let mentions = list(r#"[{"key": "@_user_1", "name": "OpsBot"}]"#);
    assert_eq!(
        strip_mention_text("@_user_1 check nginx".to_string(), &mentions),
        "check nginx"
    );
    assert_eq!(
        strip_mention_text("@OpsBot check nginx".to_string(), &mentions),
        "check nginx"
    );
}

#[test]
fn mentions_are_stripped_one_after_the_other() {
    let mentions = list(r#"[{"key": "b"}, {"key": "aa", "name": "x"}, {"key": ""}]"#);
    assert_eq!(strip_mention_text(" aba c @x ".to_string(), &mentions), "c");
    assert_eq!(strip_mention_text("  x  ".to_string(), &[]), "x");
}

#[test]
fn any_mention_counts_while_the_bot_is_unknown() {
    let mentions = list(r#"[{"id": {"open_id": "ou_other"}}]"#);
    assert!(mention_targets_bot(&mentions, ""));
    assert!(!mention_targets_bot(&[], ""));
    assert!(!mention_targets_bot(&mentions, "ou_bot"));
    assert!(mention_targets_bot(&mentions, "ou_other"));
}

#[test]
fn group_messages_require_mentions_until_thread_is_active() {
    let mut channel = FeishuChannel::new(
        "cli_x".to_string(),
        "secret".to_string(),
        Some("https://open.feishu.cn".to_string()),
    );
    channel.set_bot_open_id(Some("ou_bot".to_string()));

    let unmentioned = json(
        r#"{
            "header": {"event_type": "im.message.receive_v1"},
            "event": {
                "sender": {"sender_id": {"open_id": "ou_user"}},
                "message": {
                    "message_id": "om_1",
                    "chat_id": "oc_1",
                    "chat_type": "group",
                    "message_type": "text",
                    "content": "{\"text\":\"hello\"}",
                    "mentions": []
                }
            }
        }"#,
    );
    assert!(channel.map_message_event(&unmentioned).is_none());

    let mentioned = json(
        r#"{
            "header": {"event_type": "im.message.receive_v1"},
            "event": {
                "sender": {"sender_id": {"open_id": "ou_user"}},
                "message": {
                    "message_id": "om_2",
                    "chat_id": "oc_1",
                    "chat_type": "group",
                    "message_type": "text",
                    "content": "{\"text\":\"@_user_1 check\"}",
                    "mentions": [{"key": "@_user_1", "id": {"open_id": "ou_bot"}, "name": "OpsBot"}]
                }
            }
        }"#,
    );
    assert!(channel.map_message_event(&mentioned).is_some());

    let thread_reply = json(
        r#"{
            "header": {"event_type": "im.message.receive_v1"},
            "event": {
                "sender": {"sender_id": {"open_id": "ou_user"}},
                "message": {
                    "message_id": "om_3",
                    "root_id": "om_2",
                    "chat_id": "oc_1",
                    "chat_type": "group",
                    "message_type": "text",
                    "content": "{\"text\":\"more\"}",
                    "mentions": []
                }
            }
        }"#,
    );
    assert!(channel.map_message_event(&thread_reply).is_some());
}

#[test]
fn a_mention_in_a_group_is_told_in_full() {
    let mut channel = channel();
    let message = channel
        .map_message_event(&event(
            r#"{"message_id": "om_2", "chat_id": "oc_1", "chat_type": "group", "message_type": "text",
                "parent_id": 77, "create_time": "1700000000123",
                "content": "{\"text\":\"@_user_1 check \"}",
                "mentions": [{"key": "@_user_1", "id": {"open_id": "ou_bot"}, "name": "OpsBot"}]}"#,
        ))
        .expect("a message");
    assert_eq!(message.channel.0, "feishu");
    assert_eq!(message.peer_id.0, "ou_user");
    assert!(matches!(&message.chat_type, ChatType::Group { id } if id == "oc_1"));
    assert_eq!(message.text, "check");
    assert!(message.media.is_empty());
    assert_eq!(message.timestamp, Some(1_700_000_000_123));
    assert_eq!(metadata_text(&message, "chat_id"), Some("oc_1"));
    assert_eq!(metadata_text(&message, "message_id"), Some("om_2"));
    assert_eq!(message.metadata.get("root_id"), Some(&Json::Null));
    assert_eq!(metadata_text(&message, "parent_id"), Some("77"));
    assert_eq!(metadata_text(&message, "chat_type"), Some("group"));
    assert_eq!(metadata_text(&message, "message_type"), Some("text"));
    assert_eq!(message.metadata.get("mentioned"), Some(&Json::Bool(true)));
    assert_eq!(metadata_text(&message, "sender_id"), Some("ou_user"));
    assert!(channel.is_thread_active("oc_1", "om_2"));
    assert!(!channel.is_thread_active("oc_2", "om_2"));
    assert!(!channel.is_thread_active("oc_1", "om_1"));
    assert!(!channel.is_thread_active("oc_1", "77"));
}

#[test]
fn threads_belong_to_their_chat() {
    let mut channel = channel();
    channel.activate_thread("oc_1", "om_9");
    let inside = event(
        r#"{"message_id": "om_3", "root_id": "om_9", "chat_id": "oc_1", "message_type": "text",
            "content": "x"}"#,
    );
    let outside = event(
        r#"{"message_id": "om_3", "root_id": "om_9", "chat_id": "oc_2", "message_type": "text",
            "content": "x"}"#,
    );
    let message = channel.map_message_event(&inside).expect("a message");
    assert!(matches!(
        &message.chat_type,
        ChatType::Thread { group_id, thread_id } if group_id == "oc_1" && thread_id == "om_9"
    ));
    assert!(channel.map_message_event(&outside).is_none());
}

#[test]
fn own_messages_are_dropped_and_open_no_thread() {
    let mut channel = channel();
    let own = json(
        r#"{"header": {"event_type": "im.message.receive_v1"},
            "event": {"sender": {"sender_id": {"open_id": "ou_bot"}},
                      "message": {"message_id": "om_4", "chat_id": "oc_1", "message_type": "text",
                                  "content": "x", "mentions": [{"id": {"open_id": "ou_bot"}}]}}}"#,
    );
    assert!(channel.map_message_event(&own).is_none());
    assert!(!channel.is_thread_active("oc_1", "om_4"));
}

#[test]
fn direct_messages_need_no_mention() {
    let mut channel = channel();
    let message = channel
        .map_message_event(&event(
            r#"{"message_id": "om_5", "chat_id": "oc_5", "chat_type": "p2p", "message_type": "text",
                "content": "  hi  ", "create_time": "soon"}"#,
        ))
        .expect("a message");
    assert!(matches!(message.chat_type, ChatType::Direct));
    assert_eq!(message.text, "hi");
    assert_eq!(message.timestamp, None);
}

#[test]
fn a_message_that_is_its_own_root_is_in_no_thread() {
    let mut channel = channel();
    channel.activate_thread("oc_1", "om_6");
    let message = event(
        r#"{"message_id": "om_6", "root_id": "om_6", "chat_id": "oc_1", "message_type": "text",
            "content": "x"}"#,
    );
    assert!(channel.map_message_event(&message).is_none());
}

#[test]
fn events_of_other_kinds_say_nothing() {
    for text in [
        r#"{}"#,
        r#"{"header": {"event_type": "other"}}"#,
        r#"{"header": {"event_type": "im.message.receive_v1"}}"#,
        r#"{"header": {"event_type": "im.message.receive_v1"}, "event": {"message": {}}}"#,
    ] {
        assert!(read_event(&json(text)).is_none());
    }
    for message in [
        r#"{"chat_id": "oc", "message_type": "text", "content": "x"}"#,
        r#"{"message_id": " ", "chat_id": "oc", "message_type": "text", "content": "x"}"#,
        r#"{"message_id": "om", "message_type": "text", "content": "x"}"#,
        r#"{"message_id": "om", "chat_id": "oc", "message_type": "image", "content": "x"}"#,
        r#"{"message_id": "om", "chat_id": "oc", "content": "x"}"#,
        r#"{"message_id": "om", "chat_id": "oc", "message_type": "text", "content": 5}"#,
    ] {
        assert!(read_event(&event(message)).is_none());
    }
}

#[test]
fn the_first_identifier_of_a_sender_counts() {
    let value = json(
        r#"{"header": {"event_type": "im.message.receive_v1"},
            "event": {"sender": {"sender_id": {"open_id": "", "user_id": 12, "union_id": "on"}},
                      "message": {"message_id": "om", "chat_id": "oc", "message_type": "text",
                                  "content": "x"}}}"#,
    );
    assert_eq!(read_event(&value).expect("an event").sender_id, "12");
}

#[test]
fn times_out_of_the_calendar_are_left_out() {
    let mut channel = channel();
    for (time, expected) in [
        ("\"-8334601228800000\"", Some(-8_334_601_228_800_000)),
        ("\"-8334601228800001\"", None),
        ("8210266876799999", Some(8_210_266_876_799_999)),
        ("8210266876800000", None),
        ("\"+5\"", Some(5)),
        ("\"5.0\"", None),
        ("5.5", None),
        ("-5", Some(-5)),
        ("\"9223372036854775808\"", None),
    ] {
        let message = channel
            .map_message_event(&event(&format!(
                r#"{{"message_id": "om", "chat_id": "oc", "chat_type": "p2p", "message_type": "text",
                    "content": "x", "create_time": {time}}}"#
            )))
            .expect("a message");
        assert_eq!(message.timestamp, expected, "{time}");
    }
}

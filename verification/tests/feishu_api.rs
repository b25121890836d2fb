use kimi_feishu::feishu::api::{
    ApiRequest, ApiResponse, BotInfoData, HttpMethod, SendMessageData, TokenResponseData, TokenStep,
};
use kimi_feishu::feishu::cards::build_status_card;
use kimi_feishu::feishu::channel::FeishuChannel;
use kimi_feishu::feishu::delivery::{extract_target, Delivery};
use kimi_feishu::feishu::error::{ApiCall, ChannelError};
use kimi_feishu::feishu::events::parse_text_content;
use kimi_feishu::feishu::types::{OutboundReply, PeerId};
use kimi_feishu::json::Json;
use kimi_feishu::json_codec::{parse_text, render_text};

fn channel(domain: Option<&str>) -> FeishuChannel {
    FeishuChannel::new(
        "cli_x".to_string(),
        "secret".to_string(),
        domain.map(str::to_string),
    )
}

fn body(request: &ApiRequest) -> String {
    render_text(request.body.as_ref().expect("a body")).expect("a text")
}

fn reply(peer: &str, metadata: &str) -> OutboundReply {
    OutboundReply {
        peer_id: PeerId(peer.to_string()),
        text: "hi".to_string(),
        metadata: parse_text(metadata).expect("a document"),
    }
}

fn answer<T>(code: i64, msg: Option<&str>, data: Option<T>) -> ApiResponse<T> {
    ApiResponse {
        code,
        msg: msg.map(str::to_string),
        data,
    }
}

fn token(text: &str, expire: i64) -> ApiResponse<TokenResponseData> {
    answer(
        0,
        None,
        Some(TokenResponseData {
            tenant_access_token: text.to_string(),
            expire,
        }),
    )
}

#[test]
fn domains_lose_space_and_slashes() {
    for (domain, expected) in [
        (None, "https://open.feishu.cn"),
        (Some(""), "https://open.feishu.cn"),
        (Some(" /// "), "https://open.feishu.cn"),
        (Some(" https://x.test// "), "https://x.test"),
        (Some("https://x.test / "), "https://x.test "),
        (Some("\u{3000}https://y.test\u{85}"), "https://y.test"),
    ] {
        let request = channel(domain).endpoint_request();
        assert_eq!(request.url, format!("{expected}/callback/ws/endpoint"));
    }
}

#[test]
fn the_channel_has_names() {
    let channel = channel(None);
    assert_eq!(channel.id().0, "feishu");
    assert_eq!(channel.display_name(), "Feishu");
}

#[test]
fn the_endpoint_is_asked_for_with_the_credentials() {
    let request = channel(None).endpoint_request();
    assert_eq!(request.method, HttpMethod::Post);
    assert_eq!(request.bearer, None);
    assert_eq!(body(&request), r#"{"AppID":"cli_x","AppSecret":"secret"}"#);
}

#[test]
fn tokens_are_kept_until_shortly_before_they_expire() {
    let mut channel = channel(Some("https://x.test"));
    match channel.token_step(1_000) {
        TokenStep::Fetch(request) => {
            assert_eq!(request.method, HttpMethod::Post);
            assert_eq!(
                request.url,
                "https://x.test/open-apis/auth/v3/tenant_access_token/internal"
            );
            assert_eq!(request.bearer, None);
            assert_eq!(body(&request), r#"{"app_id":"cli_x","app_secret":"secret"}"#);
        }
        other => panic!("{other:?}"),
    }
    assert_eq!(channel.accept_token(1_000, token("t-1", 100)).expect("a token"), "t-1");
    assert!(matches!(channel.token_step(1_039), TokenStep::Cached(kept) if kept == "t-1"));
    assert!(matches!(channel.token_step(1_040), TokenStep::Fetch(_)));
    assert_eq!(channel.accept_token(1_040, token("t-2", 100)).expect("a token"), "t-2");
    assert!(matches!(channel.token_step(1_041), TokenStep::Cached(kept) if kept == "t-2"));
}

#[test]
fn refused_tokens_leave_the_one_that_was_kept() {
    let mut channel = channel(None);
    channel.accept_token(0, token("t-1", 1_000)).expect("a token");
    let error = channel
        .accept_token(0, answer(10_003, Some("invalid"), None))
        .expect_err("refused");
    assert_eq!(error.message(), "feishu tenant_access_token failed: invalid");
    let error = channel
        .accept_token(0, answer(-7, None, None))
        .expect_err("refused");
    assert_eq!(error.message(), "feishu tenant_access_token failed: -7");
    let error = channel
        .accept_token(0, answer(0, None, None))
        .expect_err("no data");
    assert_eq!(error.message(), "feishu tenant_access_token missing data");
    assert!(matches!(channel.token_step(0), TokenStep::Cached(kept) if kept == "t-1"));
}

#[test]
fn texts_go_to_a_chat_or_to_a_message() {
    let channel = channel(Some("https://x.test"));
    let fresh = channel
        .text_request("tok", "oc_1", None, "say \"hi\"")
        .expect("a request");
    assert_eq!(fresh.method, HttpMethod::Post);
    assert_eq!(fresh.bearer.as_deref(), Some("tok"));
    assert_eq!(
        fresh.url,
        "https://x.test/open-apis/im/v1/messages?receive_id_type=chat_id"
    );
    assert_eq!(
        body(&fresh),
        r#"{"content":"{\"text\":\"say \\\"hi\\\"\"}","msg_type":"text","receive_id":"oc_1"}"#
    );
    let answering = channel
        .text_request("tok", "oc_1", Some("om_1"), "hi")
        .expect("a request");
    assert_eq!(answering.url, "https://x.test/open-apis/im/v1/messages/om_1/reply");
    assert_eq!(
        body(&answering),
        r#"{"content":"{\"text\":\"hi\"}","msg_type":"text"}"#
    );
}

#[test]
fn cards_go_to_a_chat_or_to_a_message() {
    let channel = channel(Some("https://x.test"));
    let card = Json::Array(vec![Json::Unsigned(1)]);
    let fresh = channel
        .card_request("tok", "oc_1", None, &card)
        .expect("a request");
    assert_eq!(
        body(&fresh),
        r#"{"content":"[1]","msg_type":"interactive","receive_id":"oc_1"}"#
    );
    let answering = channel
        .card_request("tok", "oc_1", Some("om_1"), &card)
        .expect("a request");
    assert_eq!(answering.url, "https://x.test/open-apis/im/v1/messages/om_1/reply");
    assert_eq!(body(&answering), r#"{"content":"[1]","msg_type":"interactive"}"#);
}

#[test]
fn cards_are_put_in_the_place_of_others() {
    let channel = channel(Some("https://x.test"));
    let request = channel
        .update_request("tok", "om_1", &build_status_card("done"))
        .expect("a request");
    assert_eq!(request.method, HttpMethod::Patch);
    assert_eq!(request.url, "https://x.test/open-apis/im/v1/messages/om_1");
    assert_eq!(request.bearer.as_deref(), Some("tok"));
    assert!(body(&request).contains(r#"\"content\":\"done\""#));
    assert!(body(&request).contains(r#""msg_type":"interactive""#));
}

#[test]
fn the_bot_is_asked_about_with_a_token() {
    let request = channel(Some("https://x.test")).bot_info_request("tok");
    assert_eq!(request.method, HttpMethod::Get);
    assert_eq!(request.url, "https://x.test/open-apis/bot/v3/info");
    assert_eq!(request.bearer.as_deref(), Some("tok"));
    assert_eq!(request.body, None);
}

#[test]
fn answers_hold_their_data_or_an_error() {
    assert_eq!(answer(0, Some("ok"), Some(7)).into_data(ApiCall::BotInfo).expect("data"), 7);
    for (call, name) in [
        (ApiCall::Endpoint, "feishu websocket endpoint"),
        (ApiCall::Token, "feishu tenant_access_token"),
        (ApiCall::BotInfo, "feishu bot info"),
        (ApiCall::SendText, "feishu send text"),
        (ApiCall::SendCard, "feishu send card"),
        (ApiCall::UpdateCard, "feishu update card"),
    ] {
        let error = answer::<u8>(0, None, None).into_data(call).expect_err("no data");
        assert_eq!(error.message(), format!("{name} missing data"));
        let error = answer(99_991, None, Some(7)).into_data(call).expect_err("refused");
        assert_eq!(error.message(), format!("{name} failed: 99991"));
    }
}

#[test]
fn answers_to_messages_hold_an_identifier_or_an_error() {
    let made = |code: i64, data: Option<&str>| {
        answer(
            code,
            None,
            data.map(|message_id| SendMessageData {
                message_id: message_id.to_string(),
            }),
        )
    };
    assert_eq!(
        made(0, Some("om_1")).into_message_id(ApiCall::SendText).expect("an identifier"),
        "om_1"
    );
    let error = made(0, None).into_message_id(ApiCall::SendCard).expect_err("none");
    assert_eq!(error.message(), "feishu send card missing message_id");
    let error = made(3, Some("om_1")).into_message_id(ApiCall::SendText).expect_err("refused");
    assert_eq!(error.message(), "feishu send text failed: 3");
}

#[test]
fn updates_succeed_without_data() {
    assert!(answer::<u8>(0, None, None).updated().is_ok());
    let error = answer(1, Some("gone"), Some(2)).updated().expect_err("refused");
    assert_eq!(error.message(), "feishu update card failed: gone");
}

#[test]
fn errors_of_encoding_have_messages() {
    assert_eq!(ChannelError::TextEncode.message(), "feishu text content encode failed");
    assert_eq!(ChannelError::CardEncode.message(), "feishu card content encode failed");
    assert_eq!(
        ChannelError::ResponseEncode.message(),
        "feishu response payload encode failed"
    );
}

#[test]
fn replies_find_their_chat_and_message() {
    let (chat_id, message_id) =
        extract_target(&reply("ou_1", r#"{"chat_id": "oc_1", "message_id": 5}"#)).expect("a chat");
    assert_eq!(chat_id, "oc_1");
    assert_eq!(message_id.as_deref(), Some("5"));
    let (chat_id, message_id) =
        extract_target(&reply("oc_2", r#"{"chat_id": " ", "message_id": null}"#)).expect("a chat");
    assert_eq!(chat_id, "oc_2");
    assert_eq!(message_id, None);
    let error = extract_target(&reply("ou_1", "{}")).expect_err("no chat");
    assert_eq!(error.message(), "feishu reply missing chat_id in metadata/peer_id");
    assert!(Delivery::new(&reply("oc", "[]")).is_err());
}

#[test]
fn replies_to_a_message_go_back_where_it_came_from() {
    let mut channel = channel(None);
    let event = r#"{"header": {"event_type": "im.message.receive_v1"},
        "event": {"sender": {"sender_id": {"open_id": "ou_user"}},
        "message": {"message_id": "om_1", "chat_id": "oc_1", "chat_type": "p2p",
                    "message_type": "text", "content": "x"}}}"#;
    let message = channel
        .map_message_event(&parse_text(event).expect("a document"))
        .expect("a message");
    let delivery = Delivery::new(&OutboundReply {
        peer_id: message.peer_id,
        text: "y".to_string(),
        metadata: message.metadata,
    })
    .expect("a delivery");
    assert_eq!(delivery.chat_id(), "oc_1");
    assert_eq!(delivery.reply_to(), Some("om_1"));
}

#[test]
fn receipts_name_the_first_of_the_messages() {
    let mut delivery = Delivery::new(&reply("oc_1", r#"{"message_id": "om_0"}"#)).expect("a chat");
    delivery.record("om_1".to_string());
    delivery.record("om_2".to_string());
    let receipt = delivery.receipt();
    assert_eq!(receipt.message_id.as_deref(), Some("om_1"));
    assert_eq!(receipt.thread_id.as_deref(), Some("om_0"));
    let receipt = Delivery::new(&reply("oc_1", "{}")).expect("a chat").receipt();
    assert_eq!(receipt.message_id, None);
    assert_eq!(receipt.thread_id, None);
}

#[test]
fn tests_of_the_channel_name_the_bot() {
    let channel = channel(None);
    let info = |open_id: Option<&str>, app_name: Option<&str>| BotInfoData {
        open_id: open_id.map(str::to_string),
        app_name: app_name.map(str::to_string),
    };
    for (open_id, app_name, identity, details) in [
        (Some("ou_1"), Some("Ops"), "Ops", "open_id=ou_1"),
        (Some("ou_1"), None, "ou_1", "open_id=ou_1"),
        (None, Some("Ops"), "Ops", "app_id=cli_x"),
        (None, None, "cli_x", "app_id=cli_x"),
    ] {
        let result = channel.test_result(info(open_id, app_name));
        assert_eq!(result.channel, "feishu");
        assert_eq!(result.identity, identity);
        assert_eq!(result.details, details);
    }
}

#[test]
fn texts_are_found_in_the_content_of_their_messages() {
    for text in ["hi", "", "{\"text\":\"x\"}", "a\n\u{1}\"\\\u{1f600}"] {
        let request = channel(None)
            .text_request("tok", "oc_1", None, text)
            .expect("a request");
        let content = request
            .body
            .as_ref()
            .and_then(|body| body.get("content"))
            .and_then(|content| content.as_text())
            .expect("a content");
        assert_eq!(parse_text_content(content), text);
    }
}

#[test]
fn cards_are_found_in_the_content_of_their_messages() {
    let channel = channel(None);
    let card = build_status_card("say \"done\"");
    let sent = channel.card_request("tok", "oc_1", None, &card).expect("a request");
    let updated = channel.update_request("tok", "om_1", &card).expect("a request");
    for request in [sent, updated] {
        let content = request
            .body
            .as_ref()
            .and_then(|body| body.get("content"))
            .and_then(|content| content.as_text())
            .expect("a content");
        let found = parse_text(content).expect("a document");
        assert_eq!(render_text(&found), render_text(&card));
    }
}

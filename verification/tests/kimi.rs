use kimi_feishu::json::Json;
use kimi_feishu::json_codec::parse_text;
use kimi_feishu::kimi::auth;
use kimi_feishu::kimi::auth::{OAuthError, ProviderAuth};
use kimi_feishu::kimi::config::KimiConfig;
use kimi_feishu::kimi::provider::{
    add_reasoning_content_to_assistant_tool_calls, to_kimi_request, ChatCompletionRequest,
    ChatMessage, KimiError, KimiProvider, Model,
};
use kimi_feishu::text_map::map_of_pairs;
use reqwest::header::{HeaderMap, HeaderName, HeaderValue};

struct Message {
    role: &'static str,
    text: Option<&'static str>,
    tool_call: Option<(&'static str, &'static str, &'static str)>,
}

struct GenerateRequest {
    model: Model,
    messages: Vec<Message>,
}

fn to_openai_request(request: &GenerateRequest, stream: bool) -> ChatCompletionRequest {
    let call = |call: (&str, &str, &str)| {
        parse_text(&format!(
            r#"{{"id": "{}", "function": {{"name": "{}", "arguments": {}}}}}"#,
            call.0, call.1, call.2
        ))
        .expect("a call")
    };
    ChatCompletionRequest {
        messages: request
            .messages
            .iter()
            .map(|message| ChatMessage {
                role: message.role.to_string(),
                tool_calls: message.tool_call.map(|it| vec![call(it)]),
                reasoning_content: None,
                rest: Json::optional_text(&message.text.map(str::to_string)),
            })
            .collect(),
        rest: parse_text(&format!(
            r#"{{"model": "{}", "stream": {stream}}}"#,
            request.model.id
        ))
        .expect("a document"),
    }
}

fn request() -> GenerateRequest {
    GenerateRequest {
        model: Model::custom("K2.6", "kimi"),
        messages: vec![
            Message {
                role: "user",
                text: Some("check the host"),
                tool_call: None,
            },
            Message {
                role: "assistant",
                text: None,
                tool_call: Some(("call_1", "run_command", r#"{"cmd": "uptime"}"#)),
            },
        ],
    }
}

fn message(role: &str, tool_calls: Option<Vec<Json>>, reasoning: Option<&str>) -> ChatMessage {
    ChatMessage {
        role: role.to_string(),
        tool_calls,
        reasoning_content: reasoning.map(str::to_string),
        rest: Json::Null,
    }
}

#[test]
fn build_headers_adds_required_user_agent() {
    let provider = KimiProvider::new(KimiConfig::new("test-key")).expect("provider");
    let headers = provider.build_headers(None);

    assert_eq!(
        headers.get("Authorization"),
        Some(&"Bearer test-key".to_string())
    );
    assert_eq!(
        headers.get("User-Agent"),
        Some(&"KimiCLI/1.1.1".to_string())
    );
}

#[test]
fn build_headers_keeps_required_user_agent_when_custom_headers_are_provided() {
    let provider = KimiProvider::new(KimiConfig::new("test-key")).expect("provider");
    let custom = map_of_pairs(&[("User-Agent", "OtherClient/0.1")]);

    let headers = provider.build_headers(Some(&custom));

    assert_eq!(
        headers.get("User-Agent"),
        Some(&"KimiCLI/1.1.1".to_string())
    );
}

#[test]
fn custom_headers_replace_the_key_and_the_content_type() {
    let config = KimiConfig::new("test-key").with_user_agent("Mine/2".to_string());
    let provider = KimiProvider::new(config).expect("provider");
    let custom = map_of_pairs(&[
        ("Authorization", "Bearer other"),
        ("X-Trace", "1"),
        ("user-agent", "kept apart"),
    ]);
    let headers = provider.build_headers(Some(&custom));
    assert_eq!(headers.get("Authorization"), Some(&"Bearer other".to_string()));
    assert_eq!(headers.get("Content-Type"), Some(&"application/json".to_string()));
    assert_eq!(headers.get("X-Trace"), Some(&"1".to_string()));
    assert_eq!(headers.get("User-Agent"), Some(&"Mine/2".to_string()));
    assert_eq!(headers.get("user-agent"), Some(&"kept apart".to_string()));
    assert_eq!(headers.get("X-Other"), None);
    assert_eq!(headers.entries().len(), 5);
}

#[test]
fn kimi_request_adds_reasoning_content_to_assistant_tool_calls() {
    let request = request();

    let kimi_req = to_kimi_request(&request, false, &to_openai_request);
    let assistant = kimi_req
        .messages
        .iter()
        .find(|message| message.role == "assistant")
        .expect("assistant message");

    assert_eq!(assistant.reasoning_content, Some(String::new()));
    assert!(assistant.tool_calls.is_some());
}

#[test]
fn other_messages_stay_as_they_are() {
    let call = || Some(vec![Json::Null]);
    let mut messages = vec![
        message("assistant", call(), None),
        message("assistant", call(), Some("because")),
        message("assistant", Some(vec![]), None),
        message("assistant", None, None),
        message("user", call(), None),
        message("Assistant", call(), None),
    ];
    let expected = [Some(""), Some("because"), None, None, None, None];
    for _ in 0..2 {
        add_reasoning_content_to_assistant_tool_calls(&mut messages);
        let found: Vec<Option<&str>> = messages
            .iter()
            .map(|message| message.reasoning_content.as_deref())
            .collect();
        assert_eq!(found, expected);
        assert_eq!(messages[0].tool_calls, call());
    }
}

#[test]
fn completions_are_asked_for_under_the_address() {
    let config = KimiConfig::new("key").with_base_url("https://x.test/v2");
    let provider = KimiProvider::new(config).expect("provider");
    let call = provider.completion_call(&request(), None, true, &to_openai_request);
    assert_eq!(call.url, "https://x.test/v2/chat/completions");
    assert_eq!(call.headers.get("Authorization"), Some(&"Bearer key".to_string()));
    assert_eq!(call.body.rest.get("stream"), Some(&Json::Bool(true)));
    assert_eq!(call.body.rest.get("model"), Some(&Json::text("K2.6")));
    assert_eq!(call.body.messages.len(), 2);
    assert_eq!(call.body.messages[0].reasoning_content, None);
    assert_eq!(call.body.messages[1].reasoning_content.as_deref(), Some(""));
}

#[test]
fn configurations_have_defaults() {
    let config = KimiConfig::new("key");
    assert_eq!(config.api_key, "key");
    assert_eq!(config.base_url, "https://api.kimi.com/coding/v1");
    assert_eq!(config.user_agent, "KimiCLI/1.1.1");
    assert_eq!(KimiConfig::DEFAULT_BASE_URL, config.base_url);
    assert_eq!(KimiConfig::DEFAULT_USER_AGENT, config.user_agent);
    let config = KimiConfig::from_environment(Some("from-env".to_string()));
    assert_eq!(config.api_key, "from-env");
    assert_eq!(KimiConfig::from_environment(None).api_key, "");
    let config = config.clone().with_base_url("b").with_user_agent("u");
    assert_eq!(config.api_key, "from-env");
    assert_eq!(config.base_url, "b");
    assert_eq!(config.user_agent, "u");
}

#[test]
fn a_provider_needs_a_key() {
    match KimiProvider::new(KimiConfig::new("")) {
        Err(KimiError::MissingApiKey(name)) => assert_eq!(name, "kimi"),
        other => panic!("{other:?}"),
    }
    assert_eq!(KimiProvider::new(KimiConfig::new(" ")).expect("provider").provider_id(), "kimi");
}

#[test]
fn failures_are_told() {
    let provider = KimiProvider::new(KimiConfig::new("key")).expect("provider");
    assert!(provider.check_status(true, "200 OK", "x").is_ok());
    let error = provider.check_status(false, "401 Unauthorized", "no key").expect_err("refused");
    for (error, expected) in [
        (error, "Kimi returned error 401 Unauthorized: no key"),
        (provider.request_failed("timeout"), "Kimi request failed: timeout"),
        (provider.stream_failed("busy"), "Failed to create event source: busy"),
    ] {
        match error {
            KimiError::Provider(message) => assert_eq!(message, expected),
            other => panic!("{other:?}"),
        }
    }
}

#[test]
fn a_model_is_always_listed() {
    let provider = KimiProvider::new(KimiConfig::new("key")).expect("provider");
    for loaded in [None, Some(vec![])] {
        let models = provider.list_models(loaded);
        assert_eq!(models.len(), 1);
        assert_eq!(models[0].id, "K2.6");
        assert_eq!(models[0].provider, "kimi");
    }
    let models = provider.list_models(Some(vec![
        Model::custom("a", "one"),
        Model::custom("b", "two"),
        Model::custom("b", "three"),
    ]));
    assert_eq!(models.len(), 3);
    assert_eq!(provider.get_model(models, "b").expect("a model").provider, "two");
    assert!(provider.get_model(provider.list_models(None), "b").is_none());
}

#[test]
fn test_provider_id_name_and_methods() {
    let provider = auth::KimiProvider::new();
    let methods = provider.auth_methods();

    assert_eq!(provider.id(), "kimi");
    assert_eq!(provider.name(), "Kimi");
    assert_eq!(methods.len(), 1);
    assert_eq!(methods[0].id, "api-key");
}

#[test]
fn the_way_to_sign_in_is_a_key() {
    let provider = auth::KimiProvider::default();
    let methods = provider.auth_methods();
    assert_eq!(methods[0].label, "API Key");
    assert_eq!(
        methods[0].description.as_deref(),
        Some("Enter an existing Kimi API key")
    );
    assert_eq!(provider.api_key_env_var(), Some("KIMI_API_KEY"));
    assert_eq!(provider.oauth_config::<u8>("api-key"), None);
    match provider.post_authorize("api-key", &()) {
        Err(OAuthError::UnknownMethod(id)) => assert_eq!(id, "api-key"),
        other => panic!("{other:?}"),
    }
}

#[test]
fn test_apply_auth_headers_api_key() {
    let provider = auth::KimiProvider::new();
    let auth = ProviderAuth::api_key("sk-kimi-test-key");
    let mut headers = HeaderMap::new();

    let result = provider.apply_auth_headers(&auth, &mut headers);
    assert!(result.is_ok());
    assert_eq!(
        headers.get("authorization"),
        Some(&"Bearer sk-kimi-test-key".parse().expect("valid header"))
    );
    assert_eq!(
        headers.get("user-agent"),
        Some(&"KimiCLI/1.1.1".parse().expect("valid header"))
    );
}

#[test]
fn signing_replaces_what_was_there() {
    let provider = auth::KimiProvider::new();
    let auth = ProviderAuth::OAuth {
        access: "acc\tess \u{e9}".to_string(),
        refresh: "refresh".to_string(),
        expires: 5,
    };
    let mut headers = HeaderMap::new();
    headers.append("Authorization", HeaderValue::from_static("a"));
    headers.append("Authorization", HeaderValue::from_static("b"));
    headers.append("x-kept", HeaderValue::from_static("c"));
    for _ in 0..2 {
        assert!(provider.apply_auth_headers(&auth, &mut headers).is_ok());
        let values: Vec<&[u8]> = headers
            .get_all("authorization")
            .iter()
            .map(HeaderValue::as_bytes)
            .collect();
        assert_eq!(values, ["Bearer acc\tess \u{e9}".as_bytes()]);
        assert_eq!(headers.keys_len(), 3);
        assert_eq!(headers["x-kept"], "c");
    }
    let other = ProviderAuth::api_key("other");
    assert!(provider.apply_auth_headers(&other, &mut headers).is_ok());
    assert_eq!(headers.get_all("authorization").iter().count(), 1);
    assert_eq!(headers["authorization"], "Bearer other");
    assert_eq!(headers.keys_len(), 3);
}

#[test]
fn keys_with_control_characters_are_refused() {
    let provider = auth::KimiProvider::new();
    for key in ["a\nb", "\u{7f}", "\0", "\r", "\u{1f}"] {
        let mut headers = HeaderMap::new();
        let result = provider.apply_auth_headers(&ProviderAuth::api_key(key), &mut headers);
        assert!(matches!(result, Err(OAuthError::InvalidHeader)), "{key:?}");
        assert!(headers.is_empty());
    }
    for key in ["", "~", " ", "\u{80}"] {
        let mut headers = HeaderMap::new();
        assert!(provider
            .apply_auth_headers(&ProviderAuth::api_key(key), &mut headers)
            .is_ok());
    }
}

fn filled(names: usize) -> HeaderMap {
    let mut headers = HeaderMap::new();
    for i in 0..names {
        let name = HeaderName::from_bytes(format!("x-{i}").as_bytes()).expect("a name");
        let _ = headers.try_insert(name, HeaderValue::from_static("v"));
    }
    headers
}

#[test]
fn many_headers_leave_room_for_a_key() {
    let provider = auth::KimiProvider::new();
    let auth = ProviderAuth::api_key("key");
    let mut headers = filled(auth::HEADER_NAMES - 1);
    assert_eq!(headers.keys_len(), auth::HEADER_NAMES - 1);
    assert!(provider.apply_auth_headers(&auth, &mut headers).is_ok());
    assert_eq!(headers.keys_len(), auth::HEADER_NAMES + 1);
    assert_eq!(headers["authorization"], "Bearer key");
    let mut headers = filled(auth::HEADER_NAMES - 1);
    headers.insert("authorization", HeaderValue::from_static("old"));
    assert_eq!(headers.keys_len(), auth::HEADER_NAMES);
    assert!(provider.apply_auth_headers(&auth, &mut headers).is_ok());
    assert_eq!(headers.keys_len(), auth::HEADER_NAMES + 1);
}

#[test]
fn too_many_headers_leave_no_room() {
    let provider = auth::KimiProvider::new();
    let auth = ProviderAuth::api_key("key");
    let mut headers = filled(40_000);
    let names = headers.keys_len();
    assert!(matches!(
        provider.apply_auth_headers(&auth, &mut headers),
        Err(OAuthError::TooManyHeaders)
    ));
    assert!(headers.get("authorization").is_none());
    assert_eq!(headers.keys_len(), names);
    headers.remove("x-0");
    assert!(matches!(
        provider.apply_auth_headers(&auth, &mut headers),
        Err(OAuthError::TooManyHeaders)
    ));
    assert_eq!(headers["authorization"], "Bearer key");
    assert!(headers.get("user-agent").is_none());
    assert_eq!(headers.keys_len(), names);
}

//! What holds of the requests to Kimi.
use vstd::prelude::*;
use vstd::utf8::encode_utf8;

use reqwest::header::{HeaderMap, HeaderValue};

use super::auth::{
    header_count, header_entries, is_header_text, signed_count, signed_headers, OAuthError,
    ProviderAuth,
};
use super::config::KimiConfig;
use super::provider::{
    add_reasoning_content_to_assistant_tool_calls, completed_messages, first_model, message_views,
    request_headers, to_kimi_request, ChatCompletionRequest, ChatMessage, CompletionCall, Headers,
    KimiError, KimiProvider, MessageView, Model,
};

verus! {

/// Requests carry the name of the client that is set, whatever headers the
/// caller gives.
pub proof fn user_agent_is_required(
    api_key: Seq<char>,
    user_agent: Seq<char>,
    custom: Map<Seq<char>, Seq<char>>,
)
    ensures
        request_headers(api_key, user_agent, custom).contains_key("User-Agent"@),
        request_headers(api_key, user_agent, custom)["User-Agent"@] == user_agent,
{
}

/// Every other header that the caller gives is carried as it is.
pub proof fn custom_headers_are_carried(
    api_key: Seq<char>,
    user_agent: Seq<char>,
    custom: Map<Seq<char>, Seq<char>>,
    name: Seq<char>,
)
    requires
        custom.contains_key(name),
        name != "User-Agent"@,
    ensures
        request_headers(api_key, user_agent, custom).contains_key(name),
        request_headers(api_key, user_agent, custom)[name] == custom[name],
{
}

/// Requests carry the key and the content type, unless the caller gives others.
pub proof fn key_is_carried(
    api_key: Seq<char>,
    user_agent: Seq<char>,
    custom: Map<Seq<char>, Seq<char>>,
)
    ensures
        ({
            let headers = request_headers(api_key, user_agent, custom);
            &&& !custom.contains_key("Authorization"@) ==> headers.contains_key("Authorization"@)
                && headers["Authorization"@] == "Bearer "@ + api_key
            &&& !custom.contains_key("Content-Type"@) ==> headers.contains_key("Content-Type"@)
                && headers["Content-Type"@] == "application/json"@
        }),
{
    reveal_strlit("Authorization");
    reveal_strlit("Content-Type");
    reveal_strlit("User-Agent");
    assert("Authorization"@.len() == 13 && "Content-Type"@.len() == 12 && "User-Agent"@.len()
        == 10);
}

/// Every message that calls tools has a reasoning, one that had a reasoning
/// keeps it, and nothing else of a message changes.
pub proof fn tool_calls_have_a_reasoning(message: MessageView)
    ensures
        message.calls_tools() ==> message.completed().reasoning_content is Some,
        message.reasoning_content is Some ==> message.completed() == message,
        !message.calls_tools() ==> message.completed() == message,
        message.completed() == (MessageView {
            reasoning_content: message.completed().reasoning_content,
            ..message
        }),
{
}

/// Messages that were made ready for Kimi are ready.
pub proof fn completing_twice(messages: Seq<MessageView>)
    ensures
        completed_messages(completed_messages(messages)) == completed_messages(messages),
{
    assert(completed_messages(completed_messages(messages)) =~= completed_messages(messages));
}

/// A request that carries a secret carries that one alone and the name of the
/// client, and every other header that it had. To sign it again changes nothing;
/// to sign it with another secret puts that one in the place of the first.
pub proof fn signing_replaces(
    headers: Map<Seq<char>, Seq<Seq<u8>>>,
    secret: Seq<char>,
    other: Seq<char>,
    name: Seq<char>,
    count: nat,
)
    ensures
        ({
            let signed = signed_headers(headers, secret);
            &&& signed.contains_key("authorization"@)
            &&& signed["authorization"@] == seq![encode_utf8("Bearer "@ + secret)]
            &&& signed.contains_key("user-agent"@)
            &&& signed["user-agent"@] == seq![encode_utf8("KimiCLI/1.1.1"@)]
            &&& name != "authorization"@ && name != "user-agent"@ ==> (signed.contains_key(name)
                <==> headers.contains_key(name)) && (headers.contains_key(name) ==> signed[name]
                == headers[name])
            &&& signed_headers(signed, secret) == signed
            &&& signed_headers(signed, other) == signed_headers(headers, other)
            &&& count <= signed_count(headers, count) <= count + 2
            &&& signed_count(signed, count) == count
        }),
{
    reveal_strlit("authorization");
    reveal_strlit("user-agent");
    assert("authorization"@.len() == 13 && "user-agent"@.len() == 10);
    let signed = signed_headers(headers, secret);
    assert(signed_headers(signed, secret) =~= signed);
    assert(signed_headers(signed, other) =~= signed_headers(headers, other));
}

/// Every message of the assistant that calls tools, be they one or many, has a
/// reasoning in a request that was made ready for Kimi: the one that it had, or an
/// empty one. All other messages, and all else of a message, stay as they were.
pub proof fn assistant_tool_calls_are_reasoned(messages: Seq<MessageView>, i: int)
    requires
        0 <= i < messages.len(),
    ensures
        completed_messages(messages).len() == messages.len(),
        ({
            let message = messages[i];
            let completed = completed_messages(messages)[i];
            let calls = match message.tool_calls {
                Some(calls) => calls@.len() as int,
                None => 0,
            };
            &&& message.role == "assistant"@ && calls > 0 ==> completed.reasoning_content == Some(
                match message.reasoning_content {
                    Some(reasoning) => reasoning,
                    None => Seq::empty(),
                },
            )
            &&& message.role != "assistant"@ || calls == 0 ==> completed.reasoning_content
                == message.reasoning_content
            &&& completed.role == message.role
            &&& completed.tool_calls == message.tool_calls
            &&& completed.rest == message.rest
        }),
{
}

/// The request made for Kimi has the messages that were asked for, in their order,
/// each made ready, and everything else as it was.
pub proof fn requests_are_made_ready<R, F: Fn(&R, bool) -> ChatCompletionRequest>(
    request: &R,
    stream: bool,
    to_openai_request: &F,
    plain: ChatCompletionRequest,
    r: ChatCompletionRequest,
    i: int,
)
    requires
        call_ensures(to_kimi_request::<R, F>, (request, stream, to_openai_request), r),
        forall|made: ChatCompletionRequest| #[trigger]
            call_ensures(*to_openai_request, (request, stream), made) ==> made == plain,
        0 <= i < plain.messages@.len(),
    ensures
        r.rest == plain.rest,
        r.messages@.len() == plain.messages@.len(),
        plain.messages@[i].role@ == "assistant"@ && (plain.messages@[i].tool_calls matches Some(
            calls,
        ) && calls@.len() > 0) ==> r.messages@[i].reasoning_content is Some,
        plain.messages@[i].reasoning_content matches Some(reasoning) ==> (
        r.messages@[i].reasoning_content matches Some(kept) && kept@ == reasoning@),
        r.messages@[i].role@ == plain.messages@[i].role@,
        r.messages@[i].tool_calls == plain.messages@[i].tool_calls,
        r.messages@[i].rest == plain.messages@[i].rest,
{
    let before = message_views(plain.messages@);
    let after = message_views(r.messages@);
    assert(after == completed_messages(before));
    assert(before.len() == plain.messages@.len() && after.len() == r.messages@.len());
    assistant_tool_calls_are_reasoned(before, i);
    assert(before[i] == plain.messages@[i]@);
    assert(after[i] == r.messages@[i]@);
}

/// Completions are asked for behind the address that is set, with the headers of
/// the provider.
pub proof fn completions_are_asked_for<R, F: Fn(&R, bool) -> ChatCompletionRequest>(
    provider: &KimiProvider,
    request: &R,
    custom: Option<&Headers>,
    stream: bool,
    to_openai_request: &F,
    r: CompletionCall,
)
    requires
        call_ensures(
            KimiProvider::completion_call::<R, F>,
            (provider, request, custom, stream, to_openai_request),
            r,
        ),
    ensures
        r.url@ == provider.config().base_url@ + "/chat/completions"@,
        r.headers@.contains_key("User-Agent"@),
        r.headers@["User-Agent"@] == provider.config().user_agent@,
        custom is None ==> r.headers@.contains_key("Authorization"@)
            && r.headers@["Authorization"@] == "Bearer "@ + provider.config().api_key@,
{
    key_is_carried(provider.config().api_key@, provider.config().user_agent@, Map::empty());
}

/// A provider is made with a key, and only so.
pub proof fn providers_need_a_key(config: KimiConfig, r: Result<KimiProvider, KimiError>)
    requires
        call_ensures(KimiProvider::new, (config,), r),
    ensures
        config.api_key@.len() > 0 <==> r is Ok,
        config.api_key@.len() > 0 ==> (r matches Ok(provider) && provider.config() == config),
        config.api_key@.len() == 0 ==> (r matches Err(KimiError::MissingApiKey(name)) && name@
            == "kimi"@),
{
}

/// The models are those that are listed, all of them and in their order; where
/// none is listed there is one that is always there.
pub proof fn listed_models_are_given(
    provider: &KimiProvider,
    loaded: Option<Vec<Model>>,
    r: Vec<Model>,
)
    requires
        call_ensures(KimiProvider::list_models, (provider, loaded), r),
    ensures
        loaded matches Some(models) ==> models@.len() > 0 ==> r@ == models@,
        loaded is None || loaded->Some_0@.len() == 0 ==> r@.len() == 1 && r@[0].id@ == "K2.6"@
            && r@[0].provider@ == "kimi"@,
{
}

/// The first of several models of that identifier is found, and none where none
/// has it.
pub proof fn the_first_model_is_found(models: Seq<Model>, id: Seq<char>, i: int)
    requires
        0 <= i <= models.len(),
        forall|j: int| 0 <= j < i ==> (#[trigger] models[j]).id@ != id,
    ensures
        i < models.len() && models[i].id@ == id ==> first_model(models, id) == Some(models[i]),
        i == models.len() ==> first_model(models, id) is None,
    decreases models.len(),
{
    if models.len() > 0 && i > 0 {
        assert(models[0].id@ != id);
        let rest = models.skip(1);
        assert forall|j: int| 0 <= j < i - 1 implies (#[trigger] rest[j]).id@ != id by {
            assert(rest[j] == models[j + 1]);
        }
        if i < models.len() {
            assert(rest[i - 1] == models[i]);
        }
        the_first_model_is_found(rest, id, i - 1);
    }
}

/// A model is found by its identifier, the first of several; one that is not
/// listed is not found.
pub proof fn models_are_found(
    provider: &KimiProvider,
    models: Vec<Model>,
    id: &str,
    r: Option<Model>,
    i: int,
)
    requires
        call_ensures(KimiProvider::get_model, (provider, models, id), r),
        0 <= i <= models@.len(),
        forall|j: int| 0 <= j < i ==> (#[trigger] models@[j]).id@ != id@,
    ensures
        i < models@.len() && models@[i].id@ == id@ ==> r == Some(models@[i]),
        i == models@.len() ==> r is None,
{
    the_first_model_is_found(models@, id@, i);
}

/// An answer that tells of no success is an error that tells its status and its
/// body.
pub proof fn failures_tell_status_and_body(
    provider: &KimiProvider,
    success: bool,
    status: &str,
    body: &str,
    r: Result<(), KimiError>,
)
    requires
        call_ensures(KimiProvider::check_status, (provider, success, status, body), r),
    ensures
        success <==> r is Ok,
        !success ==> (r matches Err(KimiError::Provider(message)) && message@
            == "Kimi returned error "@ + status@ + ": "@ + body@),
{
}

/// What a request carries is the key of someone who signs in with one, and the
/// access token of anyone else.
pub proof fn secrets_are_keys_or_access_tokens(
    key: String,
    access: String,
    refresh: String,
    expires: i64,
)
    ensures
        (ProviderAuth::Api { key }).secret() == key@,
        (ProviderAuth::OAuth { access, refresh, expires }).secret() == access@,
{
}

/// Requests carry no headers but those of the provider and those of the caller.
pub proof fn no_other_headers_are_carried(
    api_key: Seq<char>,
    user_agent: Seq<char>,
    custom: Map<Seq<char>, Seq<char>>,
    name: Seq<char>,
)
    requires
        !custom.contains_key(name),
        name != "Authorization"@,
        name != "Content-Type"@,
        name != "User-Agent"@,
    ensures
        !request_headers(api_key, user_agent, custom).contains_key(name),
{
}

/// The settings that the environment gives are the default ones with its key, or
/// with an empty key where it gives none.
pub proof fn settings_come_from_the_environment(api_key: Option<String>, r: KimiConfig)
    requires
        call_ensures(KimiConfig::from_environment, (api_key,), r),
    ensures
        api_key matches Some(key) ==> r.api_key@ == key@,
        api_key is None ==> r.api_key@.len() == 0,
        r.base_url@ == "https://api.kimi.com/coding/v1"@,
        r.user_agent@ == "KimiCLI/1.1.1"@,
{
}

/// Another address or another name of the client leaves the other settings as
/// they were.
pub proof fn settings_are_changed_one_by_one<T: Into<String>>(
    config: KimiConfig,
    text: T,
    based: KimiConfig,
    named: KimiConfig,
)
    requires
        call_ensures(KimiConfig::with_base_url::<T>, (config, text), based),
        call_ensures(KimiConfig::with_user_agent::<T>, (config, text), named),
    ensures
        call_ensures(T::into, (text,), based.base_url),
        based.api_key == config.api_key,
        based.user_agent == config.user_agent,
        call_ensures(T::into, (text,), named.user_agent),
        named.api_key == config.api_key,
        named.base_url == config.base_url,
{
}

/// No exchange ends with someone signed in: the way to sign in is told to be
/// unknown, whichever it is.
pub proof fn exchanges_are_unknown<T>(
    provider: &super::auth::KimiProvider,
    method_id: &str,
    tokens: &T,
    r: Result<ProviderAuth, OAuthError>,
)
    requires
        call_ensures(
            super::auth::KimiProvider::post_authorize::<T>,
            (provider, method_id, tokens),
            r,
        ),
    ensures
        r matches Err(OAuthError::UnknownMethod(id)) && id@ == method_id@,
{
}

/// Messages of the assistant that call tools get a reasoning where they have none,
/// and no other message changes.
pub proof fn messages_get_a_reasoning(done: (), i: int)
    ensures
        forall|messages: &mut Vec<ChatMessage>| #[trigger]
            call_ensures(add_reasoning_content_to_assistant_tool_calls, (messages,), done) ==> {
                &&& final(messages)@.len() == (*messages)@.len()
                &&& 0 <= i < (*messages)@.len() ==> {
                    let before = (*messages)@[i]@;
                    let after = final(messages)@[i]@;
                    let calls = match before.tool_calls {
                        Some(calls) => calls@.len() as int,
                        None => 0,
                    };
                    &&& before.role == "assistant"@ && calls > 0 ==> after.reasoning_content
                        is Some
                    &&& before.reasoning_content is Some || before.role != "assistant"@ || calls
                        == 0 ==> after.reasoning_content == before.reasoning_content
                    &&& after.role == before.role
                    &&& after.tool_calls == before.tool_calls
                    &&& after.rest == before.rest
                }
            },
{
    assert forall|messages: &mut Vec<ChatMessage>| #[trigger]
        call_ensures(
            add_reasoning_content_to_assistant_tool_calls,
            (messages,),
            done,
        ) implies final(messages)@.len() == (*messages)@.len() && (0 <= i < (*messages)@.len()
        ==> final(messages)@[i]@ == completed_messages(message_views((*messages)@))[i]
        && message_views((*messages)@)[i] == (*messages)@[i]@) by {
        let before = message_views((*messages)@);
        let after = message_views(final(messages)@);
        assert(after == completed_messages(before));
        assert(before.len() == (*messages)@.len() && after.len() == final(messages)@.len());
        if 0 <= i < (*messages)@.len() {
            assert(after[i] == final(messages)@[i]@);
        }
    }
    assert forall|messages: Seq<MessageView>| 0 <= i < messages.len() implies {
        let message = messages[i];
        let completed = (#[trigger] completed_messages(messages))[i];
        let calls = match message.tool_calls {
            Some(calls) => calls@.len() as int,
            None => 0,
        };
        &&& message.role == "assistant"@ && calls > 0 ==> completed.reasoning_content is Some
        &&& message.reasoning_content is Some || message.role != "assistant"@ || calls == 0
            ==> completed.reasoning_content == message.reasoning_content
        &&& completed.role == message.role
        &&& completed.tool_calls == message.tool_calls
        &&& completed.rest == message.rest
    } by {
        assistant_tool_calls_are_reasoned(messages, i);
    }
}

/// A request is signed with any secret that has no control characters but tabs,
/// and with no other. One that was signed carries the secret and the name of the
/// client in place of what it carried under their names, and all else as before.
pub proof fn requests_are_signed(
    provider: &super::auth::KimiProvider,
    auth: &ProviderAuth,
    secret: Seq<char>,
    r: Result<(), OAuthError>,
    name: Seq<char>,
)
    requires
        *auth matches ProviderAuth::Api { key } ==> secret == key@,
        *auth matches ProviderAuth::OAuth { access, .. } ==> secret == access@,
    ensures
        (exists|i: int|
            0 <= i < secret.len() && #[trigger] secret[i] != '\t' && (secret[i] < ' ' || secret[i]
                == '\u{7f}')) ==> forall|headers: &mut HeaderMap<HeaderValue>| #[trigger]
            call_ensures(
                super::auth::KimiProvider::apply_auth_headers,
                (provider, auth, headers),
                r,
            ) ==> (r matches Err(OAuthError::InvalidHeader)) && *final(headers) == *headers,
        (forall|i: int|
            0 <= i < secret.len() ==> #[trigger] secret[i] == '\t' || (secret[i] >= ' ' && secret[i]
                != '\u{7f}')) ==> forall|headers: &mut HeaderMap<HeaderValue>| #[trigger]
            call_ensures(
                super::auth::KimiProvider::apply_auth_headers,
                (provider, auth, headers),
                r,
            ) ==> (header_count(*headers) < 6553 ==> r is Ok) && !(r matches Err(
                OAuthError::InvalidHeader,
            )),
        forall|headers: &mut HeaderMap<HeaderValue>| #[trigger]
            call_ensures(
                super::auth::KimiProvider::apply_auth_headers,
                (provider, auth, headers),
                r,
            ) && r is Ok ==> {
                let before = header_entries(*headers);
                let after = header_entries(*final(headers));
                &&& after.contains_key("authorization"@)
                &&& after["authorization"@] == seq![encode_utf8("Bearer "@ + secret)]
                &&& after.contains_key("user-agent"@)
                &&& after["user-agent"@] == seq![encode_utf8("KimiCLI/1.1.1"@)]
                &&& name != "authorization"@ && name != "user-agent"@ ==> (after.contains_key(name)
                    <==> before.contains_key(name)) && (before.contains_key(name) ==> after[name]
                    == before[name])
            },
{
    let text = "Bearer "@ + secret;
    reveal_strlit("Bearer ");
    assert(secret == auth.secret());
    if exists|i: int|
        0 <= i < secret.len() && #[trigger] secret[i] != '\t' && (secret[i] < ' ' || secret[i]
            == '\u{7f}') {
        let i = choose|i: int|
            0 <= i < secret.len() && #[trigger] secret[i] != '\t' && (secret[i] < ' ' || secret[i]
                == '\u{7f}');
        assert(text[i + 7] == secret[i]);
        assert(!is_header_text(text));
    } else {
        assert forall|i: int| 0 <= i < text.len() implies (#[trigger] text[i] == '\t' || (text[i]
            >= ' ' && text[i] != '\u{7f}')) by {
            if i >= 7 {
                assert(text[i] == secret[i - 7]);
            } else {
                assert(text[i] == "Bearer "@[i]);
            }
        }
        assert(is_header_text(text));
    }
    reveal_strlit("authorization");
    reveal_strlit("user-agent");
    assert("authorization"@.len() == 13 && "user-agent"@.len() == 10);
}

/// The ways to fail are told with their causes.
pub proof fn causes_are_told(provider: &KimiProvider, cause: &str, sent: KimiError, opened: KimiError)
    requires
        call_ensures(KimiProvider::request_failed, (provider, cause), sent),
        call_ensures(KimiProvider::stream_failed, (provider, cause), opened),
    ensures
        sent matches KimiError::Provider(message) && message@ == "Kimi request failed: "@ + cause@,
        opened matches KimiError::Provider(message) && message@
            == "Failed to create event source: "@ + cause@,
{
}

/// Settings, keys and models are made of what they are given.
pub proof fn what_is_given_is_kept<T: Into<String>, P: Into<String>>(
    text: T,
    other: P,
    config: KimiConfig,
    auth: ProviderAuth,
    model: Model,
)
    requires
        call_ensures(KimiConfig::new::<T>, (text,), config),
        call_ensures(ProviderAuth::api_key::<T>, (text,), auth),
        call_ensures(Model::custom::<T, P>, (text, other), model),
    ensures
        call_ensures(T::into, (text,), config.api_key),
        config.base_url@ == "https://api.kimi.com/coding/v1"@,
        config.user_agent@ == "KimiCLI/1.1.1"@,
        auth matches ProviderAuth::Api { key } && call_ensures(T::into, (text,), key),
        call_ensures(T::into, (text,), model.id),
        call_ensures(P::into, (other,), model.provider),
{
}

} // verus!

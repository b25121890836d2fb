//! Kimi as a provider of chat completions.
use vstd::prelude::*;
use vstd::string::StringExecFns;

use crate::json::{opt_text, Json};
use crate::text::{joined, same_text};
use crate::text_map::TextMap;

use super::config::KimiConfig;

verus! {

/// The headers of a request.
pub type Headers = TextMap;

/// What went wrong.
#[derive(Debug)]
pub enum KimiError {
    /// There is no key for the provider of that name.
    MissingApiKey(String),
    /// The provider, or the way to it, failed.
    Provider(String),
}

/// A message of a chat. What its other members are is left to whoever made it.
#[derive(Debug)]
pub struct ChatMessage {
    pub role: String,
    pub tool_calls: Option<Vec<Json>>,
    pub reasoning_content: Option<String>,
    pub rest: Json,
}

/// A request for a completion of a chat. What its other members are is left to
/// whoever made it.
#[derive(Debug)]
pub struct ChatCompletionRequest {
    pub messages: Vec<ChatMessage>,
    pub rest: Json,
}

/// The content of a message of a chat.
pub struct MessageView {
    pub role: Seq<char>,
    pub tool_calls: Option<Vec<Json>>,
    pub reasoning_content: Option<Seq<char>>,
    pub rest: Json,
}

impl View for ChatMessage {
    type V = MessageView;

    open spec fn view(&self) -> MessageView {
        MessageView {
            role: self.role@,
            tool_calls: self.tool_calls,
            reasoning_content: opt_text(self.reasoning_content),
            rest: self.rest,
        }
    }
}

impl MessageView {
    /// Whether the message is one of the assistant that calls tools.
    pub open spec fn calls_tools(self) -> bool {
        self.role == "assistant"@ && self.tool_calls is Some && self.tool_calls->Some_0@.len() > 0
    }

    /// The message as Kimi takes it: one that calls tools has a reasoning, be
    /// it an empty one.
    pub open spec fn completed(self) -> MessageView {
        if self.calls_tools() && self.reasoning_content is None {
            MessageView { reasoning_content: Some(Seq::empty()), ..self }
        } else {
            self
        }
    }
}

/// The content of messages.
pub open spec fn message_views(messages: Seq<ChatMessage>) -> Seq<MessageView> {
    messages.map_values(|message: ChatMessage| message@)
}

/// Messages as Kimi takes them.
pub open spec fn completed_messages(messages: Seq<MessageView>) -> Seq<MessageView> {
    messages.map_values(|message: MessageView| message.completed())
}

/// Gives the messages that call tools a reasoning where they have none.
pub fn add_reasoning_content_to_assistant_tool_calls(messages: &mut Vec<ChatMessage>)
    ensures
        message_views(final(messages)@) == completed_messages(message_views(old(messages)@)),
{
    let ghost before = messages@;
    let mut i: usize = 0;
    while i < messages.len()
        invariant
            i <= messages@.len(),
            messages@.len() == before.len(),
            forall|j: int| 0 <= j < i ==> (#[trigger] messages@[j])@ == before[j]@.completed(),
            forall|j: int| i <= j < messages@.len() ==> #[trigger] messages@[j] == before[j],
        decreases messages@.len() - i,
    {
        let message = &messages[i];
        let has_calls = match &message.tool_calls {
            Some(tool_calls) => tool_calls.len() > 0,
            None => false,
        };
        let calls_tools = has_calls && same_text(message.role.as_str(), "assistant");
        let silent = message.reasoning_content.is_none();
        if calls_tools && silent {
            messages[i].reasoning_content = Some(String::new());
        }
        i += 1;
    }
    assert(message_views(messages@) =~= completed_messages(message_views(before)));
}

/// The request for a completion as Kimi takes it, out of a request that
/// `to_openai_request` turns into one for a completion.
pub fn to_kimi_request<R, F: Fn(&R, bool) -> ChatCompletionRequest>(
    request: &R,
    stream: bool,
    to_openai_request: &F,
) -> (r: ChatCompletionRequest)
    requires
        call_requires(*to_openai_request, (request, stream)),
    ensures
        exists|plain: ChatCompletionRequest| #[trigger]
            call_ensures(*to_openai_request, (request, stream), plain) && message_views(r.messages@)
                == completed_messages(message_views(plain.messages@)) && r.rest == plain.rest,
{
    let mut kimi_req = to_openai_request(request, stream);
    let ghost plain = kimi_req;
    add_reasoning_content_to_assistant_tool_calls(&mut kimi_req.messages);
    assert(call_ensures(*to_openai_request, (request, stream), plain));
    kimi_req
}

/// A model.
#[derive(Debug)]
pub struct Model {
    pub id: String,
    pub provider: String,
}

impl Model {
    /// A model that no registry lists.
    pub fn custom<I: Into<String>, P: Into<String>>(id: I, provider: P) -> (r: Self)
        ensures
            call_ensures(I::into, (id,), r.id),
            call_ensures(P::into, (provider,), r.provider),
    {
        Model { id: id.into(), provider: provider.into() }
    }
}

/// A request that is ready to be sent.
#[derive(Debug)]
pub struct CompletionCall {
    pub url: String,
    pub headers: Headers,
    pub body: ChatCompletionRequest,
}

/// Kimi as a provider of chat completions.
#[derive(Debug)]
pub struct KimiProvider {
    config: KimiConfig,
}

/// The headers of a request with those settings: the ones that the caller
/// gives count more than the key and the content type, and less than the name
/// of the client.
pub open spec fn request_headers(
    api_key: Seq<char>,
    user_agent: Seq<char>,
    custom: Map<Seq<char>, Seq<char>>,
) -> Map<Seq<char>, Seq<char>> {
    Map::<Seq<char>, Seq<char>>::empty().insert("Authorization"@, "Bearer "@ + api_key).insert(
        "Content-Type"@,
        "application/json"@,
    ).union_prefer_right(custom).insert("User-Agent"@, user_agent)
}

/// Headers that may be missing.
pub open spec fn opt_headers(headers: Option<&Headers>) -> Map<Seq<char>, Seq<char>> {
    match headers {
        Some(headers) => headers@,
        None => Map::empty(),
    }
}

/// Whether a model has that identifier.
pub open spec fn has_id(model: Model, id: Seq<char>) -> bool {
    model.id@ == id
}

/// The first of the models that has that identifier.
pub open spec fn first_model(models: Seq<Model>, id: Seq<char>) -> Option<Model>
    decreases models.len(),
{
    if models.len() == 0 {
        None
    } else if has_id(models[0], id) {
        Some(models[0])
    } else {
        first_model(models.skip(1), id)
    }
}

impl KimiProvider {
    /// The settings.
    pub closed spec fn config(&self) -> KimiConfig {
        self.config
    }

    /// A provider with those settings, which need a key.
    pub fn new(config: KimiConfig) -> (r: Result<Self, KimiError>)
        ensures
            if config.api_key@.len() == 0 {
                r matches Err(KimiError::MissingApiKey(name)) && name@ == "kimi"@
            } else {
                r matches Ok(provider) && provider.config() == config
            },
    {
        if config.api_key.as_str().is_empty() {
            return Err(KimiError::MissingApiKey("kimi".to_owned()));
        }
        Ok(KimiProvider { config })
    }

    /// The name of the provider.
    pub fn provider_id(&self) -> (r: &str)
        ensures
            r@ == "kimi"@,
    {
        "kimi"
    }

    /// The headers of a request.
    pub fn build_headers(&self, custom_headers: Option<&Headers>) -> (r: Headers)
        ensures
            r@ == request_headers(
                self.config().api_key@,
                self.config().user_agent@,
                opt_headers(custom_headers),
            ),
    {
        let mut headers = Headers::new();
        headers.insert(
            "Authorization".to_owned(),
            joined("Bearer ", self.config.api_key.as_str()),
        );
        headers.insert("Content-Type".to_owned(), "application/json".to_owned());
        let ghost own = headers@;
        if let Some(custom) = custom_headers {
            headers.merge_with(custom);
        }
        assert(headers@ =~= own.union_prefer_right(opt_headers(custom_headers)));
        headers.insert("User-Agent".to_owned(), self.config.user_agent.clone());
        headers
    }

    /// The request that asks for a completion, at once or as a stream.
    pub fn completion_call<R, F: Fn(&R, bool) -> ChatCompletionRequest>(
        &self,
        request: &R,
        custom_headers: Option<&Headers>,
        stream: bool,
        to_openai_request: &F,
    ) -> (r: CompletionCall)
        requires
            call_requires(*to_openai_request, (request, stream)),
        ensures
            r.url@ == self.config().base_url@ + "/chat/completions"@,
            r.headers@ == request_headers(
                self.config().api_key@,
                self.config().user_agent@,
                opt_headers(custom_headers),
            ),
            exists|plain: ChatCompletionRequest| #[trigger]
                call_ensures(*to_openai_request, (request, stream), plain) && message_views(
                    r.body.messages@,
                ) == completed_messages(message_views(plain.messages@)) && r.body.rest
                    == plain.rest,
    {
        CompletionCall {
            url: joined(self.config.base_url.as_str(), "/chat/completions"),
            headers: self.build_headers(custom_headers),
            body: to_kimi_request(request, stream, to_openai_request),
        }
    }

    /// A request could not be sent.
    pub fn request_failed(&self, cause: &str) -> (r: KimiError)
        ensures
            r matches KimiError::Provider(message) && message@ == "Kimi request failed: "@
                + cause@,
    {
        KimiError::Provider(joined("Kimi request failed: ", cause))
    }

    /// A stream could not be opened.
    pub fn stream_failed(&self, cause: &str) -> (r: KimiError)
        ensures
            r matches KimiError::Provider(message) && message@
                == "Failed to create event source: "@ + cause@,
    {
        KimiError::Provider(joined("Failed to create event source: ", cause))
    }

    /// What the status of an answer means: an error that tells the status and
    /// the body, unless it tells of success.
    pub fn check_status(&self, success: bool, status: &str, body: &str) -> (r: Result<
        (),
        KimiError,
    >)
        ensures
            if success {
                r is Ok
            } else {
                r matches Err(KimiError::Provider(message)) && message@ == "Kimi returned error "@
                    + status@ + ": "@ + body@
            },
    {
        if success {
            return Ok(());
        }
        let mut message = joined("Kimi returned error ", status);
        message.append(": ");
        message.append(body);
        Err(KimiError::Provider(message))
    }

    /// The models, out of those that a registry lists; one model that is
    /// always there where it lists none.
    pub fn list_models(&self, loaded: Option<Vec<Model>>) -> (r: Vec<Model>)
        ensures
            match loaded {
                Some(models) if models@.len() > 0 => r@ == models@,
                _ => r@.len() == 1 && r@[0].id@ == "K2.6"@ && r@[0].provider@ == "kimi"@,
            },
    {
        let mut models = match loaded {
            Some(models) => models,
            None => Vec::new(),
        };
        if models.len() == 0 {
            models.push(Model::custom("K2.6", "kimi"));
        }
        models
    }

    /// The first of the models that has that identifier.
    pub fn get_model(&self, models: Vec<Model>, id: &str) -> (r: Option<Model>)
        ensures
            match r {
                Some(model) => exists|i: int|
                    0 <= i < models@.len() && #[trigger] models@[i] == model && has_id(model, id@)
                        && forall|j: int| 0 <= j < i ==> !has_id(#[trigger] models@[j], id@),
                None => forall|i: int| 0 <= i < models@.len() ==> !has_id(#[trigger] models@[i], id@),
            },
            r == first_model(models@, id@),
    {
        let mut left = models;
        let mut i: usize = 0;
        assert(models@.skip(0) =~= models@);
        while i < left.len()
            invariant
                i <= left@.len(),
                left@ == models@,
                first_model(models@, id@) == first_model(models@.skip(i as int), id@),
                forall|j: int| 0 <= j < i ==> !has_id(#[trigger] models@[j], id@),
            decreases left@.len() - i,
        {
            assert(models@.skip(i as int)[0] == models@[i as int]);
            assert(models@.skip(i as int).skip(1) =~= models@.skip(i + 1));
            if same_text(left[i].id.as_str(), id) {
                let model = left.remove(i);
                assert(models@[i as int] == model && has_id(model, id@));
                return Some(model);
            }
            i += 1;
        }
        None
    }
}

} // verus!

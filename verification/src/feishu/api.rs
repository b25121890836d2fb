//! The calls of the platform's API: what is asked, and what the answers mean.
use vstd::prelude::*;
use vstd::string::StringExecFns;

use crate::json::{opt_text, Json, JsonObject, JsonView};
use crate::json_codec::{document_in_text, document_text, is_readable, render_text, MAX_LEVELS};
use crate::number::{signed_decimal, signed_text};
use crate::text::joined;

use super::channel::{ChannelView, FeishuChannel, TokenCache};
use super::error::{ApiCall, ChannelError, ErrorView};
use super::events::content_text;
use super::types::ChannelTestResult;

verus! {

/// How many seconds before it expires a token is no longer used.
pub const TOKEN_REFRESH_SKEW_SECS: i64 = 60;

/// What a request does.
#[derive(Debug, Clone, Copy, PartialEq, Eq, Structural)]
pub enum HttpMethod {
    Get,
    Post,
    Patch,
}

/// A request to the platform.
#[derive(Debug)]
pub struct ApiRequest {
    pub method: HttpMethod,
    pub url: String,
    pub bearer: Option<String>,
    pub body: Option<Json>,
}

/// The content of a request.
pub struct RequestView {
    pub method: HttpMethod,
    pub url: Seq<char>,
    pub bearer: Option<Seq<char>>,
    pub body: Option<JsonView>,
}

impl View for ApiRequest {
    type V = RequestView;

    open spec fn view(&self) -> RequestView {
        RequestView {
            method: self.method,
            url: self.url@,
            bearer: opt_text(self.bearer),
            body: match self.body {
                Some(body) => Some(body@),
                None => None,
            },
        }
    }
}

/// An answer of the platform.
#[derive(Debug)]
pub struct ApiResponse<T> {
    pub code: i64,
    pub msg: Option<String>,
    pub data: Option<T>,
}

/// Where the websocket is to be found.
#[derive(Debug)]
pub struct EndpointData {
    pub url: String,
    pub client_config: Option<EndpointClientConfig>,
}

/// How the platform wants the websocket used.
#[derive(Debug)]
pub struct EndpointClientConfig {
    pub ping_interval: Option<u64>,
}

/// A token of the API, and for how many seconds it is good.
#[derive(Debug)]
pub struct TokenResponseData {
    pub tenant_access_token: String,
    pub expire: i64,
}

/// The message that was made.
#[derive(Debug)]
pub struct SendMessageData {
    pub message_id: String,
}

/// Who the bot is.
#[derive(Debug)]
pub struct BotInfoData {
    pub open_id: Option<String>,
    pub app_name: Option<String>,
}

/// Why the platform refused a call: what it says, or else its code.
pub open spec fn refusal(msg: Option<Seq<char>>, code: int) -> Seq<char> {
    match msg {
        Some(msg) => msg,
        None => signed_decimal(code),
    }
}

fn refused(call: ApiCall, msg: Option<String>, code: i64) -> (r: ChannelError)
    ensures
        r@ == (ErrorView::Refused { call, reason: refusal(opt_text(msg), code as int) }),
{
    let reason = match msg {
        Some(msg) => msg,
        None => signed_text(code),
    };
    ChannelError::Refused { call, reason }
}

impl<T> ApiResponse<T> {
    /// The data of an answer; an error where the call was refused or the data
    /// are missing.
    pub fn into_data(self, call: ApiCall) -> (r: Result<T, ChannelError>)
        ensures
            if self.code != 0 {
                r matches Err(error) && error@ == (ErrorView::Refused {
                    call,
                    reason: refusal(opt_text(self.msg), self.code as int),
                })
            } else {
                match self.data {
                    Some(data) => r == Ok::<T, ChannelError>(data),
                    None => r matches Err(error) && error@ == (ErrorView::MissingData { call }),
                }
            },
    {
        if self.code != 0 {
            return Err(refused(call, self.msg, self.code));
        }
        match self.data {
            Some(data) => Ok(data),
            None => Err(ChannelError::MissingData { call }),
        }
    }

    /// Whether a card was updated; what else the answer holds does not count.
    pub fn updated(self) -> (r: Result<(), ChannelError>)
        ensures
            if self.code == 0 {
                r is Ok
            } else {
                r matches Err(error) && error@ == (ErrorView::Refused {
                    call: ApiCall::UpdateCard,
                    reason: refusal(opt_text(self.msg), self.code as int),
                })
            },
    {
        if self.code == 0 {
            Ok(())
        } else {
            Err(refused(ApiCall::UpdateCard, self.msg, self.code))
        }
    }
}

impl ApiResponse<SendMessageData> {
    /// The identifier of the message that was made.
    pub fn into_message_id(self, call: ApiCall) -> (r: Result<String, ChannelError>)
        ensures
            if self.code != 0 {
                r matches Err(error) && error@ == (ErrorView::Refused {
                    call,
                    reason: refusal(opt_text(self.msg), self.code as int),
                })
            } else {
                match self.data {
                    Some(data) => r matches Ok(message_id) && message_id@ == data.message_id@,
                    None => r matches Err(error) && error@ == (ErrorView::MissingMessageId {
                        call,
                    }),
                }
            },
    {
        if self.code != 0 {
            return Err(refused(call, self.msg, self.code));
        }
        match self.data {
            Some(data) => Ok(data.message_id),
            None => Err(ChannelError::MissingMessageId { call }),
        }
    }
}

/// How a token comes to hand.
#[derive(Debug)]
pub enum TokenStep {
    /// It is there already.
    Cached(String),
    /// It has to be asked for.
    Fetch(ApiRequest),
}

/// What a message is.
#[derive(Debug, Clone, Copy, PartialEq, Eq, Structural)]
pub enum MessageKind {
    Text,
    Card,
}

impl MessageKind {
    /// How the API names it.
    pub open spec fn name(self) -> Seq<char> {
        match self {
            MessageKind::Text => "text"@,
            MessageKind::Card => "interactive"@,
        }
    }
}

fn kind_name(kind: MessageKind) -> (r: &'static str)
    ensures
        r@ == kind.name(),
{
    match kind {
        MessageKind::Text => "text",
        MessageKind::Card => "interactive",
    }
}

/// The content of a text message.
pub open spec fn text_document(text: Seq<char>) -> JsonView {
    JsonView::Object(
        Map::<Seq<char>, JsonView>::empty().insert("text"@, JsonView::Text(text)),
    )
}

/// A message of that kind and content.
pub open spec fn message_body(kind: MessageKind, content: Seq<char>) -> Map<
    Seq<char>,
    JsonView,
> {
    Map::<Seq<char>, JsonView>::empty().insert("msg_type"@, JsonView::Text(kind.name())).insert(
        "content"@,
        JsonView::Text(content),
    )
}

impl ChannelView {
    /// The request for the address of the websocket.
    pub open spec fn endpoint_request(self) -> RequestView {
        RequestView {
            method: HttpMethod::Post,
            url: self.domain + "/callback/ws/endpoint"@,
            bearer: None,
            body: Some(
                JsonView::Object(
                    Map::<Seq<char>, JsonView>::empty().insert(
                        "AppID"@,
                        JsonView::Text(self.app_id),
                    ).insert("AppSecret"@, JsonView::Text(self.app_secret)),
                ),
            ),
        }
    }

    /// The request for a token.
    pub open spec fn token_request(self) -> RequestView {
        RequestView {
            method: HttpMethod::Post,
            url: self.domain + "/open-apis/auth/v3/tenant_access_token/internal"@,
            bearer: None,
            body: Some(
                JsonView::Object(
                    Map::<Seq<char>, JsonView>::empty().insert(
                        "app_id"@,
                        JsonView::Text(self.app_id),
                    ).insert("app_secret"@, JsonView::Text(self.app_secret)),
                ),
            ),
        }
    }

    /// The state after a token came that is good for so many seconds from then on.
    pub open spec fn with_token(self, token: Seq<char>, fetched_at: int, expire: int) -> ChannelView {
        ChannelView { token: Some((token, fetched_at + expire)), ..self }
    }

    /// The token that can be used at that second, where there is one.
    pub open spec fn usable_token(self, now: int) -> Option<Seq<char>> {
        match self.token {
            Some((token, expires_at)) if expires_at - TOKEN_REFRESH_SKEW_SECS > now => Some(token),
            _ => None,
        }
    }

    /// The request for who the bot is.
    pub open spec fn bot_info_request(self, token: Seq<char>) -> RequestView {
        RequestView {
            method: HttpMethod::Get,
            url: self.domain + "/open-apis/bot/v3/info"@,
            bearer: Some(token),
            body: None,
        }
    }

    /// The request that makes a message: an answer to another one, or a new one
    /// in a chat.
    pub open spec fn message_request(
        self,
        token: Seq<char>,
        chat_id: Seq<char>,
        reply_to: Option<Seq<char>>,
        kind: MessageKind,
        content: Seq<char>,
    ) -> RequestView {
        RequestView {
            method: HttpMethod::Post,
            url: match reply_to {
                Some(message_id) => self.domain + "/open-apis/im/v1/messages/"@ + message_id
                    + "/reply"@,
                None => self.domain + "/open-apis/im/v1/messages?receive_id_type=chat_id"@,
            },
            bearer: Some(token),
            body: Some(
                JsonView::Object(
                    match reply_to {
                        Some(_) => message_body(kind, content),
                        None => message_body(kind, content).insert(
                            "receive_id"@,
                            JsonView::Text(chat_id),
                        ),
                    },
                ),
            ),
        }
    }

    /// The request that puts another card in the place of the one a message
    /// shows.
    pub open spec fn update_request(
        self,
        token: Seq<char>,
        message_id: Seq<char>,
        content: Seq<char>,
    ) -> RequestView {
        RequestView {
            method: HttpMethod::Patch,
            url: self.domain + "/open-apis/im/v1/messages/"@ + message_id,
            bearer: Some(token),
            body: Some(JsonView::Object(message_body(MessageKind::Card, content))),
        }
    }
}

/// A text that may be missing, as one that is lent.
pub open spec fn opt_str(text: Option<&str>) -> Option<Seq<char>> {
    match text {
        Some(text) => Some(text@),
        None => None,
    }
}

impl FeishuChannel {
    /// The request for the address of the websocket.
    pub fn endpoint_request(&self) -> (r: ApiRequest)
        ensures
            r@ == self@.endpoint_request(),
    {
        let body = JsonObject::new().with("AppID", Json::text(self.app_id().as_str())).with(
            "AppSecret",
            Json::text(self.app_secret().as_str()),
        ).build();
        ApiRequest {
            method: HttpMethod::Post,
            url: joined(self.domain().as_str(), "/callback/ws/endpoint"),
            bearer: None,
            body: Some(body),
        }
    }

    /// How a token comes to hand at that second.
    pub fn token_step(&self, now: i64) -> (r: TokenStep)
        ensures
            match self@.usable_token(now as int) {
                Some(token) => r matches TokenStep::Cached(cached) && cached@ == token,
                None => r matches TokenStep::Fetch(request) && request@ == self@.token_request(),
            },
    {
        if let Some(cache) = self.token_cache() {
            if cache.expires_at as i128 - TOKEN_REFRESH_SKEW_SECS as i128 > now as i128 {
                return TokenStep::Cached(cache.token.clone());
            }
        }
        let body = JsonObject::new().with("app_id", Json::text(self.app_id().as_str())).with(
            "app_secret",
            Json::text(self.app_secret().as_str()),
        ).build();
        TokenStep::Fetch(
            ApiRequest {
                method: HttpMethod::Post,
                url: joined(
                    self.domain().as_str(),
                    "/open-apis/auth/v3/tenant_access_token/internal",
                ),
                bearer: None,
                body: Some(body),
            },
        )
    }

    /// Takes the answer to a request for a token in that was made at that
    /// second. A token is kept until it expires; a refusal leaves the one that
    /// was kept.
    pub fn accept_token(&mut self, now: i64, response: ApiResponse<TokenResponseData>) -> (r:
        Result<String, ChannelError>)
        requires
            old(self).wf(),
            response.code == 0 ==> (response.data matches Some(data) ==> i64::MIN <= now
                + data.expire <= i64::MAX),
        ensures
            final(self).wf(),
            if response.code != 0 {
                &&& final(self)@ == old(self)@
                &&& r matches Err(error)
                &&& error@ == (ErrorView::Refused {
                    call: ApiCall::Token,
                    reason: refusal(opt_text(response.msg), response.code as int),
                })
            } else {
                match response.data {
                    Some(data) => {
                        &&& final(self)@ == old(self)@.with_token(
                            data.tenant_access_token@,
                            now as int,
                            data.expire as int,
                        )
                        &&& r matches Ok(token)
                        &&& token@ == data.tenant_access_token@
                    },
                    None => {
                        &&& final(self)@ == old(self)@
                        &&& r matches Err(error)
                        &&& error@ == (ErrorView::MissingData { call: ApiCall::Token })
                    },
                }
            },
    {
        match response.into_data(ApiCall::Token) {
            Ok(data) => {
                let token = data.tenant_access_token.clone();
                self.keep_token(
                    TokenCache { token: data.tenant_access_token, expires_at: now + data.expire },
                );
                Ok(token)
            },
            Err(error) => Err(error),
        }
    }

    /// The request for who the bot is.
    pub fn bot_info_request(&self, token: &str) -> (r: ApiRequest)
        ensures
            r@ == self@.bot_info_request(token@),
    {
        ApiRequest {
            method: HttpMethod::Get,
            url: joined(self.domain().as_str(), "/open-apis/bot/v3/info"),
            bearer: Some(token.to_owned()),
            body: None,
        }
    }

    /// The request that makes a message of that kind and content.
    pub fn message_request(
        &self,
        token: &str,
        chat_id: &str,
        reply_to: Option<&str>,
        kind: MessageKind,
        content: &str,
    ) -> (r: ApiRequest)
        ensures
            r@ == self@.message_request(token@, chat_id@, opt_str(reply_to), kind, content@),
    {
        let body = JsonObject::new().with("msg_type", Json::text(kind_name(kind))).with(
            "content",
            Json::text(content),
        );
        match reply_to {
            Some(message_id) => {
                let mut url = joined(self.domain().as_str(), "/open-apis/im/v1/messages/");
                url.append(message_id);
                url.append("/reply");
                ApiRequest {
                    method: HttpMethod::Post,
                    url,
                    bearer: Some(token.to_owned()),
                    body: Some(body.build()),
                }
            },
            None => ApiRequest {
                method: HttpMethod::Post,
                url: joined(
                    self.domain().as_str(),
                    "/open-apis/im/v1/messages?receive_id_type=chat_id",
                ),
                bearer: Some(token.to_owned()),
                body: Some(body.with("receive_id", Json::text(chat_id)).build()),
            },
        }
    }

    /// The request that makes a text message. Whoever reads the content of the
    /// message finds the text in it.
    pub fn text_request(
        &self,
        token: &str,
        chat_id: &str,
        reply_to: Option<&str>,
        text: &str,
    ) -> (r: Result<ApiRequest, ChannelError>)
        ensures
            r matches Ok(request) && request@ == self@.message_request(
                token@,
                chat_id@,
                opt_str(reply_to),
                MessageKind::Text,
                document_text(text_document(text@)),
            ),
            document_in_text(document_text(text_document(text@))) == Some(text_document(text@)),
            ({
                let content = document_text(text_document(text@));
                content_text(content, document_in_text(content)) == text@
            }),
    {
        let document = JsonObject::new().with("text", Json::text(text)).build();
        proof {
            reveal_with_fuel(is_readable, 2);
        }
        match render_text(&document) {
            Some(content) => Ok(
                self.message_request(token, chat_id, reply_to, MessageKind::Text, content.as_str()),
            ),
            None => Err(ChannelError::TextEncode),
        }
    }

    /// The request that makes a message that shows a card. Whoever reads the
    /// content of the message finds the card in it.
    pub fn card_request(
        &self,
        token: &str,
        chat_id: &str,
        reply_to: Option<&str>,
        card: &Json,
    ) -> (r: Result<ApiRequest, ChannelError>)
        ensures
            r matches Ok(request) && request@ == self@.message_request(
                token@,
                chat_id@,
                opt_str(reply_to),
                MessageKind::Card,
                document_text(card@),
            ),
            is_readable(card@, MAX_LEVELS as nat) ==> document_in_text(document_text(card@))
                == Some(card@),
    {
        match render_text(card) {
            Some(content) => Ok(
                self.message_request(token, chat_id, reply_to, MessageKind::Card, content.as_str()),
            ),
            None => Err(ChannelError::CardEncode),
        }
    }

    /// The request that puts a card of that content in the place of another.
    pub fn replacement_request(&self, token: &str, message_id: &str, content: &str) -> (r:
        ApiRequest)
        ensures
            r@ == self@.update_request(token@, message_id@, content@),
    {
        let body = JsonObject::new().with(
            "msg_type",
            Json::text(kind_name(MessageKind::Card)),
        ).with("content", Json::text(content)).build();
        let mut url = joined(self.domain().as_str(), "/open-apis/im/v1/messages/");
        url.append(message_id);
        ApiRequest {
            method: HttpMethod::Patch,
            url,
            bearer: Some(token.to_owned()),
            body: Some(body),
        }
    }

    /// The request that puts another card in the place of the one a message
    /// shows. Whoever reads the content of the message finds the card in it.
    pub fn update_request(&self, token: &str, message_id: &str, card: &Json) -> (r: Result<
        ApiRequest,
        ChannelError,
    >)
        ensures
            r matches Ok(request) && request@ == self@.update_request(
                token@,
                message_id@,
                document_text(card@),
            ),
            is_readable(card@, MAX_LEVELS as nat) ==> document_in_text(document_text(card@))
                == Some(card@),
    {
        match render_text(card) {
            Some(content) => Ok(self.replacement_request(token, message_id, content.as_str())),
            None => Err(ChannelError::CardEncode),
        }
    }

    /// What a test of the channel found, out of who the bot is.
    pub fn test_result(&self, info: BotInfoData) -> (r: ChannelTestResult)
        requires
            self.wf(),
        ensures
            r.channel@ == "feishu"@,
            r.identity@ == match (info.app_name, info.open_id) {
                (Some(name), _) => name@,
                (None, Some(open_id)) => open_id@,
                (None, None) => self@.app_id,
            },
            r.details@ == match info.open_id {
                Some(open_id) => "open_id="@ + open_id@,
                None => "app_id="@ + self@.app_id,
            },
    {
        let details = match &info.open_id {
            Some(open_id) => joined("open_id=", open_id.as_str()),
            None => joined("app_id=", self.app_id().as_str()),
        };
        let identity = match info.app_name {
            Some(name) => name,
            None => match info.open_id {
                Some(open_id) => open_id,
                None => self.app_id().clone(),
            },
        };
        ChannelTestResult { channel: self.id().0.clone(), identity, details }
    }
}

} // verus!

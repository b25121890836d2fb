//! What the channel's functions give back, call by call.
use vstd::prelude::*;

use crate::json::{items_view, lemma_items_view, scalar_of, Json, JsonView};
use crate::json_codec::{document_bytes, document_in_text};
use crate::number::signed_decimal;
use crate::text::trimmed;
use crate::text_map::TextMap;

use super::api::{
    ApiRequest, ApiResponse, BotInfoData, EndpointData, HttpMethod, SendMessageData,
    TokenResponseData, TokenStep,
};
use super::card_laws::{
    callbacks_are_parsed, decisions_reach_the_gateway, other_buttons_say_nothing,
};
use super::cards::{card_answer, card_callback, may_find, response_of};
use super::channel::{domain_of, ChannelView, FeishuChannel};
use super::delivery::{extract_target, Delivery};
use super::error::{ApiCall, ChannelError, ErrorView};
use super::events::{
    bot_mentioned, event_of, mention_targets_bot, parse_text_content, strip_mention_text,
    without_mentions, EventView,
};
use super::frame_laws::pings_say_what_they_are;
use super::frames::{build_ping_frame, response, response_document, WsFrame};
use super::inbound::{response_to, step_view, FrameOutcome, OutcomeView};
use super::message_laws::{
    contents_hold_texts, mentions_count_anywhere, mentions_of_others_do_not_count,
};
use super::query::{parse_query_u32, url_number};
use super::request_laws::{
    messages_carry_token_and_content, replies_find_their_target, text_contents_hold_the_text,
    the_app_shows_who_it_is, the_bot_is_asked_about, updates_carry_token_and_content,
};
use super::session::{
    connection_plan, on_socket_event, ConnectionPlan, Reconnect, SocketAction, SocketEvent,
};
use super::types::{
    opt_inbound, ChannelTestResult, DeliveryReceipt, InboundMessage, OutboundReply,
};

verus! {

/// A text goes out with the token, to the message that it answers or else to the
/// chat, in a content out of which it can be read.
pub proof fn texts_go_out(
    channel: &FeishuChannel,
    token: &str,
    chat_id: &str,
    reply_to: Option<&str>,
    text: &str,
    r: Result<ApiRequest, ChannelError>,
)
    requires
        call_ensures(FeishuChannel::text_request, (channel, token, chat_id, reply_to, text), r),
    ensures
        r matches Ok(request) && {
            &&& request.method == HttpMethod::Post
            &&& request.bearer matches Some(bearer) && bearer@ == token@
            &&& reply_to matches Some(message_id) ==> request.url@ == channel@.domain
                + "/open-apis/im/v1/messages/"@ + message_id@ + "/reply"@
            &&& reply_to is None ==> request.url@ == channel@.domain
                + "/open-apis/im/v1/messages?receive_id_type=chat_id"@
            &&& request.body matches Some(body) && {
                &&& body@.get("msg_type"@) == Some(JsonView::Text("text"@))
                &&& reply_to is None ==> body@.get("receive_id"@) == Some(JsonView::Text(chat_id@))
                &&& body@.get("content"@) matches Some(JsonView::Text(content)) && {
                    document_in_text(content) matches Some(document) && document.get("text"@)
                        == Some(JsonView::Text(text@))
                }
            }
        },
{
    let request = r->Ok_0;
    messages_carry_token_and_content(
        channel@,
        token@,
        chat_id@,
        super::api::opt_str(reply_to),
        super::api::MessageKind::Text,
        crate::json_codec::document_text(super::api::text_document(text@)),
        "text"@,
    );
    text_contents_hold_the_text(text@, "text"@);
    assert(request@.bearer == Some(token@));
    assert(request.body is Some);
}

/// A card goes out with the token, to the message that it answers or else to the
/// chat.
pub proof fn cards_go_out(
    channel: &FeishuChannel,
    token: &str,
    chat_id: &str,
    reply_to: Option<&str>,
    card: &Json,
    r: Result<ApiRequest, ChannelError>,
)
    requires
        call_ensures(FeishuChannel::card_request, (channel, token, chat_id, reply_to, card), r),
    ensures
        r matches Ok(request) && {
            &&& request.method == HttpMethod::Post
            &&& request.bearer matches Some(bearer) && bearer@ == token@
            &&& reply_to matches Some(message_id) ==> request.url@ == channel@.domain
                + "/open-apis/im/v1/messages/"@ + message_id@ + "/reply"@
            &&& reply_to is None ==> request.url@ == channel@.domain
                + "/open-apis/im/v1/messages?receive_id_type=chat_id"@
            &&& request.body matches Some(body) && {
                &&& body@.get("msg_type"@) == Some(JsonView::Text("interactive"@))
                &&& reply_to is None ==> body@.get("receive_id"@) == Some(JsonView::Text(chat_id@))
            }
        },
{
    let request = r->Ok_0;
    messages_carry_token_and_content(
        channel@,
        token@,
        chat_id@,
        super::api::opt_str(reply_to),
        super::api::MessageKind::Card,
        crate::json_codec::document_text(card@),
        "text"@,
    );
    assert(request@.bearer == Some(token@));
    assert(request.body is Some);
}

/// The answer to a call gives its data where the call went well, an error of that
/// call where it was refused, and another where the data are missing.
pub proof fn answers_give_their_data<T>(
    response: ApiResponse<T>,
    call: ApiCall,
    r: Result<T, ChannelError>,
)
    requires
        call_ensures(ApiResponse::<T>::into_data, (response, call), r),
    ensures
        response.code == 0 ==> (response.data matches Some(data) ==> r == Ok::<T, ChannelError>(
            data,
        )),
        response.code == 0 && response.data is None ==> (r matches Err(ChannelError::MissingData {
            call: told,
        }) && told == call),
        response.code != 0 ==> (r matches Err(ChannelError::Refused { call: told, reason })
            && told == call && reason@ == match response.msg {
            Some(msg) => msg@,
            None => signed_decimal(response.code as int),
        }),
{
}

/// The answer to a message gives the identifier of the message where it was made,
/// and an error otherwise.
pub proof fn answers_name_the_message(
    response: ApiResponse<SendMessageData>,
    call: ApiCall,
    r: Result<String, ChannelError>,
)
    requires
        call_ensures(ApiResponse::<SendMessageData>::into_message_id, (response, call), r),
    ensures
        response.code == 0 ==> (response.data matches Some(data) ==> (r matches Ok(message_id)
            && message_id@ == data.message_id@)),
        response.code == 0 && response.data is None ==> (
        r matches Err(ChannelError::MissingMessageId { call: told }) && told == call),
        response.code != 0 ==> (r matches Err(ChannelError::Refused { call: told, reason })
            && told == call && reason@ == match response.msg {
            Some(msg) => msg@,
            None => signed_decimal(response.code as int),
        }),
{
}

/// A card was updated just where the platform says that the call went well.
pub proof fn updates_succeed_or_are_refused<T>(response: ApiResponse<T>, r: Result<(), ChannelError>)
    requires
        call_ensures(ApiResponse::<T>::updated, (response,), r),
    ensures
        response.code == 0 <==> r is Ok,
        response.code != 0 ==> (r matches Err(ChannelError::Refused { call, reason }) && call
            == ApiCall::UpdateCard && reason@ == match response.msg {
            Some(msg) => msg@,
            None => signed_decimal(response.code as int),
        }),
{
}

/// A test of the channel names the bot by the name of the app, or else by its
/// identifier, or else by that of the app.
pub proof fn tests_name_the_bot(channel: &FeishuChannel, info: BotInfoData, r: ChannelTestResult)
    requires
        call_ensures(FeishuChannel::test_result, (channel, info), r),
    ensures
        r.channel@ == "feishu"@,
        info.app_name matches Some(name) ==> r.identity@ == name@,
        info.app_name is None ==> (info.open_id matches Some(open_id) ==> r.identity@ == open_id@),
        info.app_name is None && info.open_id is None ==> r.identity@ == channel@.app_id,
        info.open_id matches Some(open_id) ==> r.details@ == "open_id="@ + open_id@,
        info.open_id is None ==> r.details@ == "app_id="@ + channel@.app_id,
{
}

/// A connection is kept alive under the service that its address names, or under
/// none.
pub proof fn connections_are_kept_alive(endpoint: &EndpointData, r: ConnectionPlan)
    requires
        call_ensures(connection_plan, (endpoint,), r),
    ensures
        url_number(endpoint.url@, "service_id"@) matches Some(n) ==> r.service_id == n as u32,
        url_number(endpoint.url@, "service_id"@) is None ==> r.service_id == 0,
        endpoint.client_config is None ==> r.ping_interval == 120,
        endpoint.client_config matches Some(config) ==> {
            &&& (config.ping_interval matches Some(seconds) ==> seconds > 0 ==> r.ping_interval
                == seconds)
            &&& config.ping_interval is None || config.ping_interval == Some(0u64)
                ==> r.ping_interval == 120
        },
{
}

/// The answer to a request for approval that is made of a pressed button holds
/// the request and the decision that it was made with.
pub proof fn answers_hold_the_decision(
    value: &Json,
    approval_id: &str,
    decision: &str,
    r: InboundMessage,
)
    requires
        call_ensures(response_of, (value, approval_id, decision), r),
        card_callback(value@) is Some,
    ensures
        r.metadata@.get("approval_id"@) == Some(JsonView::Text(approval_id@)),
        r.metadata@.get("decision"@) == Some(JsonView::Text(decision@)),
{
    decisions_reach_the_gateway(value@, approval_id@, decision@);
    assert(r@ == card_answer(value@, Some((approval_id@, decision@)))->Some_0);
    assert(r@.metadata == r.metadata@);
}

/// A new channel is that of the app it was made for. It knows no bot, has no
/// token, keeps no parts, and no thread is active.
pub proof fn new_channels_know_nothing(
    app_id: String,
    app_secret: String,
    domain: Option<String>,
    r: FeishuChannel,
    thread: (Seq<char>, Seq<char>),
    id: Seq<char>,
)
    requires
        call_ensures(FeishuChannel::new, (app_id, app_secret, domain), r),
    ensures
        r@.app_id == app_id@,
        r@.app_secret == app_secret@,
        domain matches Some(domain) ==> r@.domain == domain_of(Some(domain@)),
        domain is None ==> r@.domain == domain_of(None),
        r@.token is None,
        r@.bot_open_id is None,
        !r@.threads.contains(thread),
        !r@.partials.contains_key(id),
{
}

/// The receipt of a reply names its first message, and the message that it
/// answers.
pub proof fn receipts_tell_the_reply(delivery: Delivery, r: DeliveryReceipt)
    requires
        call_ensures(Delivery::receipt, (delivery,), r),
    ensures
        delivery@.first_message_id matches Some(first) ==> (r.message_id matches Some(message_id)
            && message_id@ == first),
        delivery@.first_message_id is None ==> r.message_id is None,
        delivery@.reply_to matches Some(answered) ==> (r.thread_id matches Some(thread_id)
            && thread_id@ == answered),
        delivery@.reply_to is None ==> r.thread_id is None,
{
}

/// The first wait after a lost connection takes one second.
pub proof fn waits_start_at_one_second(r: Reconnect)
    requires
        call_ensures(Reconnect::new, (), r),
    ensures
        r@ == 1,
{
}

/// A message mentions a bot that is known just where one of its mentions has the
/// identifier of the bot, whichever it is.
pub proof fn mentions_are_looked_through(mentions: &[Json], bot_open_id: &str, r: bool)
    requires
        call_ensures(mention_targets_bot, (mentions, bot_open_id), r),
        bot_open_id@.len() > 0,
    ensures
        r <==> exists|i: int, id: JsonView|
            0 <= i < mentions@.len() && (#[trigger] mentions@[i])@.get("id"@) == Some(id)
                && #[trigger] id.get("open_id"@) == Some(JsonView::Text(bot_open_id@)),
{
    lemma_items_view(mentions@);
    let views = items_view(mentions@);
    assert(r == bot_mentioned(views, bot_open_id@));
    if exists|i: int, id: JsonView|
        0 <= i < mentions@.len() && (#[trigger] mentions@[i])@.get("id"@) == Some(id)
            && #[trigger] id.get("open_id"@) == Some(JsonView::Text(bot_open_id@)) {
        let (i, id) = choose|i: int, id: JsonView|
            0 <= i < mentions@.len() && (#[trigger] mentions@[i])@.get("id"@) == Some(id)
                && #[trigger] id.get("open_id"@) == Some(JsonView::Text(bot_open_id@));
        assert(views[i] == mentions@[i]@);
        assert(views =~= views.take(i) + seq![views[i]] + views.skip(i + 1));
        mentions_count_anywhere(views.take(i), views[i], views.skip(i + 1), id, bot_open_id@);
    } else {
        assert forall|i: int, id: JsonView|
            0 <= i < views.len() && (#[trigger] views[i]).get("id"@) == Some(
                id,
            ) implies #[trigger] id.get("open_id"@) != Some(JsonView::Text(bot_open_id@)) by {
            assert(views[i] == mentions@[i]@);
        }
        mentions_of_others_do_not_count(views, bot_open_id@);
    }
}

/// The text of a message is the one in its content, or the content itself where
/// it holds none.
pub proof fn contents_are_read(content: &str, r: String, document: JsonView, text: Seq<char>)
    requires
        call_ensures(parse_text_content, (content,), r),
    ensures
        document_in_text(content@) is None ==> r@ == content@,
        document_in_text(content@) == Some(document) && document.get("text"@) == Some(
            JsonView::Text(text),
        ) ==> r@ == text,
        document_in_text(content@) == Some(document) && !(document.get("text"@) matches Some(
            JsonView::Text(_),
        )) ==> r@ == content@,
{
    contents_hold_texts(content@, text, document);
}

/// What mentions left in a text is taken out, one mention after the other, and
/// white space around what is left.
pub proof fn mentions_are_taken_out(text: String, mentions: &[Json], r: String)
    requires
        call_ensures(strip_mention_text, (text, mentions), r),
    ensures
        r@ == trimmed(without_mentions(text@, items_view(mentions@))),
{
}

/// An event changes the channel and gives the gateway a message as the message
/// that it tells of does, with the text that its content holds; an event that
/// tells of no text message does neither.
pub proof fn events_become_messages(
    value: &Json,
    r: Option<InboundMessage>,
    event: EventView,
    document: JsonView,
    text: Seq<char>,
)
    ensures
        forall|channel: &mut FeishuChannel| #[trigger]
            call_ensures(FeishuChannel::map_message_event, (channel, value), r) ==> {
                let content = document_in_text(event.content);
                let holds_text = content == Some(document) && document.get("text"@) == Some(
                    JsonView::Text(text),
                );
                let is_text = text == event.content && (content is None || content == Some(document)
                    && !(document.get("text"@) matches Some(JsonView::Text(_))));
                &&& event_of(value@) is None ==> r is None && final(channel)@ == (*channel)@
                &&& event_of(value@) == Some(event) ==> final(channel)@
                    == (*channel)@.after_event(event)
                &&& event_of(value@) == Some(event) && (holds_text || is_text) ==> match r {
                    Some(message) => (*channel)@.message_of(event, text) == Some(message@),
                    None => (*channel)@.message_of(event, text) is None,
                }
            },
{
    contents_hold_texts(event.content, text, document);
}

/// A thread is active where it was made so, in its chat.
pub proof fn active_threads_are_told(
    channel: &FeishuChannel,
    chat_id: &str,
    thread_id: &str,
    r: bool,
)
    requires
        call_ensures(FeishuChannel::is_thread_active, (channel, chat_id, thread_id), r),
    ensures
        r <==> channel@.threads.contains((chat_id@, thread_id@)),
        forall|other: &mut FeishuChannel, done: ()| #[trigger]
            call_ensures(FeishuChannel::activate_thread, (other, chat_id, thread_id), done)
                ==> final(other)@.threads == (*other)@.threads.insert((chat_id@, thread_id@)),
{
}

/// The bot is who the channel is told that it is.
pub proof fn the_channel_is_told_of_the_bot(open_id: Option<String>, done: ())
    ensures
        forall|channel: &mut FeishuChannel| #[trigger]
            call_ensures(FeishuChannel::set_bot_open_id, (channel, open_id), done) ==> {
                &&& open_id matches Some(open_id) ==> final(channel)@.bot_open_id == Some(open_id@)
                &&& open_id is None ==> final(channel)@.bot_open_id is None
                &&& final(channel)@.threads == (*channel)@.threads
                &&& final(channel)@.token == (*channel)@.token
            },
{
}

/// A token that the platform gives is kept, until the second that it tells, and
/// given back; a refusal, or an answer without a token, changes nothing.
pub proof fn given_tokens_are_kept(
    now: i64,
    response: ApiResponse<TokenResponseData>,
    r: Result<String, ChannelError>,
)
    ensures
        forall|channel: &mut FeishuChannel| #[trigger]
            call_ensures(FeishuChannel::accept_token, (channel, now, response), r) ==> {
                &&& response.code == 0 ==> (response.data matches Some(data) ==> {
                    &&& final(channel)@ == (ChannelView {
                        token: Some((data.tenant_access_token@, now + data.expire)),
                        ..(*channel)@
                    })
                    &&& r matches Ok(token) && token@ == data.tenant_access_token@
                })
                &&& response.code == 0 && response.data is None ==> final(channel)@ == (*channel)@
                    && (r matches Err(ChannelError::MissingData { call }) && call == ApiCall::Token)
                &&& response.code != 0 ==> final(channel)@ == (*channel)@ && (
                r matches Err(ChannelError::Refused { call, reason }) && call == ApiCall::Token
                    && reason@ == match response.msg {
                    Some(msg) => msg@,
                    None => signed_decimal(response.code as int),
                })
            },
{
}

/// A token that is good for more than a minute still is used; otherwise one is
/// asked for with the identifier and the secret of the app.
pub proof fn tokens_are_used_or_asked_for(channel: &FeishuChannel, now: i64, r: TokenStep)
    requires
        call_ensures(FeishuChannel::token_step, (channel, now), r),
    ensures
        channel@.token matches Some((token, expires_at)) ==> expires_at - now > 60 ==> (
        r matches TokenStep::Cached(cached) && cached@ == token),
        channel@.token is None || channel@.token->Some_0.1 - now <= 60 ==> (
        r matches TokenStep::Fetch(request) && request.method == HttpMethod::Post && request.url@
            == channel@.domain + "/open-apis/auth/v3/tenant_access_token/internal"@
            && request.bearer is None && (request.body matches Some(body) && body@.get("app_id"@)
            == Some(JsonView::Text(channel@.app_id)) && body@.get("app_secret"@) == Some(
            JsonView::Text(channel@.app_secret),
        ))),
{
    the_app_shows_who_it_is(channel@, "text"@);
    if let TokenStep::Fetch(request) = r {
        assert(request@.body == channel@.token_request().body);
        assert(request@.bearer == channel@.token_request().bearer);
    }
}

/// A card that takes the place of another goes out with the token, to the message
/// that shows it.
pub proof fn updates_go_out(
    channel: &FeishuChannel,
    token: &str,
    message_id: &str,
    card: &Json,
    r: Result<ApiRequest, ChannelError>,
)
    requires
        call_ensures(FeishuChannel::update_request, (channel, token, message_id, card), r),
    ensures
        r matches Ok(request) && {
            &&& request.method == HttpMethod::Patch
            &&& request.bearer matches Some(bearer) && bearer@ == token@
            &&& request.url@ == channel@.domain + "/open-apis/im/v1/messages/"@ + message_id@
            &&& request.body matches Some(body) && body@.get("msg_type"@) == Some(
                JsonView::Text("interactive"@),
            ) && body@.get("content"@) == Some(
                JsonView::Text(crate::json_codec::document_text(card@)),
            )
        },
{
    updates_carry_token_and_content(
        channel@,
        token@,
        message_id@,
        crate::json_codec::document_text(card@),
        "text"@,
    );
    let request = r->Ok_0;
    assert(request@.bearer == Some(token@));
    assert(request.body is Some);
}

/// Who the bot is, and where the websocket is, is asked as the platform wants it.
pub proof fn the_platform_is_asked(
    channel: &FeishuChannel,
    token: &str,
    info: ApiRequest,
    endpoint: ApiRequest,
)
    requires
        call_ensures(FeishuChannel::bot_info_request, (channel, token), info),
        call_ensures(FeishuChannel::endpoint_request, (channel,), endpoint),
    ensures
        info.method == HttpMethod::Get,
        info.url@ == channel@.domain + "/open-apis/bot/v3/info"@,
        info.bearer matches Some(bearer) && bearer@ == token@,
        info.body is None,
        endpoint.method == HttpMethod::Post,
        endpoint.url@ == channel@.domain + "/callback/ws/endpoint"@,
        endpoint.bearer is None,
        endpoint.body matches Some(body) && body@.get("AppID"@) == Some(
            JsonView::Text(channel@.app_id),
        ) && body@.get("AppSecret"@) == Some(JsonView::Text(channel@.app_secret)),
{
    the_app_shows_who_it_is(channel@, "text"@);
    the_bot_is_asked_about(channel@, token@);
    assert(info@.bearer == Some(token@));
    assert(info@.body is None);
    assert(endpoint@.bearer is None);
    assert(endpoint@.body == channel@.endpoint_request().body);
}

/// A reply finds the chat and the message that its metadata name, or the chat that
/// is its peer; it fails where there is none.
pub proof fn replies_are_sent_on_their_way(
    reply: &OutboundReply,
    r: Result<(String, Option<String>), ChannelError>,
    delivery: Result<Delivery, ChannelError>,
)
    requires
        call_ensures(extract_target, (reply,), r),
        call_ensures(Delivery::new, (reply,), delivery),
    ensures
        scalar_of(reply.metadata@.get("chat_id"@)) matches Some(chat_id) ==> {
            &&& r matches Ok(target) && target.0@ == chat_id
            &&& delivery matches Ok(delivery) && delivery@.chat_id == chat_id
        },
        r matches Ok(target) ==> match scalar_of(reply.metadata@.get("message_id"@)) {
            Some(message_id) => target.1 matches Some(told) && told@ == message_id,
            None => target.1 is None,
        },
        delivery matches Ok(delivery) ==> delivery@.first_message_id is None && delivery@.reply_to
            == scalar_of(reply.metadata@.get("message_id"@)),
        r is Ok <==> delivery is Ok,
        r matches Err(error) ==> error is MissingTarget,
{
    replies_find_their_target(reply.metadata@, reply.peer_id.0@, Seq::empty());
}

/// The first message that is noted of a reply stays the first.
pub proof fn the_first_message_is_noted(message_id: String, done: ())
    ensures
        forall|delivery: &mut Delivery| #[trigger]
            call_ensures(Delivery::record, (delivery, message_id), done) ==> {
                &&& (*delivery)@.first_message_id is None ==> final(delivery)@.first_message_id
                    == Some(message_id@)
                &&& (*delivery)@.first_message_id is Some ==> final(delivery)@.first_message_id
                    == (*delivery)@.first_message_id
                &&& final(delivery)@.chat_id == (*delivery)@.chat_id
                &&& final(delivery)@.reply_to == (*delivery)@.reply_to
            },
{
}

/// A frame that was dealt with well is answered with 200, one that was not with
/// 500, and one that wants no answer gets none.
pub proof fn frames_get_their_responses(
    frame: &WsFrame,
    outcome: &FrameOutcome,
    delivered: bool,
    r: Result<Option<WsFrame>, ChannelError>,
)
    requires
        call_ensures(response_to, (frame, outcome, delivered), r),
    ensures
        outcome is Silent ==> (r matches Ok(None)),
        outcome matches FrameOutcome::Settled(Ok(())) ==> (r matches Ok(Some(out)) && out@
            == response(frame@, 200, document_bytes(response_document(200)))),
        outcome matches FrameOutcome::Settled(Err(_)) ==> (r matches Ok(Some(out)) && out@
            == response(frame@, 500, document_bytes(response_document(500)))),
        outcome is Deliver ==> (r matches Ok(Some(out)) && out@ == if delivered {
            response(frame@, 200, document_bytes(response_document(200)))
        } else {
            response(frame@, 500, document_bytes(response_document(500)))
        }),
{
}

/// After a lost connection there is a wait, twice as long as the one before it up
/// to half a minute; after one that ended well because the channel is to stop
/// there is none.
pub proof fn lost_connections_are_waited_for(ended_well: bool, cancelled: bool, r: Option<u64>)
    ensures
        forall|reconnect: &mut Reconnect| #[trigger]
            call_ensures(Reconnect::after_connection, (reconnect, ended_well, cancelled), r) ==> {
                &&& ended_well && cancelled ==> r is None && final(reconnect)@ == (*reconnect)@
                &&& !(ended_well && cancelled) ==> {
                    &&& r matches Some(secs) && secs == (*reconnect)@
                    &&& final(reconnect)@ == if (*reconnect)@ < 15 {
                        2 * (*reconnect)@
                    } else {
                        30
                    }
                }
            },
{
}

/// A pressed button gives the gateway the request and the decision that the parser
/// finds in its callback, and nothing where it finds none or there is no
/// callback.
pub proof fn pressed_buttons_answer<F: Fn(&str) -> Option<(String, String)>>(
    channel: &FeishuChannel,
    value: &Json,
    parse_approval_callback: &F,
    meaning: spec_fn(Seq<char>) -> Option<(Seq<char>, Seq<char>)>,
    callback: Seq<char>,
    r: Option<InboundMessage>,
)
    requires
        call_ensures(
            FeishuChannel::map_card_callback::<F>,
            (channel, value, parse_approval_callback),
            r,
        ),
        forall|text: &str, found: Option<(String, String)>| #[trigger]
            call_ensures(*parse_approval_callback, (text,), found) ==> meaning(text@) == (
            match found {
                Some((approval_id, decision)) => Some((approval_id@, decision@)),
                None => None,
            }),
    ensures
        card_callback(value@) is None ==> r is None,
        card_callback(value@) == Some(callback) && meaning(callback) is None ==> r is None,
        card_callback(value@) == Some(callback) && meaning(callback) is Some ==> (
        r matches Some(message) && message.metadata@.get("approval_id"@) == Some(
            JsonView::Text(meaning(callback)->Some_0.0),
        ) && message.metadata@.get("decision"@) == Some(
            JsonView::Text(meaning(callback)->Some_0.1),
        )),
{
    if card_callback(value@) == Some(callback) {
        let approval = choose|approval: Option<(Seq<char>, Seq<char>)>| #[trigger]
            may_find(*parse_approval_callback, callback, approval) && opt_inbound(r)
                == card_answer(value@, approval);
        callbacks_are_parsed(*parse_approval_callback, meaning, callback, approval);
        if let Some((approval_id, decision)) = approval {
            decisions_reach_the_gateway(value@, approval_id, decision);
            assert(r->Some_0@.metadata == r->Some_0.metadata@);
        } else {
            other_buttons_say_nothing(value@, approval);
        }
    }
}

/// The number under a name in the query of an address is the one that the query
/// gives.
pub proof fn query_numbers_are_read(url: &str, key: &str, r: Option<u32>)
    requires
        call_ensures(parse_query_u32, (url, key), r),
    ensures
        url_number(url@, key@) matches Some(n) ==> n <= 4_294_967_295 && (r matches Some(read)
            && read == n),
        url_number(url@, key@) is None ==> r is None,
{
}

/// A ping is made for the service at that time.
pub proof fn pings_are_made(service_id: u32, now_millis: i64, r: WsFrame)
    requires
        call_ensures(build_ping_frame, (service_id, now_millis), r),
    ensures
        r.service == service_id,
        r.method == 0,
        now_millis >= 0 ==> r.seq_id == now_millis,
        now_millis < 0 ==> r.seq_id == 0,
        r@.headers.len() == 1,
        r@.headers[0] == map!["type"@ => "ping"@],
        r.payload@.len() == 0,
{
    pings_say_what_they_are(service_id as nat, now_millis as int);
    assert(r@.service == service_id && r@.method == 0);
}

/// What is done about what happens on a connection.
pub proof fn connections_are_acted_on(event: SocketEvent, r: SocketAction)
    requires
        call_ensures(on_socket_event, (event,), r),
    ensures
        event is Cancelled <==> r is Close,
        event is KeepaliveDue <==> r is SendPing,
        event matches SocketEvent::Binary(bytes) ==> r == SocketAction::Receive(bytes),
        event matches SocketEvent::Ping(payload) ==> r == SocketAction::SendPong(payload),
        event matches SocketEvent::Handled(Some(response)) ==> r == SocketAction::Respond(response),
        event matches SocketEvent::Handled(None) ==> r is Wait,
        event is Closed || event is Ended || event is ReadFailed || event is SendFailed <==> r
            is Leave,
        event is Other ==> r is Wait,
{
}

/// The payload that a frame gives is the one that the channel has of it, and the
/// channel changes as it does with the frame.
pub proof fn payloads_are_given(
    frame: &WsFrame,
    headers: &TextMap,
    now: u64,
    r: Result<Option<Vec<u8>>, ChannelError>,
)
    ensures
        forall|channel: &mut FeishuChannel| #[trigger]
            call_ensures(FeishuChannel::complete_payload, (channel, frame, headers, now), r) ==> {
                let (after, given) = (*channel)@.after_payload(
                    headers@,
                    frame.payload@,
                    now as nat,
                );
                &&& final(channel)@ == after
                &&& (r matches Ok(Some(bytes)) ==> given == Ok::<Option<Seq<u8>>, ErrorView>(
                    Some(bytes@),
                ))
                &&& (r matches Ok(None) ==> given == Ok::<Option<Seq<u8>>, ErrorView>(None))
                &&& (r matches Err(error) ==> given == Err::<Option<Seq<u8>>, ErrorView>(error@))
            },
{
}

/// A frame changes the channel, and comes to what it does, by what its headers and
/// its payload say, and by what the parser finds in the callback of its card
/// action.
pub proof fn frames_are_taken_in<F: Fn(&str) -> Option<(String, String)>>(
    frame: &WsFrame,
    now: u64,
    parse_approval_callback: &F,
    meaning: spec_fn(Seq<char>) -> Option<(Seq<char>, Seq<char>)>,
    r: Result<FrameOutcome, ChannelError>,
)
    requires
        forall|text: &str, found: Option<(String, String)>| #[trigger]
            call_ensures(*parse_approval_callback, (text,), found) ==> meaning(text@) == (
            match found {
                Some((approval_id, decision)) => Some((approval_id@, decision@)),
                None => None,
            }),
    ensures
        forall|channel: &mut FeishuChannel| #[trigger]
            call_ensures(
                FeishuChannel::receive_frame::<F>,
                (channel, frame, now, parse_approval_callback),
                r,
            ) ==> exists|approval: Option<(Seq<char>, Seq<char>)>|
                {
                    let (after, outcome) = #[trigger] (*channel)@.after_frame(
                        frame@,
                        now as nat,
                        approval,
                    );
                    &&& ((*channel)@.callback_in(frame@, now as nat) matches Some(callback)
                        ==> approval == meaning(callback))
                    &&& final(channel)@ == after
                    &&& (r matches Ok(told) ==> outcome == Ok::<OutcomeView, ErrorView>(told@))
                    &&& (r matches Err(error) ==> outcome == Err::<OutcomeView, ErrorView>(error@))
                },
{
    assert forall|channel: &mut FeishuChannel| #[trigger]
        call_ensures(
            FeishuChannel::receive_frame::<F>,
            (channel, frame, now, parse_approval_callback),
            r,
        ) implies exists|approval: Option<(Seq<char>, Seq<char>)>|
        {
            let (after, outcome) = #[trigger] (*channel)@.after_frame(
                frame@,
                now as nat,
                approval,
            );
            &&& ((*channel)@.callback_in(frame@, now as nat) matches Some(callback) ==> approval
                == meaning(callback))
            &&& final(channel)@ == after
            &&& (r matches Ok(told) ==> outcome == Ok::<OutcomeView, ErrorView>(told@))
            &&& (r matches Err(error) ==> outcome == Err::<OutcomeView, ErrorView>(error@))
        } by {
        let state = (*channel)@;
        let approval = choose|approval: Option<(Seq<char>, Seq<char>)>|
            #![trigger state.after_frame(frame@, now as nat, approval)]
            (final(channel)@, step_view(r)) == state.after_frame(frame@, now as nat, approval) && (
            state.callback_in(frame@, now as nat) is Some ==> may_find(
                *parse_approval_callback,
                state.callback_in(frame@, now as nat)->Some_0,
                approval,
            ));
        let step = state.after_frame(frame@, now as nat, approval);
        if let Some(callback) = state.callback_in(frame@, now as nat) {
            callbacks_are_parsed(*parse_approval_callback, meaning, callback, approval);
        }
    }
}

} // verus!

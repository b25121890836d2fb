//! What holds of the requests to the platform, and of its answers.
use vstd::prelude::*;

use crate::json::{scalar_of, JsonView};
use crate::number::{decimal, signed_decimal};
use crate::text::{is_white, stands_at};
use crate::text_laws::{
    starts_are_followed_by_a_rest, stripping_takes_the_character, trimming_takes_white_space,
};

use super::api::{refusal, text_document, HttpMethod, MessageKind};
use super::channel::{domain_of, ChannelView};
use super::delivery::{target_chat, target_message};
use super::error::{ApiCall, ErrorView};

verus! {

proof fn lemma_body_names()
    ensures
        "msg_type"@ != "content"@,
        "msg_type"@ != "receive_id"@,
        "content"@ != "receive_id"@,
        "AppID"@ != "AppSecret"@,
        "app_id"@ != "app_secret"@,
{
    reveal_strlit("msg_type");
    reveal_strlit("content");
    reveal_strlit("receive_id");
    reveal_strlit("AppID");
    reveal_strlit("AppSecret");
    reveal_strlit("app_id");
    reveal_strlit("app_secret");
    assert("msg_type"@.len() == 8 && "content"@.len() == 7 && "receive_id"@.len() == 10
        && "AppID"@.len() == 5 && "AppSecret"@.len() == 9 && "app_id"@.len() == 6
        && "app_secret"@.len() == 10);
}

/// Every request that makes a message carries the token it was given, names the
/// kind of the message, and holds its content and nothing else but, for a message
/// that answers none, the chat. An answer goes to the message that it answers.
pub proof fn messages_carry_token_and_content(
    state: ChannelView,
    token: Seq<char>,
    chat_id: Seq<char>,
    reply_to: Option<Seq<char>>,
    kind: MessageKind,
    content: Seq<char>,
    name: Seq<char>,
)
    ensures
        ({
            let request = state.message_request(token, chat_id, reply_to, kind, content);
            &&& request.bearer == Some(token)
            &&& request.method == HttpMethod::Post
            &&& reply_to matches Some(message_id) ==> request.url == state.domain
                + "/open-apis/im/v1/messages/"@ + message_id + "/reply"@
            &&& reply_to is None ==> request.url == state.domain
                + "/open-apis/im/v1/messages?receive_id_type=chat_id"@
            &&& request.body matches Some(body) && {
                &&& body.get("content"@) == Some(JsonView::Text(content))
                &&& kind == MessageKind::Text ==> body.get("msg_type"@) == Some(
                    JsonView::Text("text"@),
                )
                &&& kind == MessageKind::Card ==> body.get("msg_type"@) == Some(
                    JsonView::Text("interactive"@),
                )
                &&& reply_to is None ==> body.get("receive_id"@) == Some(JsonView::Text(chat_id))
                &&& reply_to is Some ==> body.get("receive_id"@) is None
                &&& name != "content"@ && name != "msg_type"@ && name != "receive_id"@
                    ==> body.get(name) is None
            }
        }),
{
    lemma_body_names();
}

/// A card is put in the place of another by a request that carries the token, and
/// that changes the message it names.
pub proof fn updates_carry_token_and_content(
    state: ChannelView,
    token: Seq<char>,
    message_id: Seq<char>,
    content: Seq<char>,
    name: Seq<char>,
)
    ensures
        ({
            let request = state.update_request(token, message_id, content);
            &&& request.bearer == Some(token)
            &&& request.method == HttpMethod::Patch
            &&& request.url == state.domain + "/open-apis/im/v1/messages/"@ + message_id
            &&& request.body matches Some(body) && {
                &&& body.get("content"@) == Some(JsonView::Text(content))
                &&& body.get("msg_type"@) == Some(JsonView::Text("interactive"@))
                &&& name != "content"@ && name != "msg_type"@ ==> body.get(name) is None
            }
        }),
{
    lemma_body_names();
}

/// The address of the websocket and a token are asked for with the identifier and
/// the secret of the app, under the names that each call wants, and without a
/// token.
pub proof fn the_app_shows_who_it_is(state: ChannelView, name: Seq<char>)
    ensures
        ({
            let endpoint = state.endpoint_request();
            let token = state.token_request();
            &&& endpoint.method == HttpMethod::Post
            &&& endpoint.url == state.domain + "/callback/ws/endpoint"@
            &&& endpoint.bearer is None
            &&& endpoint.body matches Some(body) && {
                &&& body.get("AppID"@) == Some(JsonView::Text(state.app_id))
                &&& body.get("AppSecret"@) == Some(JsonView::Text(state.app_secret))
                &&& name != "AppID"@ && name != "AppSecret"@ ==> body.get(name) is None
            }
            &&& token.method == HttpMethod::Post
            &&& token.url == state.domain + "/open-apis/auth/v3/tenant_access_token/internal"@
            &&& token.bearer is None
            &&& token.body matches Some(body) && {
                &&& body.get("app_id"@) == Some(JsonView::Text(state.app_id))
                &&& body.get("app_secret"@) == Some(JsonView::Text(state.app_secret))
                &&& name != "app_id"@ && name != "app_secret"@ ==> body.get(name) is None
            }
        }),
{
    lemma_body_names();
}

/// Who the bot is is asked with the token, and with nothing else.
pub proof fn the_bot_is_asked_about(state: ChannelView, token: Seq<char>)
    ensures
        ({
            let request = state.bot_info_request(token);
            &&& request.method == HttpMethod::Get
            &&& request.url == state.domain + "/open-apis/bot/v3/info"@
            &&& request.bearer == Some(token)
            &&& request.body is None
        }),
{
}

/// The content of a text message holds the text, and nothing else.
pub proof fn text_contents_hold_the_text(text: Seq<char>, name: Seq<char>)
    ensures
        text_document(text).get("text"@) == Some(JsonView::Text(text)),
        name != "text"@ ==> text_document(text).get(name) is None,
{
}

/// A token is used while it is good for more than a minute still, and there is
/// none to use where none was kept.
pub proof fn kept_tokens_are_used(state: ChannelView, now: int)
    ensures
        state.token matches Some((token, expires_at)) ==> {
            &&& expires_at - now > 60 ==> state.usable_token(now) == Some(token)
            &&& expires_at - now <= 60 ==> state.usable_token(now) is None
        },
        state.token is None ==> state.usable_token(now) is None,
{
}

/// A refusal is told in the words of the platform, or by its code where it says
/// nothing.
pub proof fn refusals_are_told(msg: Seq<char>, code: int)
    ensures
        refusal(Some(msg), code) == msg,
        refusal(None, code) == signed_decimal(code),
{
}

/// Errors of a call tell which call they come from, and why.
pub proof fn errors_tell_the_call(call: ApiCall, name: Seq<char>, reason: Seq<char>)
    requires
        call == ApiCall::Endpoint ==> name == "feishu websocket endpoint"@,
        call == ApiCall::Token ==> name == "feishu tenant_access_token"@,
        call == ApiCall::BotInfo ==> name == "feishu bot info"@,
        call == ApiCall::SendText ==> name == "feishu send text"@,
        call == ApiCall::SendCard ==> name == "feishu send card"@,
        call == ApiCall::UpdateCard ==> name == "feishu update card"@,
    ensures
        (ErrorView::Refused { call, reason }).message() == name + " failed: "@ + reason,
        (ErrorView::MissingData { call }).message() == name + " missing data"@,
        (ErrorView::MissingMessageId { call }).message() == name + " missing message_id"@,
{
}

/// Errors of the channel's own tell what is missing or wrong.
pub proof fn errors_tell_what_is_wrong(seq: nat, sum: nat)
    ensures
        ErrorView::MissingTarget.message() == "feishu reply missing chat_id in metadata/peer_id"@,
        ErrorView::PartWithoutMessageId.message() == "feishu partial frame missing message_id"@,
        ErrorView::PartWithoutSeq.message() == "feishu partial frame missing seq"@,
        (ErrorView::PartOutOfRange { seq, sum }).message()
            == "feishu partial frame has invalid seq "@ + decimal(seq) + "/"@ + decimal(sum),
        ErrorView::EventDecode.message() == "feishu event payload decode failed"@,
        ErrorView::CardDecode.message() == "feishu card payload decode failed"@,
        ErrorView::TextEncode.message() == "feishu text content encode failed"@,
        ErrorView::CardEncode.message() == "feishu card content encode failed"@,
        ErrorView::ResponseEncode.message() == "feishu response payload encode failed"@,
{
}

/// The address of the platform is the one that is set, without the white space
/// around it and the slashes at its end.
pub proof fn addresses_are_tidied(
    before: Seq<char>,
    address: Seq<char>,
    slashes: Seq<char>,
    after: Seq<char>,
)
    requires
        forall|i: int| 0 <= i < before.len() ==> is_white(#[trigger] before[i]),
        forall|i: int| 0 <= i < after.len() ==> is_white(#[trigger] after[i]),
        forall|i: int| 0 <= i < slashes.len() ==> #[trigger] slashes[i] == '/',
        address.len() > 0,
        !is_white(address[0]),
        address[address.len() - 1] != '/',
        slashes.len() == 0 ==> !is_white(address[address.len() - 1]),
    ensures
        domain_of(Some(before + (address + slashes) + after)) == address,
{
    let core = address + slashes;
    assert(core[0] == address[0]);
    if slashes.len() > 0 {
        assert(core[core.len() - 1] == slashes[slashes.len() - 1]);
    } else {
        assert(core[core.len() - 1] == address[address.len() - 1]);
    }
    trimming_takes_white_space(before, core, after);
    stripping_takes_the_character(address, slashes, '/');
}

/// Where no address is set, or nothing but white space and slashes behind one
/// another, it is the public one.
pub proof fn the_public_address_is_the_default(
    before: Seq<char>,
    slashes: Seq<char>,
    after: Seq<char>,
)
    requires
        forall|i: int| 0 <= i < before.len() ==> is_white(#[trigger] before[i]),
        forall|i: int| 0 <= i < after.len() ==> is_white(#[trigger] after[i]),
        forall|i: int| 0 <= i < slashes.len() ==> #[trigger] slashes[i] == '/',
    ensures
        domain_of(None) == "https://open.feishu.cn"@,
        domain_of(Some(before + slashes + after)) == "https://open.feishu.cn"@,
{
    trimming_takes_white_space(before, slashes, after);
    stripping_takes_the_character(Seq::empty(), slashes, '/');
    assert(Seq::<char>::empty() + slashes =~= slashes);
}

/// A reply goes to the chat that its metadata name; to its peer where they name
/// none and the peer is a chat; and nowhere else. It answers the message that its
/// metadata name.
pub proof fn replies_find_their_target(metadata: JsonView, peer_id: Seq<char>, rest: Seq<char>)
    ensures
        scalar_of(metadata.get("chat_id"@)) is Some ==> target_chat(metadata, peer_id)
            == scalar_of(metadata.get("chat_id"@)),
        scalar_of(metadata.get("chat_id"@)) is None ==> {
            &&& target_chat(metadata, seq!['o', 'c', '_'] + rest) == Some(
                seq!['o', 'c', '_'] + rest,
            )
            &&& peer_id.len() < 3 || peer_id[0] != 'o' || peer_id[1] != 'c' || peer_id[2] != '_'
                ==> target_chat(metadata, peer_id) is None
        },
        target_message(metadata) == scalar_of(metadata.get("message_id"@)),
{
    reveal_strlit("oc_");
    let mark = seq!['o', 'c', '_'];
    assert("oc_"@ =~= mark);
    starts_are_followed_by_a_rest(peer_id, mark, rest);
    if stands_at(peer_id, 0, mark) {
        assert(peer_id.subrange(0, 3)[0] == peer_id[0]);
        assert(peer_id.subrange(0, 3)[1] == peer_id[1]);
        assert(peer_id.subrange(0, 3)[2] == peer_id[2]);
    }
}

} // verus!

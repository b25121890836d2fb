//! Cards: those that ask for approval, and what comes of their buttons.
use vstd::prelude::*;

use crate::json::{
    first_scalar, first_string, items_view, lemma_items_view, member, member_of, nullable, opt_text,
    opt_view, opt_views, Json, JsonObject, JsonView,
};

use super::types::{
    opt_inbound, ApprovalButton, ButtonStyle, ChannelId, ChatType, ChatView, InboundMessage,
    InboundView, PeerId,
};

verus! {

// -------------------------------------------------------------- going out

/// A text element of a card.
pub open spec fn plain_text(content: Seq<char>) -> JsonView {
    JsonView::Object(
        Map::<Seq<char>, JsonView>::empty().insert("tag"@, JsonView::Text("plain_text"@)).insert(
            "content"@,
            JsonView::Text(content),
        ),
    )
}

/// How a card names the look of a button.
pub open spec fn style_name(style: ButtonStyle) -> Seq<char> {
    match style {
        ButtonStyle::Success => "primary"@,
        ButtonStyle::Danger => "danger"@,
    }
}

/// What the platform hands back when a button is pressed.
pub open spec fn button_value(callback: Seq<char>) -> JsonView {
    JsonView::Object(
        Map::<Seq<char>, JsonView>::empty().insert("callback"@, JsonView::Text(callback)),
    )
}

/// A button of a card.
pub open spec fn button_element(button: ApprovalButton) -> JsonView {
    JsonView::Object(
        Map::<Seq<char>, JsonView>::empty().insert("tag"@, JsonView::Text("button"@)).insert(
            "text"@,
            plain_text(button.label@),
        ).insert("type"@, JsonView::Text(style_name(button.style))).insert(
            "value"@,
            button_value(button.callback_data@),
        ),
    )
}

/// The settings of a card.
pub open spec fn wide_screen() -> JsonView {
    JsonView::Object(
        Map::<Seq<char>, JsonView>::empty().insert("wide_screen_mode"@, JsonView::Bool(true)),
    )
}

/// A paragraph of a card.
pub open spec fn paragraph(text: Seq<char>) -> JsonView {
    JsonView::Object(
        Map::<Seq<char>, JsonView>::empty().insert("tag"@, JsonView::Text("div"@)).insert(
            "text"@,
            JsonView::Object(
                Map::<Seq<char>, JsonView>::empty().insert(
                    "tag"@,
                    JsonView::Text("lark_md"@),
                ).insert("content"@, JsonView::Text(text)),
            ),
        ),
    )
}

/// The buttons of a card, in a row.
pub open spec fn button_row(buttons: Seq<ApprovalButton>) -> JsonView {
    JsonView::Object(
        Map::<Seq<char>, JsonView>::empty().insert("tag"@, JsonView::Text("action"@)).insert(
            "actions"@,
            JsonView::Array(
                buttons.map_values(|button: ApprovalButton| button_element(button)),
            ),
        ),
    )
}

/// A card that asks for approval.
pub open spec fn approval_card(text: Seq<char>, buttons: Seq<ApprovalButton>) -> JsonView {
    JsonView::Object(
        Map::<Seq<char>, JsonView>::empty().insert("config"@, wide_screen()).insert(
            "header"@,
            JsonView::Object(
                Map::<Seq<char>, JsonView>::empty().insert(
                    "title"@,
                    plain_text("Stakpak approval"@),
                ),
            ),
        ).insert("elements"@, JsonView::Array(seq![paragraph(text), button_row(buttons)])),
    )
}

/// A card that tells a state.
pub open spec fn status_card(text: Seq<char>) -> JsonView {
    JsonView::Object(
        Map::<Seq<char>, JsonView>::empty().insert("config"@, wide_screen()).insert(
            "elements"@,
            JsonView::Array(seq![paragraph(text)]),
        ),
    )
}

fn build_plain_text(content: &str) -> (r: Json)
    ensures
        r@ == plain_text(content@),
{
    JsonObject::new().with("tag", Json::text("plain_text")).with(
        "content",
        Json::text(content),
    ).build()
}

fn build_wide_screen() -> (r: Json)
    ensures
        r@ == wide_screen(),
{
    JsonObject::new().with("wide_screen_mode", Json::Bool(true)).build()
}

fn build_paragraph(text: &str) -> (r: Json)
    ensures
        r@ == paragraph(text@),
{
    JsonObject::new().with("tag", Json::text("div")).with(
        "text",
        JsonObject::new().with("tag", Json::text("lark_md")).with(
            "content",
            Json::text(text),
        ).build(),
    ).build()
}

fn build_button(button: &ApprovalButton) -> (r: Json)
    ensures
        r@ == button_element(*button),
{
    let kind = match button.style {
        ButtonStyle::Success => "primary",
        ButtonStyle::Danger => "danger",
    };
    JsonObject::new().with("tag", Json::text("button")).with(
        "text",
        build_plain_text(button.label.as_str()),
    ).with("type", Json::text(kind)).with(
        "value",
        JsonObject::new().with("callback", Json::text(button.callback_data.as_str())).build(),
    ).build()
}

/// A card that asks for approval, with a button for each answer.
pub fn build_approval_card(text: &str, buttons: &[ApprovalButton]) -> (r: Json)
    ensures
        r@ == approval_card(text@, buttons@),
{
    let mut actions: Vec<Json> = Vec::new();
    let mut i: usize = 0;
    while i < buttons.len()
        invariant
            i <= buttons@.len(),
            actions@.len() == i,
            forall|j: int|
                0 <= j < i ==> (#[trigger] actions@[j])@ == button_element(buttons@[j]),
        decreases buttons@.len() - i,
    {
        actions.push(build_button(&buttons[i]));
        i += 1;
    }
    proof {
        lemma_items_view(actions@);
        let expected = buttons@.map_values(|button: ApprovalButton| button_element(button));
        assert forall|j: int| 0 <= j < buttons@.len() implies items_view(actions@)[j]
            == expected[j] by {
            assert(actions@[j]@ == button_element(buttons@[j]));
        }
        assert(items_view(actions@) =~= expected);
    }
    let row = JsonObject::new().with("tag", Json::text("action")).with(
        "actions",
        Json::Array(actions),
    ).build();
    let title = JsonObject::new().with("title", build_plain_text("Stakpak approval")).build();
    let elements: Vec<Json> = vec![build_paragraph(text), row];
    proof {
        lemma_items_view(elements@);
        assert(items_view(elements@) =~= seq![paragraph(text@), button_row(buttons@)]);
    }
    JsonObject::new().with("config", build_wide_screen()).with("header", title).with(
        "elements",
        Json::Array(elements),
    ).build()
}

/// A card that tells a state.
pub fn build_status_card(text: &str) -> (r: Json)
    ensures
        r@ == status_card(text@),
{
    let elements: Vec<Json> = vec![build_paragraph(text)];
    proof {
        lemma_items_view(elements@);
        assert(items_view(elements@) =~= seq![paragraph(text@)]);
    }
    JsonObject::new().with("config", build_wide_screen()).with(
        "elements",
        Json::Array(elements),
    ).build()
}

// ------------------------------------------------------------- coming back

/// What the button that was pressed hands back.
pub open spec fn card_callback(value: JsonView) -> Option<Seq<char>> {
    let inner = member_of(member_of(value.get("event"@), "action"@), "value"@);
    let outer = member_of(value.get("action"@), "value"@);
    first_scalar(
        seq![
            member_of(inner, "callback"@),
            member_of(inner, "callback_data"@),
            member_of(inner, "action"@),
            member_of(outer, "callback"@),
            member_of(outer, "callback_data"@),
            member_of(outer, "action"@),
        ],
    )
}

/// Who pressed the button.
pub open spec fn card_operator(value: JsonView) -> Seq<char> {
    let inner = member_of(value.get("event"@), "operator"@);
    let outer = value.get("operator"@);
    match first_scalar(
        seq![
            member_of(member_of(inner, "operator_id"@), "open_id"@),
            member_of(inner, "open_id"@),
            member_of(member_of(outer, "operator_id"@), "open_id"@),
            member_of(outer, "open_id"@),
            value.get("open_id"@),
            value.get("user_id"@),
        ],
    ) {
        Some(operator) => operator,
        None => "unknown"@,
    }
}

/// The chat of the card.
pub open spec fn card_chat(value: JsonView) -> Option<Seq<char>> {
    let inner = member_of(value.get("event"@), "context"@);
    let outer = value.get("context"@);
    first_scalar(
        seq![
            member_of(inner, "open_chat_id"@),
            member_of(inner, "chat_id"@),
            member_of(outer, "open_chat_id"@),
            member_of(outer, "chat_id"@),
            value.get("open_chat_id"@),
            value.get("chat_id"@),
        ],
    )
}

/// The message that shows the card.
pub open spec fn card_message(value: JsonView) -> Option<Seq<char>> {
    let inner = member_of(value.get("event"@), "context"@);
    let outer = value.get("context"@);
    first_scalar(
        seq![
            member_of(inner, "open_message_id"@),
            member_of(inner, "message_id"@),
            member_of(outer, "open_message_id"@),
            member_of(outer, "message_id"@),
            value.get("open_message_id"@),
            value.get("message_id"@),
        ],
    )
}

/// The message that an answer to a request for approval gives the gateway.
pub open spec fn approval_response(
    value: JsonView,
    approval_id: Seq<char>,
    decision: Seq<char>,
) -> InboundView {
    InboundView {
        channel: "feishu"@,
        peer_id: card_operator(value),
        chat_type: match card_chat(value) {
            Some(id) => ChatView::Group { id },
            None => ChatView::Direct,
        },
        text: Seq::empty(),
        media: Seq::empty(),
        metadata: JsonView::Object(
            Map::<Seq<char>, JsonView>::empty().insert(
                "type"@,
                JsonView::Text("approval_response"@),
            ).insert("approval_id"@, JsonView::Text(approval_id)).insert(
                "decision"@,
                JsonView::Text(decision),
            ).insert("chat_id"@, nullable(card_chat(value))).insert(
                "message_id"@,
                nullable(card_message(value)),
            ),
        ),
        timestamp: None,
    }
}

/// What the button that was pressed hands back.
pub fn callback_of(value: &Json) -> (r: Option<String>)
    ensures
        opt_text(r) == card_callback(value@),
{
    let inner = member(member(value.get("event"), "action"), "value");
    let outer = member(value.get("action"), "value");
    let places: Vec<Option<&Json>> = vec![
        member(inner, "callback"),
        member(inner, "callback_data"),
        member(inner, "action"),
        member(outer, "callback"),
        member(outer, "callback_data"),
        member(outer, "action"),
    ];
    assert(opt_views(places@) =~= seq![
        member_of(opt_view(inner), "callback"@),
        member_of(opt_view(inner), "callback_data"@),
        member_of(opt_view(inner), "action"@),
        member_of(opt_view(outer), "callback"@),
        member_of(opt_view(outer), "callback_data"@),
        member_of(opt_view(outer), "action"@),
    ]);
    first_string(places.as_slice())
}

fn operator_of(value: &Json) -> (r: String)
    ensures
        r@ == card_operator(value@),
{
    let inner = member(value.get("event"), "operator");
    let outer = value.get("operator");
    let places: Vec<Option<&Json>> = vec![
        member(member(inner, "operator_id"), "open_id"),
        member(inner, "open_id"),
        member(member(outer, "operator_id"), "open_id"),
        member(outer, "open_id"),
        value.get("open_id"),
        value.get("user_id"),
    ];
    assert(opt_views(places@) =~= seq![
        member_of(member_of(opt_view(inner), "operator_id"@), "open_id"@),
        member_of(opt_view(inner), "open_id"@),
        member_of(member_of(opt_view(outer), "operator_id"@), "open_id"@),
        member_of(opt_view(outer), "open_id"@),
        value@.get("open_id"@),
        value@.get("user_id"@),
    ]);
    match first_string(places.as_slice()) {
        Some(operator) => operator,
        None => "unknown".to_owned(),
    }
}

fn chat_of(value: &Json) -> (r: Option<String>)
    ensures
        opt_text(r) == card_chat(value@),
{
    let inner = member(value.get("event"), "context");
    let outer = value.get("context");
    let places: Vec<Option<&Json>> = vec![
        member(inner, "open_chat_id"),
        member(inner, "chat_id"),
        member(outer, "open_chat_id"),
        member(outer, "chat_id"),
        value.get("open_chat_id"),
        value.get("chat_id"),
    ];
    assert(opt_views(places@) =~= seq![
        member_of(opt_view(inner), "open_chat_id"@),
        member_of(opt_view(inner), "chat_id"@),
        member_of(opt_view(outer), "open_chat_id"@),
        member_of(opt_view(outer), "chat_id"@),
        value@.get("open_chat_id"@),
        value@.get("chat_id"@),
    ]);
    first_string(places.as_slice())
}

fn message_of(value: &Json) -> (r: Option<String>)
    ensures
        opt_text(r) == card_message(value@),
{
    let inner = member(value.get("event"), "context");
    let outer = value.get("context");
    let places: Vec<Option<&Json>> = vec![
        member(inner, "open_message_id"),
        member(inner, "message_id"),
        member(outer, "open_message_id"),
        member(outer, "message_id"),
        value.get("open_message_id"),
        value.get("message_id"),
    ];
    assert(opt_views(places@) =~= seq![
        member_of(opt_view(inner), "open_message_id"@),
        member_of(opt_view(inner), "message_id"@),
        member_of(opt_view(outer), "open_message_id"@),
        member_of(opt_view(outer), "message_id"@),
        value@.get("open_message_id"@),
        value@.get("message_id"@),
    ]);
    first_string(places.as_slice())
}

/// The message that an answer to a request for approval gives the gateway.
pub fn response_of(value: &Json, approval_id: &str, decision: &str) -> (r: InboundMessage)
    ensures
        r@ == approval_response(value@, approval_id@, decision@),
{
    let chat_id = chat_of(value);
    let message_id = message_of(value);
    let metadata = JsonObject::new().with("type", Json::text("approval_response")).with(
        "approval_id",
        Json::text(approval_id),
    ).with("decision", Json::text(decision)).with(
        "chat_id",
        Json::optional_text(&chat_id),
    ).with("message_id", Json::optional_text(&message_id)).build();
    InboundMessage {
        channel: ChannelId("feishu".to_owned()),
        peer_id: PeerId(operator_of(value)),
        chat_type: match chat_id {
            Some(id) => ChatType::Group { id },
            None => ChatType::Direct,
        },
        text: String::new(),
        media: Vec::new(),
        metadata,
        timestamp: None,
    }
}

/// The content of what a parser of callbacks found.
pub open spec fn approval_view(approval: Option<(String, String)>) -> Option<
    (Seq<char>, Seq<char>),
> {
    match approval {
        Some((approval_id, decision)) => Some((approval_id@, decision@)),
        None => None,
    }
}

/// Whether a parser of callbacks may find that in a callback.
pub open spec fn may_find<F: Fn(&str) -> Option<(String, String)>>(
    parse_approval_callback: F,
    callback: Seq<char>,
    approval: Option<(Seq<char>, Seq<char>)>,
) -> bool {
    exists|text: &str, found: Option<(String, String)>|
        #![trigger call_ensures(parse_approval_callback, (text,), found)]
        text@ == callback && call_ensures(parse_approval_callback, (text,), found) && approval
            == approval_view(found)
}

/// What the pressing of a button gives the gateway, where its callback was
/// found to say that.
pub open spec fn card_answer(
    value: JsonView,
    approval: Option<(Seq<char>, Seq<char>)>,
) -> Option<InboundView> {
    match (card_callback(value), approval) {
        (Some(_), Some((approval_id, decision))) => Some(
            approval_response(value, approval_id, decision),
        ),
        _ => None,
    }
}

/// What the pressing of a button gives the gateway: an answer to a request for
/// approval, where the callback parses as the identifier of a request and a
/// decision on it.
pub(crate) fn answer_callback<F: Fn(&str) -> Option<(String, String)>>(
    value: &Json,
    parse_approval_callback: &F,
) -> (r: Option<InboundMessage>)
    requires
        forall|text: &str| call_requires(*parse_approval_callback, (text,)),
    ensures
        card_callback(value@) is None ==> r is None,
        card_callback(value@) is Some ==> exists|approval: Option<(Seq<char>, Seq<char>)>|
            #[trigger] may_find(*parse_approval_callback, card_callback(value@)->Some_0, approval)
                && opt_inbound(r) == card_answer(value@, approval),
{
    match callback_of(value) {
        Some(callback) => {
            let text = callback.as_str();
            let found = parse_approval_callback(text);
            let ghost approval = approval_view(found);
            assert(may_find(*parse_approval_callback, card_callback(value@)->Some_0, approval));
            let answer = match found {
                Some((approval_id, decision)) => Some(
                    response_of(value, approval_id.as_str(), decision.as_str()),
                ),
                None => None,
            };
            assert(opt_inbound(answer) == card_answer(value@, approval));
            answer
        },
        None => None,
    }
}

} // verus!

//! What holds of cards, and of the buttons that are pressed on them.
use vstd::prelude::*;

use crate::json::{first_scalar, member_of, scalar_of, JsonView};
use crate::text_laws::the_first_name_counts;

use super::cards::{
    approval_card, approval_response, button_element, card_answer, card_callback, card_chat,
    card_message, card_operator, may_find, status_card,
};
use super::types::{ApprovalButton, ButtonStyle, ChatView};

verus! {

proof fn lemma_card_names()
    ensures
        "config"@ != "elements"@,
        "header"@ != "elements"@,
        "config"@ != "header"@,
        "tag"@ != "actions"@,
        "tag"@ != "value"@,
        "text"@ != "value"@,
        "type"@ != "value"@,
        "tag"@ != "text"@,
        "tag"@ != "type"@,
        "text"@ != "type"@,
        "tag"@ != "content"@,
{
    reveal_strlit("config");
    reveal_strlit("elements");
    reveal_strlit("header");
    reveal_strlit("tag");
    reveal_strlit("actions");
    reveal_strlit("value");
    reveal_strlit("text");
    reveal_strlit("type");
    reveal_strlit("content");
    assert("config"@.len() == 6 && "elements"@.len() == 8 && "header"@.len() == 6 && "tag"@.len()
        == 3 && "actions"@.len() == 7 && "value"@.len() == 5 && "text"@.len() == 4
        && "type"@.len() == 4 && "content"@.len() == 7);
    assert("config"@[0] == 'c' && "header"@[0] == 'h' && "text"@[1] == 'e' && "type"@[1] == 'y');
}

/// A card that asks for approval has a title, shows the text, and has a row with
/// one button for each that is asked for, in their order. Each button shows its
/// label, has its look, and carries its callback.
pub proof fn approval_cards_show_text_and_buttons(
    text: Seq<char>,
    buttons: Seq<ApprovalButton>,
    i: int,
)
    ensures
        ({
            let card = approval_card(text, buttons);
            let config = card.get("config"@);
            let title = member_of(card.get("header"@), "title"@);
            &&& member_of(config, "wide_screen_mode"@) == Some(JsonView::Bool(true))
            &&& member_of(title, "tag"@) == Some(JsonView::Text("plain_text"@))
            &&& member_of(title, "content"@) == Some(JsonView::Text("Stakpak approval"@))
            &&& card.get("elements"@) matches Some(JsonView::Array(elements)) && {
                let shown = elements[0].get("text"@);
                &&& elements.len() == 2
                &&& elements[0].get("tag"@) == Some(JsonView::Text("div"@))
                &&& member_of(shown, "tag"@) == Some(JsonView::Text("lark_md"@))
                &&& member_of(shown, "content"@) == Some(JsonView::Text(text))
                &&& elements[1].get("tag"@) == Some(JsonView::Text("action"@))
                &&& elements[1].get("actions"@) matches Some(JsonView::Array(actions)) && {
                    &&& actions.len() == buttons.len()
                    &&& 0 <= i < buttons.len() ==> {
                        let button = buttons[i];
                        let label = actions[i].get("text"@);
                        &&& actions[i].get("tag"@) == Some(JsonView::Text("button"@))
                        &&& member_of(label, "tag"@) == Some(JsonView::Text("plain_text"@))
                        &&& member_of(label, "content"@) == Some(JsonView::Text(button.label@))
                        &&& button.style == ButtonStyle::Success ==> actions[i].get("type"@)
                            == Some(JsonView::Text("primary"@))
                        &&& button.style == ButtonStyle::Danger ==> actions[i].get("type"@) == Some(
                            JsonView::Text("danger"@),
                        )
                        &&& member_of(actions[i].get("value"@), "callback"@) == Some(
                            JsonView::Text(button.callback_data@),
                        )
                    }
                }
            }
        }),
{
    lemma_card_names();
    let card = approval_card(text, buttons);
    let elements = card.get("elements"@)->Some_0->Array_0;
    let actions = elements[1].get("actions"@)->Some_0->Array_0;
    if 0 <= i < buttons.len() {
        assert(actions[i] == button_element(buttons[i]));
    }
}

/// A card that tells a state shows its text and nothing else.
pub proof fn status_cards_show_their_text(text: Seq<char>)
    ensures
        ({
            let card = status_card(text);
            &&& member_of(card.get("config"@), "wide_screen_mode"@) == Some(JsonView::Bool(true))
            &&& card.get("elements"@) matches Some(JsonView::Array(elements)) && {
                let shown = elements[0].get("text"@);
                &&& elements.len() == 1
                &&& elements[0].get("tag"@) == Some(JsonView::Text("div"@))
                &&& member_of(shown, "tag"@) == Some(JsonView::Text("lark_md"@))
                &&& member_of(shown, "content"@) == Some(JsonView::Text(text))
            }
        }),
{
    lemma_card_names();
}

proof fn lemma_first_of_six(places: Seq<Option<JsonView>>, i: int)
    requires
        places.len() == 6,
        0 <= i < 6,
        forall|j: int| 0 <= j < i ==> scalar_of(#[trigger] places[j]) is None,
    ensures
        scalar_of(places[i]) is Some ==> first_scalar(places) == scalar_of(places[i]),
        i == 5 && scalar_of(places[i]) is None ==> first_scalar(places) is None,
{
    the_first_name_counts(places, i);
}

/// The callback of a pressed button is looked for in the value of the action,
/// inside the event first and then outside of it; the first that is there
/// counts.
pub proof fn callbacks_are_looked_for(value: JsonView, i: int)
    requires
        0 <= i < 6,
    ensures
        ({
            let inner = member_of(member_of(value.get("event"@), "action"@), "value"@);
            let outer = member_of(value.get("action"@), "value"@);
            let places = seq![
                member_of(inner, "callback"@),
                member_of(inner, "callback_data"@),
                member_of(inner, "action"@),
                member_of(outer, "callback"@),
                member_of(outer, "callback_data"@),
                member_of(outer, "action"@),
            ];
            (forall|j: int| 0 <= j < i ==> scalar_of(#[trigger] places[j]) is None) ==> {
                &&& scalar_of(places[i]) is Some ==> card_callback(value) == scalar_of(places[i])
                &&& i == 5 && scalar_of(places[i]) is None ==> card_callback(value) is None
            }
        }),
{
    let inner = member_of(member_of(value.get("event"@), "action"@), "value"@);
    let outer = member_of(value.get("action"@), "value"@);
    let places = seq![
        member_of(inner, "callback"@),
        member_of(inner, "callback_data"@),
        member_of(inner, "action"@),
        member_of(outer, "callback"@),
        member_of(outer, "callback_data"@),
        member_of(outer, "action"@),
    ];
    if forall|j: int| 0 <= j < i ==> scalar_of(#[trigger] places[j]) is None {
        lemma_first_of_six(places, i);
    }
}

/// Whoever pressed the button is looked for inside the event first, then outside
/// of it, and is unknown where nothing tells.
pub proof fn operators_are_looked_for(value: JsonView, i: int)
    requires
        0 <= i < 6,
    ensures
        ({
            let inner = member_of(value.get("event"@), "operator"@);
            let outer = value.get("operator"@);
            let places = seq![
                member_of(member_of(inner, "operator_id"@), "open_id"@),
                member_of(inner, "open_id"@),
                member_of(member_of(outer, "operator_id"@), "open_id"@),
                member_of(outer, "open_id"@),
                value.get("open_id"@),
                value.get("user_id"@),
            ];
            (forall|j: int| 0 <= j < i ==> scalar_of(#[trigger] places[j]) is None) ==> {
                &&& scalar_of(places[i]) is Some ==> Some(card_operator(value)) == scalar_of(
                    places[i],
                )
                &&& i == 5 && scalar_of(places[i]) is None ==> card_operator(value) == "unknown"@
            }
        }),
{
    let inner = member_of(value.get("event"@), "operator"@);
    let outer = value.get("operator"@);
    let places = seq![
        member_of(member_of(inner, "operator_id"@), "open_id"@),
        member_of(inner, "open_id"@),
        member_of(member_of(outer, "operator_id"@), "open_id"@),
        member_of(outer, "open_id"@),
        value.get("open_id"@),
        value.get("user_id"@),
    ];
    if forall|j: int| 0 <= j < i ==> scalar_of(#[trigger] places[j]) is None {
        lemma_first_of_six(places, i);
    }
}

/// The chat and the message of a card are looked for inside the event first, then
/// outside of it; each by its open name before the plain one.
pub proof fn places_of_cards_are_looked_for(value: JsonView, i: int)
    requires
        0 <= i < 6,
    ensures
        ({
            let inner = member_of(value.get("event"@), "context"@);
            let outer = value.get("context"@);
            let chats = seq![
                member_of(inner, "open_chat_id"@),
                member_of(inner, "chat_id"@),
                member_of(outer, "open_chat_id"@),
                member_of(outer, "chat_id"@),
                value.get("open_chat_id"@),
                value.get("chat_id"@),
            ];
            let messages = seq![
                member_of(inner, "open_message_id"@),
                member_of(inner, "message_id"@),
                member_of(outer, "open_message_id"@),
                member_of(outer, "message_id"@),
                value.get("open_message_id"@),
                value.get("message_id"@),
            ];
            &&& (forall|j: int| 0 <= j < i ==> scalar_of(#[trigger] chats[j]) is None) ==> {
                &&& scalar_of(chats[i]) is Some ==> card_chat(value) == scalar_of(chats[i])
                &&& i == 5 && scalar_of(chats[i]) is None ==> card_chat(value) is None
            }
            &&& (forall|j: int| 0 <= j < i ==> scalar_of(#[trigger] messages[j]) is None) ==> {
                &&& scalar_of(messages[i]) is Some ==> card_message(value) == scalar_of(messages[i])
                &&& i == 5 && scalar_of(messages[i]) is None ==> card_message(value) is None
            }
        }),
{
    let inner = member_of(value.get("event"@), "context"@);
    let outer = value.get("context"@);
    let chats = seq![
        member_of(inner, "open_chat_id"@),
        member_of(inner, "chat_id"@),
        member_of(outer, "open_chat_id"@),
        member_of(outer, "chat_id"@),
        value.get("open_chat_id"@),
        value.get("chat_id"@),
    ];
    let messages = seq![
        member_of(inner, "open_message_id"@),
        member_of(inner, "message_id"@),
        member_of(outer, "open_message_id"@),
        member_of(outer, "message_id"@),
        value.get("open_message_id"@),
        value.get("message_id"@),
    ];
    if forall|j: int| 0 <= j < i ==> scalar_of(#[trigger] chats[j]) is None {
        lemma_first_of_six(chats, i);
    }
    if forall|j: int| 0 <= j < i ==> scalar_of(#[trigger] messages[j]) is None {
        lemma_first_of_six(messages, i);
    }
}

proof fn lemma_response_names()
    ensures
        "type"@ != "approval_id"@,
        "type"@ != "decision"@,
        "type"@ != "chat_id"@,
        "type"@ != "message_id"@,
        "approval_id"@ != "decision"@,
        "approval_id"@ != "chat_id"@,
        "approval_id"@ != "message_id"@,
        "decision"@ != "chat_id"@,
        "decision"@ != "message_id"@,
        "chat_id"@ != "message_id"@,
{
    reveal_strlit("type");
    reveal_strlit("approval_id");
    reveal_strlit("decision");
    reveal_strlit("chat_id");
    reveal_strlit("message_id");
    assert("type"@.len() == 4 && "approval_id"@.len() == 11 && "decision"@.len() == 8
        && "chat_id"@.len() == 7 && "message_id"@.len() == 10);
}

/// A pressed button tells the gateway the very request and the very decision that
/// were found in its callback, who pressed it, and where.
pub proof fn decisions_reach_the_gateway(
    value: JsonView,
    approval_id: Seq<char>,
    decision: Seq<char>,
)
    requires
        card_callback(value) is Some,
    ensures
        card_answer(value, Some((approval_id, decision))) matches Some(message) && {
            &&& message.metadata.get("approval_id"@) == Some(JsonView::Text(approval_id))
            &&& message.metadata.get("decision"@) == Some(JsonView::Text(decision))
            &&& message.metadata.get("type"@) == Some(JsonView::Text("approval_response"@))
            &&& message.metadata.get("chat_id"@) == Some(
                match card_chat(value) {
                    Some(chat_id) => JsonView::Text(chat_id),
                    None => JsonView::Null,
                },
            )
            &&& message.metadata.get("message_id"@) == Some(
                match card_message(value) {
                    Some(message_id) => JsonView::Text(message_id),
                    None => JsonView::Null,
                },
            )
            &&& message.channel == "feishu"@
            &&& message.peer_id == card_operator(value)
            &&& message.chat_type == (match card_chat(value) {
                Some(id) => ChatView::Group { id },
                None => ChatView::Direct,
            })
            &&& message.text.len() == 0
            &&& message.media.len() == 0
            &&& message.timestamp is None
        },
        approval_response(value, approval_id, decision) == card_answer(
            value,
            Some((approval_id, decision)),
        )->Some_0,
{
    lemma_response_names();
}

/// A button whose callback is missing, or says nothing of an approval, tells the
/// gateway nothing.
pub proof fn other_buttons_say_nothing(
    value: JsonView,
    approval: Option<(Seq<char>, Seq<char>)>,
)
    requires
        card_callback(value) is None || approval is None,
    ensures
        card_answer(value, approval) is None,
{
}

/// What is found in a callback depends on the callback alone: a parser that finds
/// one thing in each text finds that in the callback, and nothing else.
pub proof fn callbacks_are_parsed<F: Fn(&str) -> Option<(String, String)>>(
    parse_approval_callback: F,
    meaning: spec_fn(Seq<char>) -> Option<(Seq<char>, Seq<char>)>,
    callback: Seq<char>,
    approval: Option<(Seq<char>, Seq<char>)>,
)
    requires
        forall|text: &str, found: Option<(String, String)>| #[trigger]
            call_ensures(parse_approval_callback, (text,), found) ==> meaning(text@) == (
            match found {
                Some((approval_id, decision)) => Some((approval_id@, decision@)),
                None => None,
            }),
        may_find(parse_approval_callback, callback, approval),
    ensures
        approval == meaning(callback),
{
}

} // verus!

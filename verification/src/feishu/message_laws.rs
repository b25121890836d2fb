//! What holds of message events: which are read, which are taken in, and what
//! the gateway is told of them.
use vstd::prelude::*;

use crate::json::{scalar_of, JsonView};
use crate::number::{signed_decimal, signed_number};
use crate::text::{trimmed, without};
use crate::text_laws::{signed_numbers_are_read, the_first_name_counts};

use super::channel::ChannelView;
use super::events::{
    bot_mentioned, content_text, event_of, event_sender, without_mentions, EventView,
};
use super::laws::{after_events, threads_stay_active};
use super::types::ChatView;

verus! {

// ----------------------------------------------------------------- reading

/// The sender of a message is who its sender identifiers name: the open
/// identifier counts before that of the user, and this before the union's.
pub proof fn senders_are_named(event: JsonView, sender: JsonView, ids: JsonView)
    requires
        event.get("sender"@) == Some(sender),
        sender.get("sender_id"@) == Some(ids),
    ensures
        event_sender(event) == (if scalar_of(ids.get("open_id"@)) is Some {
            scalar_of(ids.get("open_id"@))
        } else if scalar_of(ids.get("user_id"@)) is Some {
            scalar_of(ids.get("user_id"@))
        } else {
            scalar_of(ids.get("union_id"@))
        }),
{
    let places = seq![ids.get("open_id"@), ids.get("user_id"@), ids.get("union_id"@)];
    if scalar_of(places[0]) is Some {
        the_first_name_counts(places, 0);
    } else if scalar_of(places[1]) is Some {
        the_first_name_counts(places, 1);
    } else {
        the_first_name_counts(places, 2);
    }
}

/// The event of a text message is read: who sent it, which message of which chat
/// it is, and what stands in it.
pub proof fn text_messages_are_read(
    value: JsonView,
    header: JsonView,
    event: JsonView,
    message: JsonView,
    content: Seq<char>,
)
    requires
        value.get("header"@) == Some(header),
        header.get("event_type"@) == Some(JsonView::Text("im.message.receive_v1"@)),
        value.get("event"@) == Some(event),
        event_sender(event) is Some,
        event.get("message"@) == Some(message),
        scalar_of(message.get("message_id"@)) is Some,
        scalar_of(message.get("chat_id"@)) is Some,
        message.get("message_type"@) == Some(JsonView::Text("text"@)),
        message.get("content"@) == Some(JsonView::Text(content)),
    ensures
        event_of(value) matches Some(read) && {
            &&& Some(read.sender_id) == event_sender(event)
            &&& Some(read.message_id) == scalar_of(message.get("message_id"@))
            &&& Some(read.chat_id) == scalar_of(message.get("chat_id"@))
            &&& read.message_type == "text"@
            &&& read.content == content
            &&& read.chat_type == (match message.get("chat_type"@) {
                Some(JsonView::Text(chat_type)) => chat_type,
                _ => Seq::empty(),
            })
            &&& read.mentions == (match message.get("mentions"@) {
                Some(JsonView::Array(mentions)) => mentions,
                _ => Seq::empty(),
            })
            &&& read.root_id == scalar_of(message.get("root_id"@))
            &&& read.parent_id == scalar_of(message.get("parent_id"@))
            &&& read.create_time == scalar_of(message.get("create_time"@))
        },
{
}

/// No other event is read: one of another kind, or one that lacks its sender, its
/// message, its chat or its text.
pub proof fn other_events_are_not_read(value: JsonView)
    requires
        event_of(value) is Some,
    ensures
        value.get("header"@) matches Some(header) && header.get("event_type"@) == Some(
            JsonView::Text("im.message.receive_v1"@),
        ),
        value.get("event"@) matches Some(event) && event_sender(event) is Some && {
            event.get("message"@) matches Some(message) && {
                &&& scalar_of(message.get("message_id"@)) is Some
                &&& scalar_of(message.get("chat_id"@)) is Some
                &&& message.get("message_type"@) == Some(JsonView::Text("text"@))
                &&& message.get("content"@) matches Some(JsonView::Text(_))
            }
        },
{
    reveal_strlit("text");
    assert("text"@.len() == 4);
}

/// The text of a message is the text in its content; a content without one is
/// the text itself.
pub proof fn contents_hold_texts(content: Seq<char>, text: Seq<char>, document: JsonView)
    ensures
        document.get("text"@) == Some(JsonView::Text(text)) ==> content_text(
            content,
            Some(document),
        ) == text,
        !(document.get("text"@) matches Some(JsonView::Text(_))) ==> content_text(
            content,
            Some(document),
        ) == content,
        content_text(content, None) == content,
{
}

// ---------------------------------------------------------------- mentions

/// A bot that is known is mentioned by any of the mentions, wherever it stands
/// among those of others.
pub proof fn mentions_count_anywhere(
    before: Seq<JsonView>,
    mention: JsonView,
    after: Seq<JsonView>,
    id: JsonView,
    bot: Seq<char>,
)
    requires
        mention.get("id"@) == Some(id),
        id.get("open_id"@) == Some(JsonView::Text(bot)),
    ensures
        bot_mentioned(before + seq![mention] + after, bot),
{
    let mentions = before + seq![mention] + after;
    assert(mentions[before.len() as int] == mention);
}

/// Mentions of others do not count as mentions of a bot that is known.
pub proof fn mentions_of_others_do_not_count(mentions: Seq<JsonView>, bot: Seq<char>)
    requires
        bot.len() > 0,
        forall|i: int, id: JsonView|
            0 <= i < mentions.len() && (#[trigger] mentions[i]).get("id"@) == Some(id)
                ==> #[trigger] id.get("open_id"@) != Some(JsonView::Text(bot)),
    ensures
        !bot_mentioned(mentions, bot),
{
    assert forall|i: int| 0 <= i < mentions.len() implies !super::events::mention_of(
        #[trigger] mentions[i],
        bot,
    ) by {
        if let Some(id) = mentions[i].get("id"@) {
            assert(id.get("open_id"@) != Some(JsonView::Text(bot)));
        }
    }
}

/// While the bot is not known, any mention counts.
pub proof fn any_mention_counts_at_first(mentions: Seq<JsonView>)
    ensures
        bot_mentioned(mentions, Seq::empty()) <==> mentions.len() > 0,
{
}

/// More mentions, before or after, never make a mentioned bot unmentioned.
pub proof fn more_mentions_keep_the_mention(
    before: Seq<JsonView>,
    mentions: Seq<JsonView>,
    after: Seq<JsonView>,
    bot: Seq<char>,
)
    requires
        bot_mentioned(mentions, bot),
    ensures
        bot_mentioned(before + mentions + after, bot),
{
    let all = before + mentions + after;
    if bot.len() > 0 {
        let i = choose|i: int|
            0 <= i < mentions.len() && super::events::mention_of(#[trigger] mentions[i], bot);
        assert(all[before.len() + i] == mentions[i]);
    }
}

/// A message without mentions keeps its text. Mentions are stripped one after the
/// other.
pub proof fn mentions_are_stripped_in_turn(
    text: Seq<char>,
    first: Seq<JsonView>,
    second: Seq<JsonView>,
)
    ensures
        without_mentions(text, Seq::empty()) == text,
        without_mentions(text, first + second) == without_mentions(
            without_mentions(text, first),
            second,
        ),
    decreases second.len(),
{
    if second.len() == 0 {
        assert(first + second =~= first);
    } else {
        assert((first + second).drop_last() =~= first + second.drop_last());
        assert((first + second).last() == second.last());
        mentions_are_stripped_in_turn(text, first, second.drop_last());
    }
}

/// A mention takes its key out of the text, and then an `@` with its name; one
/// that has neither takes nothing out.
pub proof fn a_mention_is_stripped(text: Seq<char>, mention: JsonView, key: Seq<char>, name: Seq<char>)
    ensures
        ({
            let left = without_mentions(text, seq![mention]);
            let has_key = mention.get("key"@) == Some(JsonView::Text(key));
            let has_name = mention.get("name"@) == Some(JsonView::Text(name));
            let no_key = !(mention.get("key"@) matches Some(JsonView::Text(_)));
            let no_name = !(mention.get("name"@) matches Some(JsonView::Text(_)));
            &&& has_key && has_name ==> left == without(without(text, key), seq!['@'] + name)
            &&& has_key && no_name ==> left == without(text, key)
            &&& no_key && has_name ==> left == without(text, seq!['@'] + name)
            &&& no_key && no_name ==> left == text
        }),
{
    reveal_strlit("@");
    assert("@"@ =~= seq!['@']);
    let mentions = seq![mention];
    assert(mentions.drop_last() =~= Seq::<JsonView>::empty());
    assert(mentions.last() == mention);
    assert(without_mentions(text, mentions.drop_last()) == text);
}

// -------------------------------------------------- what is taken in, and why

/// A message that mentions the bot is taken in, unless the bot wrote it. In a
/// group it opens a thread: the one that it was written in, or else its own.
pub proof fn mentioned_messages_are_taken_in(
    state: ChannelView,
    event: EventView,
    text: Seq<char>,
    bot: Seq<char>,
    i: int,
    id: JsonView,
)
    requires
        state.bot_open_id == Some(bot),
        bot.len() > 0,
        event.sender_id != bot,
        0 <= i < event.mentions.len(),
        event.mentions[i].get("id"@) == Some(id),
        id.get("open_id"@) == Some(JsonView::Text(bot)),
    ensures
        state.message_of(event, text) matches Some(message) && message.metadata.get(
            "mentioned"@,
        ) == Some(JsonView::Bool(true)),
        event.chat_type == "p2p"@ ==> state.after_event(event) == state,
        event.chat_type != "p2p"@ ==> state.after_event(event) == (ChannelView {
            threads: state.threads.insert(
                (
                    event.chat_id,
                    match event.root_id {
                        Some(root) if root.len() > 0 && root != event.message_id => root,
                        _ => event.message_id,
                    },
                ),
            ),
            ..state
        }),
{
    let mentions = event.mentions;
    assert(mentions =~= mentions.take(i) + seq![mentions[i]] + mentions.skip(i + 1));
    mentions_count_anywhere(mentions.take(i), mentions[i], mentions.skip(i + 1), id, bot);
    lemma_metadata(event, bot);
}

/// While the bot is not known, a group message with any mention is taken in and
/// opens a thread.
pub proof fn mentions_of_an_unknown_bot(state: ChannelView, event: EventView, text: Seq<char>)
    requires
        state.bot_open_id is None || state.bot_open_id->Some_0.len() == 0,
        event.mentions.len() > 0,
    ensures
        state.message_of(event, text) matches Some(message) && message.metadata.get(
            "mentioned"@,
        ) == Some(JsonView::Bool(true)),
        event.chat_type != "p2p"@ ==> state.after_event(event).threads == state.threads.insert(
            (
                event.chat_id,
                match event.root_id {
                    Some(root) if root.len() > 0 && root != event.message_id => root,
                    _ => event.message_id,
                },
            ),
        ),
{
    assert(state.bot() =~= Seq::<char>::empty());
    lemma_metadata(event, state.bot());
}

/// A group message that does not mention the bot is taken in just where someone
/// else wrote it in an active thread of its chat. It changes nothing.
pub proof fn unmentioned_messages_need_a_thread(
    state: ChannelView,
    event: EventView,
    text: Seq<char>,
    bot: Seq<char>,
)
    requires
        state.bot_open_id == Some(bot),
        bot.len() > 0,
        event.chat_type != "p2p"@,
        forall|i: int, id: JsonView|
            0 <= i < event.mentions.len() && (#[trigger] event.mentions[i]).get("id"@) == Some(id)
                ==> #[trigger] id.get("open_id"@) != Some(JsonView::Text(bot)),
    ensures
        state.after_event(event) == state,
        state.message_of(event, text) is Some <==> event.sender_id != bot && (
        event.root_id matches Some(root) && root.len() > 0 && root != event.message_id
            && state.threads.contains((event.chat_id, root))),
        state.message_of(event, text) matches Some(message) ==> message.metadata.get(
            "mentioned"@,
        ) == Some(JsonView::Bool(false)),
{
    mentions_of_others_do_not_count(event.mentions, bot);
    lemma_metadata(event, bot);
}

/// A group message without mentions is taken in just where someone else wrote it
/// in an active thread of its chat, be the bot known or not.
pub proof fn messages_without_mentions_need_a_thread(
    state: ChannelView,
    event: EventView,
    text: Seq<char>,
)
    requires
        event.chat_type != "p2p"@,
        event.mentions.len() == 0,
    ensures
        state.after_event(event) == state,
        state.message_of(event, text) is Some <==> !(state.bot_open_id matches Some(bot)
            && bot.len() > 0 && event.sender_id == bot) && (event.root_id matches Some(root)
            && root.len() > 0 && root != event.message_id && state.threads.contains(
            (event.chat_id, root),
        )),
{
}

/// What the bot wrote is never taken in, and changes nothing.
pub proof fn the_bot_does_not_hear_itself(
    state: ChannelView,
    event: EventView,
    text: Seq<char>,
    bot: Seq<char>,
)
    requires
        state.bot_open_id == Some(bot),
        bot.len() > 0,
        event.sender_id == bot,
    ensures
        state.message_of(event, text) is None,
        state.after_event(event) == state,
{
}

/// What anyone else writes to the bot alone is taken in, and changes nothing.
pub proof fn the_bot_hears_what_it_is_told(state: ChannelView, event: EventView, text: Seq<char>)
    requires
        event.chat_type == "p2p"@,
        state.bot_open_id matches Some(bot) ==> bot.len() == 0 || event.sender_id != bot,
    ensures
        state.message_of(event, text) is Some,
        state.after_event(event) == state,
{
}

/// A mention in a thread of a group opens that thread, and a mention outside of
/// threads opens one of its own: whatever comes in between, a later message of
/// someone else that goes back to the same message in the same chat is taken in,
/// with a mention or without.
pub proof fn threads_are_followed(
    state: ChannelView,
    mention: EventView,
    i: int,
    id: JsonView,
    between: Seq<EventView>,
    reply: EventView,
    text: Seq<char>,
    bot: Seq<char>,
    root: Seq<char>,
)
    requires
        state.bot_open_id == Some(bot),
        bot.len() > 0,
        mention.chat_type != "p2p"@,
        mention.sender_id != bot,
        0 <= i < mention.mentions.len(),
        mention.mentions[i].get("id"@) == Some(id),
        id.get("open_id"@) == Some(JsonView::Text(bot)),
        root == (match mention.root_id {
            Some(root) if root.len() > 0 => root,
            _ => mention.message_id,
        }),
        root.len() > 0,
        reply.chat_id == mention.chat_id,
        reply.root_id == Some(root),
        reply.message_id != root,
        reply.sender_id != bot,
    ensures
        state.after_event(mention).threads.contains((mention.chat_id, root)),
        after_events(state.after_event(mention), between).threads.contains(
            (mention.chat_id, root),
        ),
        after_events(state.after_event(mention), between).message_of(reply, text) is Some,
{
    mentioned_messages_are_taken_in(state, mention, text, bot, i, id);
    threads_stay_active(state.after_event(mention), between);
}

// ------------------------------------------------- what the gateway is told

proof fn lemma_metadata(event: EventView, bot: Seq<char>)
    ensures
        ({
            let metadata = event.metadata(bot);
            &&& metadata.get("chat_id"@) == Some(JsonView::Text(event.chat_id))
            &&& metadata.get("message_id"@) == Some(JsonView::Text(event.message_id))
            &&& metadata.get("root_id"@) == Some(
                match event.root_id {
                    Some(root) => JsonView::Text(root),
                    None => JsonView::Null,
                },
            )
            &&& metadata.get("parent_id"@) == Some(
                match event.parent_id {
                    Some(parent) => JsonView::Text(parent),
                    None => JsonView::Null,
                },
            )
            &&& metadata.get("chat_type"@) == Some(JsonView::Text(event.chat_type))
            &&& metadata.get("message_type"@) == Some(JsonView::Text(event.message_type))
            &&& metadata.get("mentioned"@) == Some(
                JsonView::Bool(bot_mentioned(event.mentions, bot)),
            )
            &&& metadata.get("sender_id"@) == Some(JsonView::Text(event.sender_id))
        }),
{
    reveal_strlit("chat_id");
    reveal_strlit("message_id");
    reveal_strlit("root_id");
    reveal_strlit("parent_id");
    reveal_strlit("chat_type");
    reveal_strlit("message_type");
    reveal_strlit("mentioned");
    reveal_strlit("sender_id");
    assert("chat_id"@.len() == 7 && "message_id"@.len() == 10 && "root_id"@.len() == 7
        && "parent_id"@.len() == 9 && "chat_type"@.len() == 9 && "message_type"@.len() == 12
        && "mentioned"@.len() == 9 && "sender_id"@.len() == 9);
    assert("chat_id"@[0] == 'c' && "root_id"@[0] == 'r' && "parent_id"@[0] == 'p'
        && "chat_type"@[0] == 'c' && "mentioned"@[0] == 'm' && "sender_id"@[0] == 's');
}

/// The gateway is told who wrote a message that is taken in, where, and the text
/// without what mentions left in it; and its identifiers as the platform gave
/// them.
pub proof fn the_gateway_is_told(state: ChannelView, event: EventView, text: Seq<char>)
    ensures
        state.message_of(event, text) matches Some(message) ==> {
            &&& message.channel == "feishu"@
            &&& message.peer_id == event.sender_id
            &&& message.text == trimmed(without_mentions(text, event.mentions))
            &&& message.media.len() == 0
            &&& event.chat_type == "p2p"@ ==> message.chat_type == ChatView::Direct
            &&& event.chat_type != "p2p"@ ==> message.chat_type == (match event.root_id {
                Some(root) if root.len() > 0 && root != event.message_id => ChatView::Thread {
                    group_id: event.chat_id,
                    thread_id: root,
                },
                _ => ChatView::Group { id: event.chat_id },
            })
            &&& message.metadata.get("chat_id"@) == Some(JsonView::Text(event.chat_id))
            &&& message.metadata.get("message_id"@) == Some(JsonView::Text(event.message_id))
            &&& message.metadata.get("root_id"@) == Some(
                match event.root_id {
                    Some(root) => JsonView::Text(root),
                    None => JsonView::Null,
                },
            )
            &&& message.metadata.get("parent_id"@) == Some(
                match event.parent_id {
                    Some(parent) => JsonView::Text(parent),
                    None => JsonView::Null,
                },
            )
            &&& message.metadata.get("chat_type"@) == Some(JsonView::Text(event.chat_type))
            &&& message.metadata.get("message_type"@) == Some(JsonView::Text(event.message_type))
            &&& message.metadata.get("sender_id"@) == Some(JsonView::Text(event.sender_id))
        },
{
    lemma_metadata(event, state.bot());
}

/// A message is dated by the milliseconds that its event gives, where a calendar
/// has a date for them, and not dated otherwise.
pub proof fn messages_are_dated(state: ChannelView, event: EventView, text: Seq<char>, millis: int)
    ensures
        state.message_of(event, text) matches Some(message) ==> {
            &&& event.create_time == Some(signed_decimal(millis)) ==> message.timestamp == (if
                -8_334_601_228_800_000 <= millis <= 8_210_266_876_799_999 {
                Some(millis)
            } else {
                None
            })
            &&& event.create_time is None ==> message.timestamp is None
            &&& (event.create_time matches Some(time) ==> signed_number(time) is None
                ==> message.timestamp is None)
        },
{
    signed_numbers_are_read(millis);
}

/// To make a thread active makes that one active, and changes nothing else.
pub proof fn threads_are_made_active(
    state: ChannelView,
    chat_id: Seq<char>,
    thread_id: Seq<char>,
    other: (Seq<char>, Seq<char>),
)
    ensures
        ({
            let after = state.with_thread(chat_id, thread_id);
            &&& after.threads.contains(other) <==> other == (chat_id, thread_id)
                || state.threads.contains(other)
            &&& after == (ChannelView { threads: after.threads, ..state })
        }),
{
}

/// The bot is who the channel was told that it is, and nothing else changes. The
/// bot is not known where the channel was told of no one.
pub proof fn the_bot_is_who_was_told(state: ChannelView, open_id: Seq<char>)
    ensures
        state.with_bot(Some(open_id)).bot() == open_id,
        state.with_bot(None).bot().len() == 0,
        state.with_bot(Some(open_id)) == (ChannelView { bot_open_id: Some(open_id), ..state }),
        state.with_bot(None) == (ChannelView { bot_open_id: None, ..state }),
{
}

} // verus!

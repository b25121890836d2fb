//! Message events: what they say, and which of them concern the bot.
use vstd::prelude::*;

use crate::json::{
    first_scalar, first_string, items_view, lemma_items_view, member, member_as_string, member_of,
    member_text, nullable, opt_text, opt_view, opt_views, scalar_of, text_of, Json, JsonView,
};
use crate::json_codec::{document_in_text, parse_text};
use crate::number::signed_number;
use crate::text::{joined, remove_all, same_text, trim, trimmed, without};

use super::types::{ChatView, InboundView};

verus! {

/// The first millisecond, counted from the start of 1970, that a calendar date
/// is known for.
pub const FIRST_MILLIS: i64 = -8_334_601_228_800_000;

/// The last millisecond that a calendar date is known for.
pub const LAST_MILLIS: i64 = 8_210_266_876_799_999;

/// The time that many milliseconds after the start of 1970, where
/// `chrono::DateTime::from_timestamp_millis` has a date for it: from the year
/// -262143 to the year 262142. `DateTime::timestamp_millis` gives the same
/// number back.
#[verifier::external_body]
pub(crate) fn timestamp_millis_to_datetime(value: i64) -> (r: Option<i64>)
    ensures
        r == (if FIRST_MILLIS <= value <= LAST_MILLIS {
            Some(value)
        } else {
            None
        }),
{
    match chrono::DateTime::from_timestamp_millis(value) {
        Some(time) => Some(time.timestamp_millis()),
        None => None,
    }
}

/// What a message event says.
pub struct EventView {
    pub sender_id: Seq<char>,
    pub message_id: Seq<char>,
    pub chat_id: Seq<char>,
    pub chat_type: Seq<char>,
    pub message_type: Seq<char>,
    pub content: Seq<char>,
    pub mentions: Seq<JsonView>,
    pub root_id: Option<Seq<char>>,
    pub parent_id: Option<Seq<char>>,
    pub create_time: Option<Seq<char>>,
}

/// What a message event says.
pub struct MessageEvent<'a> {
    pub sender_id: String,
    pub message_id: String,
    pub chat_id: String,
    pub chat_type: String,
    pub message_type: String,
    pub content: String,
    pub mentions: Option<&'a Vec<Json>>,
    pub root_id: Option<String>,
    pub parent_id: Option<String>,
    pub create_time: Option<String>,
}

/// The items of a list that may be missing.
pub open spec fn list_view(items: Option<&Vec<Json>>) -> Seq<JsonView> {
    match items {
        Some(items) => items_view(items@),
        None => Seq::empty(),
    }
}

impl View for MessageEvent<'_> {
    type V = EventView;

    open spec fn view(&self) -> EventView {
        EventView {
            sender_id: self.sender_id@,
            message_id: self.message_id@,
            chat_id: self.chat_id@,
            chat_type: self.chat_type@,
            message_type: self.message_type@,
            content: self.content@,
            mentions: list_view(self.mentions),
            root_id: opt_text(self.root_id),
            parent_id: opt_text(self.parent_id),
            create_time: opt_text(self.create_time),
        }
    }
}

/// A text, or the empty text where there is none.
pub open spec fn text_or_empty(text: Option<Seq<char>>) -> Seq<char> {
    match text {
        Some(text) => text,
        None => Seq::empty(),
    }
}

/// Who sent the message of an event.
pub open spec fn event_sender(event: JsonView) -> Option<Seq<char>> {
    let ids = member_of(event.get("sender"@), "sender_id"@);
    first_scalar(
        seq![member_of(ids, "open_id"@), member_of(ids, "user_id"@), member_of(ids, "union_id"@)],
    )
}

/// What an event of the platform says, where it tells of a text message.
pub open spec fn event_of(value: JsonView) -> Option<EventView> {
    let kind = text_of(member_of(value.get("header"@), "event_type"@));
    match (value.get("event"@), member_of(value.get("event"@), "message"@)) {
        (Some(event), Some(message)) => {
            let message_type = text_or_empty(text_of(message.get("message_type"@)));
            match (
                event_sender(event),
                scalar_of(message.get("message_id"@)),
                scalar_of(message.get("chat_id"@)),
                text_of(message.get("content"@)),
            ) {
                (
                    Some(sender_id),
                    Some(message_id),
                    Some(chat_id),
                    Some(content),
                ) if kind == Some("im.message.receive_v1"@) && message_type == "text"@ => Some(
                    EventView {
                        sender_id,
                        message_id,
                        chat_id,
                        chat_type: text_or_empty(text_of(message.get("chat_type"@))),
                        message_type,
                        content,
                        mentions: match message.get("mentions"@) {
                            Some(JsonView::Array(items)) => items,
                            _ => Seq::empty(),
                        },
                        root_id: scalar_of(message.get("root_id"@)),
                        parent_id: scalar_of(message.get("parent_id"@)),
                        create_time: scalar_of(message.get("create_time"@)),
                    },
                ),
                _ => None,
            }
        },
        _ => None,
    }
}

fn text_or_default(text: Option<&String>) -> (r: String)
    ensures
        r@ == text_or_empty(
            match text {
                Some(text) => Some(text@),
                None => None,
            },
        ),
{
    match text {
        Some(text) => text.clone(),
        None => String::new(),
    }
}

/// Reads what an event of the platform says, where it tells of a text message.
pub fn read_event(value: &Json) -> (r: Option<MessageEvent<'_>>)
    ensures
        match r {
            Some(event) => event_of(value@) == Some(event@) && event@.wf(),
            None => event_of(value@) is None,
        },
{
    match member(value.get("header"), "event_type") {
        Some(kind) => match kind.as_text() {
            Some(kind) => {
                if !same_text(kind.as_str(), "im.message.receive_v1") {
                    return None;
                }
            },
            None => {
                return None;
            },
        },
        None => {
            return None;
        },
    }
    let event = match value.get("event") {
        Some(event) => event,
        None => {
            return None;
        },
    };
    let ids = member(event.get("sender"), "sender_id");
    let names: Vec<Option<&Json>> = vec![
        member(ids, "open_id"),
        member(ids, "user_id"),
        member(ids, "union_id"),
    ];
    assert(opt_views(names@) =~= seq![
        member_of(opt_view(ids), "open_id"@),
        member_of(opt_view(ids), "user_id"@),
        member_of(opt_view(ids), "union_id"@),
    ]);
    let sender_id = match first_string(names.as_slice()) {
        Some(sender_id) => sender_id,
        None => {
            return None;
        },
    };
    let message = match event.get("message") {
        Some(message) => message,
        None => {
            return None;
        },
    };
    let message_id = match member_as_string(message, "message_id") {
        Some(message_id) => message_id,
        None => {
            return None;
        },
    };
    let chat_id = match member_as_string(message, "chat_id") {
        Some(chat_id) => chat_id,
        None => {
            return None;
        },
    };
    let chat_type = text_or_default(member_text(message, "chat_type"));
    let message_type = text_or_default(member_text(message, "message_type"));
    if !same_text(message_type.as_str(), "text") {
        return None;
    }
    let content = match member_text(message, "content") {
        Some(content) => content.clone(),
        None => {
            return None;
        },
    };
    let mentions = match message.get("mentions") {
        Some(mentions) => mentions.as_items(),
        None => None,
    };
    Some(
        MessageEvent {
            sender_id,
            message_id,
            chat_id,
            chat_type,
            message_type,
            content,
            mentions,
            root_id: member_as_string(message, "root_id"),
            parent_id: member_as_string(message, "parent_id"),
            create_time: member_as_string(message, "create_time"),
        },
    )
}

/// The text of a message whose content was read as that document: its `text`
/// member, or the content as it is where there is no such text.
pub open spec fn content_text(content: Seq<char>, document: Option<JsonView>) -> Seq<char> {
    match text_of(member_of(document, "text"@)) {
        Some(text) => text,
        None => content,
    }
}

/// The text of a message whose content was read as that document.
pub fn text_of_content(content: &str, document: Option<Json>) -> (r: String)
    ensures
        r@ == content_text(
            content@,
            match document {
                Some(document) => Some(document@),
                None => None,
            },
        ),
{
    match &document {
        Some(document) => match member_text(document, "text") {
            Some(text) => text.clone(),
            None => content.to_owned(),
        },
        None => content.to_owned(),
    }
}

/// The text of a message, out of its content.
pub fn parse_text_content(content: &str) -> (r: String)
    ensures
        r@ == content_text(content@, document_in_text(content@)),
{
    text_of_content(content, parse_text(content))
}

/// Whether a mention is one of the user of that identifier.
pub open spec fn mention_of(mention: JsonView, open_id: Seq<char>) -> bool {
    text_of(member_of(mention.get("id"@), "open_id"@)) == Some(open_id)
}

/// Whether the bot is mentioned. While the bot does not know who it is, any
/// mention counts.
pub open spec fn bot_mentioned(mentions: Seq<JsonView>, bot_open_id: Seq<char>) -> bool {
    if bot_open_id.len() == 0 {
        mentions.len() > 0
    } else {
        exists|i: int| 0 <= i < mentions.len() && mention_of(#[trigger] mentions[i], bot_open_id)
    }
}

/// Whether the bot is mentioned. While the bot does not know who it is, any
/// mention counts.
pub fn mention_targets_bot(mentions: &[Json], bot_open_id: &str) -> (r: bool)
    ensures
        r == bot_mentioned(items_view(mentions@), bot_open_id@),
{
    proof {
        lemma_items_view(mentions@);
    }
    if bot_open_id.is_empty() {
        return mentions.len() > 0;
    }
    let mut i: usize = 0;
    while i < mentions.len()
        invariant
            i <= mentions@.len(),
            items_view(mentions@).len() == mentions@.len(),
            forall|j: int|
                0 <= j < mentions@.len() ==> items_view(mentions@)[j] == #[trigger] mentions@[j]@,
            forall|j: int| 0 <= j < i ==> !mention_of(items_view(mentions@)[j], bot_open_id@),
            bot_open_id@.len() > 0,
        decreases mentions@.len() - i,
    {
        assert(items_view(mentions@)[i as int] == mentions@[i as int]@);
        if let Some(id) = member(mentions[i].get("id"), "open_id") {
            if let Some(id) = id.as_text() {
                if same_text(id.as_str(), bot_open_id) {
                    assert(mention_of(items_view(mentions@)[i as int], bot_open_id@));
                    return true;
                }
            }
        }
        i += 1;
    }
    false
}

/// The text without the key of a mention, and without an `@` and its name.
pub open spec fn without_mention(text: Seq<char>, mention: JsonView) -> Seq<char> {
    let text = match text_of(mention.get("key"@)) {
        Some(key) => without(text, key),
        None => text,
    };
    match text_of(mention.get("name"@)) {
        Some(name) => without(text, "@"@ + name),
        None => text,
    }
}

/// The text without what mentions left in it, one mention after the other.
pub open spec fn without_mentions(text: Seq<char>, mentions: Seq<JsonView>) -> Seq<char>
    decreases mentions.len(),
{
    if mentions.len() == 0 {
        text
    } else {
        without_mention(without_mentions(text, mentions.drop_last()), mentions.last())
    }
}

/// Takes what mentions left in a text out of it, and trims it.
pub fn strip_mention_text(text: String, mentions: &[Json]) -> (r: String)
    ensures
        r@ == trimmed(without_mentions(text@, items_view(mentions@))),
{
    let mut out = text;
    let ghost views = items_view(mentions@);
    let mut i: usize = 0;
    proof {
        lemma_items_view(mentions@);
        assert(views.take(0) =~= Seq::<JsonView>::empty());
    }
    while i < mentions.len()
        invariant
            i <= mentions@.len(),
            views.len() == mentions@.len(),
            forall|j: int| 0 <= j < mentions@.len() ==> views[j] == #[trigger] mentions@[j]@,
            out@ == without_mentions(text@, views.take(i as int)),
        decreases mentions@.len() - i,
    {
        let mention = &mentions[i];
        proof {
            let longer = views.take(i + 1);
            assert(longer.drop_last() =~= views.take(i as int));
            assert(longer.last() == mention@);
        }
        if let Some(key) = member_text(mention, "key") {
            out = remove_all(out.as_str(), key.as_str());
        }
        if let Some(name) = member_text(mention, "name") {
            let call = joined("@", name.as_str());
            out = remove_all(out.as_str(), call.as_str());
        }
        i += 1;
    }
    assert(views.take(i as int) =~= views);
    trim(out.as_str())
}

impl EventView {
    /// The invariant of events: the chat and the message have identifiers that
    /// are not blank.
    pub open spec fn wf(self) -> bool {
        trimmed(self.chat_id).len() > 0 && trimmed(self.message_id).len() > 0
    }

    /// Whether the message was written to the bot alone.
    pub open spec fn is_direct(self) -> bool {
        self.chat_type == "p2p"@
    }

    /// The thread that the message was written in: the message it goes back to.
    pub open spec fn thread(self) -> Option<Seq<char>> {
        match self.root_id {
            Some(root) if root.len() > 0 && root != self.message_id => Some(root),
            _ => None,
        }
    }

    /// Whether the bot wrote the message.
    pub open spec fn is_from(self, bot_open_id: Seq<char>) -> bool {
        bot_open_id.len() > 0 && self.sender_id == bot_open_id
    }

    /// Whether the message mentions the bot.
    pub open spec fn mentions_bot(self, bot_open_id: Seq<char>) -> bool {
        bot_mentioned(self.mentions, bot_open_id)
    }

    /// The chat and the thread that a mention makes active.
    pub open spec fn opened_thread(self) -> (Seq<char>, Seq<char>) {
        (
            self.chat_id,
            match self.thread() {
                Some(thread) => thread,
                None => self.message_id,
            },
        )
    }

    /// Whether the message concerns the bot: it was written by someone else,
    /// and to the bot alone, or with a mention, or in an active thread.
    pub open spec fn concerns(
        self,
        bot_open_id: Seq<char>,
        threads: Set<(Seq<char>, Seq<char>)>,
    ) -> bool {
        &&& !self.is_from(bot_open_id)
        &&& {
            ||| self.is_direct()
            ||| self.mentions_bot(bot_open_id)
            ||| self.thread() is Some && threads.contains((self.chat_id, self.thread()->Some_0))
        }
    }

    /// The active threads after the message: one more where it mentions the
    /// bot in a group.
    pub open spec fn threads_after(
        self,
        bot_open_id: Seq<char>,
        threads: Set<(Seq<char>, Seq<char>)>,
    ) -> Set<(Seq<char>, Seq<char>)> {
        if !self.is_from(bot_open_id) && !self.is_direct() && self.mentions_bot(bot_open_id) {
            threads.insert(self.opened_thread())
        } else {
            threads
        }
    }

    /// When the message was written.
    pub open spec fn written_at(self) -> Option<int> {
        match self.create_time {
            Some(text) => match signed_number(text) {
                Some(millis) if FIRST_MILLIS <= millis <= LAST_MILLIS => Some(millis),
                _ => None,
            },
            None => None,
        }
    }

    /// Where the message was written.
    pub open spec fn place(self) -> ChatView {
        if self.is_direct() {
            ChatView::Direct
        } else {
            match self.thread() {
                Some(thread_id) => ChatView::Thread { group_id: self.chat_id, thread_id },
                None => ChatView::Group { id: self.chat_id },
            }
        }
    }

    /// What the gateway is told about the message besides its text.
    pub open spec fn metadata(self, bot_open_id: Seq<char>) -> JsonView {
        JsonView::Object(
            Map::<Seq<char>, JsonView>::empty().insert(
                "chat_id"@,
                JsonView::Text(self.chat_id),
            ).insert("message_id"@, JsonView::Text(self.message_id)).insert(
                "root_id"@,
                nullable(self.root_id),
            ).insert("parent_id"@, nullable(self.parent_id)).insert(
                "chat_type"@,
                JsonView::Text(self.chat_type),
            ).insert("message_type"@, JsonView::Text(self.message_type)).insert(
                "mentioned"@,
                JsonView::Bool(self.mentions_bot(bot_open_id)),
            ).insert("sender_id"@, JsonView::Text(self.sender_id)),
        )
    }

    /// The message that the gateway gets, out of that text.
    pub open spec fn inbound(self, text: Seq<char>, bot_open_id: Seq<char>) -> InboundView {
        InboundView {
            channel: "feishu"@,
            peer_id: self.sender_id,
            chat_type: self.place(),
            text: trimmed(without_mentions(text, self.mentions)),
            media: Seq::empty(),
            metadata: self.metadata(bot_open_id),
            timestamp: self.written_at(),
        }
    }
}

impl MessageEvent<'_> {
    pub(crate) fn is_direct(&self) -> (r: bool)
        ensures
            r == self@.is_direct(),
    {
        same_text(self.chat_type.as_str(), "p2p")
    }

    pub(crate) fn thread(&self) -> (r: Option<String>)
        ensures
            opt_text(r) == self@.thread(),
    {
        match &self.root_id {
            Some(root) => {
                if !root.as_str().is_empty() && !same_text(
                    root.as_str(),
                    self.message_id.as_str(),
                ) {
                    Some(root.clone())
                } else {
                    None
                }
            },
            None => None,
        }
    }
}

} // verus!

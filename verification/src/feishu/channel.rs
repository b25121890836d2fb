//! The state of the channel, and what it does with what comes in.
use vstd::prelude::*;

use crate::json::{opt_text, Json, JsonObject};
use crate::json_codec::document_in_text;
use crate::number::{parse_signed, parse_unsigned, unsigned_number};
use crate::text::{same_text, strip_end, stripped_end, trim, trimmed, trimmed_twice};
use crate::text_map::TextMap;

use super::cards::{answer_callback, card_answer, card_callback, may_find};
use super::error::{ChannelError, ErrorView};
use super::events::{
    content_text, event_of, mention_targets_bot, parse_text_content, read_event,
    strip_mention_text, timestamp_millis_to_datetime, without_mentions, EventView, MessageEvent,
};
use super::frames::{header_named, WsFrame};
use super::partials::{after_part, copy_bytes, PartialView, Partials};
use super::threads::ThreadSet;
use super::types::{opt_inbound, ChannelId, ChatType, InboundMessage, InboundView, PeerId};

verus! {

/// A token of the API, and the second since 1970 at which it expires.
#[derive(Debug)]
pub struct TokenCache {
    pub token: String,
    pub expires_at: i64,
}

/// The channel.
#[derive(Debug)]
pub struct FeishuChannel {
    id: ChannelId,
    app_id: String,
    app_secret: String,
    domain: String,
    token_cache: Option<TokenCache>,
    bot_open_id: Option<String>,
    partials: Partials,
    active_threads: ThreadSet,
}

/// The state of the channel.
pub struct ChannelView {
    pub app_id: Seq<char>,
    pub app_secret: Seq<char>,
    pub domain: Seq<char>,
    pub token: Option<(Seq<char>, int)>,
    pub bot_open_id: Option<Seq<char>>,
    pub partials: Map<Seq<char>, PartialView>,
    pub threads: Set<(Seq<char>, Seq<char>)>,
}

impl View for FeishuChannel {
    type V = ChannelView;

    closed spec fn view(&self) -> ChannelView {
        ChannelView {
            app_id: self.app_id@,
            app_secret: self.app_secret@,
            domain: self.domain@,
            token: match self.token_cache {
                Some(cache) => Some((cache.token@, cache.expires_at as int)),
                None => None,
            },
            bot_open_id: opt_text(self.bot_open_id),
            partials: self.partials@,
            threads: self.active_threads@,
        }
    }
}

/// The address of the platform that a setting gives: without white space around
/// it and without slashes at its end, and the public address where nothing is
/// left of it.
pub open spec fn domain_of(setting: Option<Seq<char>>) -> Seq<char> {
    match setting {
        Some(text) if stripped_end(trimmed(text), '/').len() > 0 => stripped_end(
            trimmed(text),
            '/',
        ),
        _ => "https://open.feishu.cn"@,
    }
}

/// In how many parts a payload comes, as its headers tell: in one unless they
/// give a number.
pub open spec fn part_count(headers: Map<Seq<char>, Seq<char>>) -> nat {
    match header_named(headers, "sum"@) {
        Some(text) => match unsigned_number(text, usize::MAX as nat) {
            Some(n) => n,
            None => 1,
        },
        None => 1,
    }
}

/// Which part of a payload a frame carries, as its headers tell.
pub open spec fn part_number(headers: Map<Seq<char>, Seq<char>>) -> Option<nat> {
    match header_named(headers, "seq"@) {
        Some(text) => unsigned_number(text, usize::MAX as nat),
        None => None,
    }
}

/// The content of a payload that may not be complete yet.
pub open spec fn payload_view(payload: Result<Option<Vec<u8>>, ChannelError>) -> Result<
    Option<Seq<u8>>,
    ErrorView,
> {
    match payload {
        Ok(Some(bytes)) => Ok(Some(bytes@)),
        Ok(None) => Ok(None),
        Err(error) => Err(error@),
    }
}

impl ChannelView {
    /// The state after a frame of those headers and that payload, and the
    /// payload that it gives: its own, or the one that it completes.
    pub open spec fn after_payload(
        self,
        headers: Map<Seq<char>, Seq<char>>,
        payload: Seq<u8>,
        now: nat,
    ) -> (ChannelView, Result<Option<Seq<u8>>, ErrorView>) {
        let sum = part_count(headers);
        if sum <= 1 {
            (self, Ok(Some(payload)))
        } else {
            match (header_named(headers, "message_id"@), part_number(headers)) {
                (None, _) => (self, Err(ErrorView::PartWithoutMessageId)),
                (Some(_), None) => (self, Err(ErrorView::PartWithoutSeq)),
                (Some(id), Some(seq)) => if seq == 0 || seq > sum {
                    (self, Err(ErrorView::PartOutOfRange { seq, sum }))
                } else {
                    let (partials, done) = after_part(self.partials, id, seq, sum, payload, now);
                    (ChannelView { partials, ..self }, Ok(done))
                },
            }
        }
    }

    /// The state after the channel was told who the bot is.
    pub open spec fn with_bot(self, open_id: Option<Seq<char>>) -> ChannelView {
        ChannelView { bot_open_id: open_id, ..self }
    }

    /// The state after a thread was made active.
    pub open spec fn with_thread(self, chat_id: Seq<char>, thread_id: Seq<char>) -> ChannelView {
        ChannelView { threads: self.threads.insert((chat_id, thread_id)), ..self }
    }

    /// Who the bot is; empty while it is not known.
    pub open spec fn bot(self) -> Seq<char> {
        match self.bot_open_id {
            Some(open_id) => open_id,
            None => Seq::empty(),
        }
    }

    /// The state after a message event.
    pub open spec fn after_event(self, event: EventView) -> ChannelView {
        ChannelView { threads: event.threads_after(self.bot(), self.threads), ..self }
    }

    /// The message that a message event whose content reads as that text gives
    /// the gateway.
    pub open spec fn message_of(self, event: EventView, text: Seq<char>) -> Option<InboundView> {
        if event.concerns(self.bot(), self.threads) {
            Some(event.inbound(text, self.bot()))
        } else {
            None
        }
    }
}

impl FeishuChannel {
    /// The invariant of the channel.
    pub closed spec fn wf(&self) -> bool {
        &&& self.partials.wf()
        &&& self.id.0@ == "feishu"@
    }

    /// A channel of an app. Nothing has come in yet.
    pub fn new(app_id: String, app_secret: String, domain: Option<String>) -> (r: Self)
        ensures
            r.wf(),
            r@ == (ChannelView {
                app_id: app_id@,
                app_secret: app_secret@,
                domain: domain_of(opt_text(domain)),
                token: None,
                bot_open_id: None,
                partials: Map::empty(),
                threads: Set::empty(),
            }),
    {
        let address = match domain {
            Some(value) => strip_end(trim(value.as_str()).as_str(), '/'),
            None => String::new(),
        };
        let domain = if address.as_str().is_empty() {
            "https://open.feishu.cn".to_owned()
        } else {
            address
        };
        FeishuChannel {
            id: ChannelId("feishu".into()),
            app_id,
            app_secret,
            domain,
            token_cache: None,
            bot_open_id: None,
            partials: Partials::new(),
            active_threads: ThreadSet::new(),
        }
    }

    /// Makes a thread active.
    pub fn activate_thread(&mut self, chat_id: &str, thread_id: &str)
        requires
            old(self).wf(),
        ensures
            final(self).wf(),
            final(self)@ == old(self)@.with_thread(chat_id@, thread_id@),
    {
        self.active_threads.insert(chat_id, thread_id);
    }

    /// Whether a thread is active.
    pub fn is_thread_active(&self, chat_id: &str, thread_id: &str) -> (r: bool)
        ensures
            r == self@.threads.contains((chat_id@, thread_id@)),
    {
        self.active_threads.contains(chat_id, thread_id)
    }

    /// Takes a message event in whose content reads as that text.
    pub fn take_event(&mut self, event: &MessageEvent<'_>, text: String) -> (r: Option<
        InboundMessage,
    >)
        requires
            old(self).wf(),
        ensures
            final(self).wf(),
            final(self)@ == old(self)@.after_event(event@),
            opt_inbound(r) == old(self)@.message_of(event@, text@),
    {
        let bot = match &self.bot_open_id {
            Some(open_id) => open_id.clone(),
            None => String::new(),
        };
        if !bot.as_str().is_empty() && same_text(event.sender_id.as_str(), bot.as_str()) {
            return None;
        }
        let nobody: Vec<Json> = Vec::new();
        let mentions = match event.mentions {
            Some(mentions) => mentions,
            None => &nobody,
        };
        let mentioned = mention_targets_bot(mentions.as_slice(), bot.as_str());
        let stripped = strip_mention_text(text, mentions.as_slice());
        let is_direct = event.is_direct();
        let thread_id = event.thread();
        if !is_direct {
            if mentioned {
                let active_thread = match &thread_id {
                    Some(thread_id) => thread_id.clone(),
                    None => event.message_id.clone(),
                };
                self.activate_thread(event.chat_id.as_str(), active_thread.as_str());
            } else {
                match &thread_id {
                    Some(thread_id) => {
                        if !self.is_thread_active(event.chat_id.as_str(), thread_id.as_str()) {
                            return None;
                        }
                    },
                    None => {
                        return None;
                    },
                }
            }
        }
        let timestamp = match &event.create_time {
            Some(text) => match parse_signed(text.as_str()) {
                Some(millis) => timestamp_millis_to_datetime(millis),
                None => None,
            },
            None => None,
        };
        let chat_type = if is_direct {
            ChatType::Direct
        } else {
            match thread_id {
                Some(thread_id) => ChatType::Thread {
                    group_id: event.chat_id.clone(),
                    thread_id,
                },
                None => ChatType::Group { id: event.chat_id.clone() },
            }
        };
        let metadata = JsonObject::new().with("chat_id", Json::text(event.chat_id.as_str())).with(
            "message_id",
            Json::text(event.message_id.as_str()),
        ).with("root_id", Json::optional_text(&event.root_id)).with(
            "parent_id",
            Json::optional_text(&event.parent_id),
        ).with("chat_type", Json::text(event.chat_type.as_str())).with(
            "message_type",
            Json::text(event.message_type.as_str()),
        ).with("mentioned", Json::Bool(mentioned)).with(
            "sender_id",
            Json::text(event.sender_id.as_str()),
        ).build();
        proof {
            trimmed_twice(without_mentions(text@, event@.mentions));
        }
        Some(
            InboundMessage {
                channel: ChannelId(self.id.0.clone()),
                peer_id: PeerId(event.sender_id.clone()),
                chat_type,
                text: trim(stripped.as_str()),
                media: Vec::new(),
                metadata,
                timestamp,
            },
        )
    }

    /// Takes an event of the platform in: the message that it gives the
    /// gateway, where it tells of a text message that concerns the bot.
    pub fn map_message_event(&mut self, value: &Json) -> (r: Option<InboundMessage>)
        requires
            old(self).wf(),
        ensures
            final(self).wf(),
            match event_of(value@) {
                Some(event) => {
                    &&& final(self)@ == old(self)@.after_event(event)
                    &&& opt_inbound(r) == old(self)@.message_of(
                        event,
                        content_text(event.content, document_in_text(event.content)),
                    )
                },
                None => final(self)@ == old(self)@ && r is None,
            },
    {
        match read_event(value) {
            Some(event) => {
                let text = parse_text_content(event.content.as_str());
                self.take_event(&event, text)
            },
            None => None,
        }
    }
}

impl FeishuChannel {
    /// The name of the channel.
    pub fn id(&self) -> (r: &ChannelId)
        requires
            self.wf(),
        ensures
            r.0@ == "feishu"@,
    {
        &self.id
    }

    /// The name of the channel for people.
    pub fn display_name(&self) -> (r: &str)
        ensures
            r@ == "Feishu"@,
    {
        "Feishu"
    }

    pub(crate) fn app_id(&self) -> (r: &String)
        ensures
            r@ == self@.app_id,
    {
        &self.app_id
    }

    pub(crate) fn app_secret(&self) -> (r: &String)
        ensures
            r@ == self@.app_secret,
    {
        &self.app_secret
    }

    pub(crate) fn domain(&self) -> (r: &String)
        ensures
            r@ == self@.domain,
    {
        &self.domain
    }

    pub(crate) fn token_cache(&self) -> (r: &Option<TokenCache>)
        ensures
            match r {
                Some(cache) => self@.token == Some((cache.token@, cache.expires_at as int)),
                None => self@.token is None,
            },
    {
        &self.token_cache
    }

    pub(crate) fn keep_token(&mut self, cache: TokenCache)
        requires
            old(self).wf(),
        ensures
            final(self).wf(),
            final(self)@ == (ChannelView {
                token: Some((cache.token@, cache.expires_at as int)),
                ..old(self)@
            }),
    {
        self.token_cache = Some(cache);
    }

    /// Tells the channel who the bot is.
    pub fn set_bot_open_id(&mut self, open_id: Option<String>)
        requires
            old(self).wf(),
        ensures
            final(self).wf(),
            final(self)@ == old(self)@.with_bot(opt_text(open_id)),
    {
        self.bot_open_id = open_id;
    }

    /// The payload that a frame gives: its own, or the one that it completes as
    /// the last of several parts. `now` is a clock's reading in nanoseconds.
    pub fn complete_payload(&mut self, frame: &WsFrame, headers: &TextMap, now: u64) -> (r: Result<
        Option<Vec<u8>>,
        ChannelError,
    >)
        requires
            old(self).wf(),
        ensures
            final(self).wf(),
            (final(self)@, payload_view(r)) == old(self)@.after_payload(
                headers@,
                frame.payload@,
                now as nat,
            ),
    {
        let sum: usize = match headers.get("sum") {
            Some(text) => match parse_unsigned(text.as_str(), usize::MAX as u64) {
                Some(n) => n as usize,
                None => 1,
            },
            None => 1,
        };
        if sum <= 1 {
            return Ok(Some(copy_bytes(&frame.payload)));
        }
        let message_id = match headers.get("message_id") {
            Some(message_id) => message_id,
            None => {
                return Err(ChannelError::PartWithoutMessageId);
            },
        };
        let number = match headers.get("seq") {
            Some(text) => parse_unsigned(text.as_str(), usize::MAX as u64),
            None => None,
        };
        let seq: usize = match number {
            Some(n) => n as usize,
            None => {
                return Err(ChannelError::PartWithoutSeq);
            },
        };
        if seq == 0 || seq > sum {
            return Err(ChannelError::PartOutOfRange { seq, sum });
        }
        let payload = copy_bytes(&frame.payload);
        Ok(self.partials.add(message_id.as_str(), seq, sum, payload, now))
    }

    /// What the pressing of a button gives the gateway: an answer to a request
    /// for approval, where the callback parses as the identifier of a request
    /// and a decision on it.
    pub fn map_card_callback<F: Fn(&str) -> Option<(String, String)>>(
        &self,
        value: &Json,
        parse_approval_callback: &F,
    ) -> (r: Option<InboundMessage>)
        requires
            forall|text: &str| call_requires(*parse_approval_callback, (text,)),
        ensures
            card_callback(value@) is None ==> r is None,
            card_callback(value@) is Some ==> exists|approval: Option<(Seq<char>, Seq<char>)>|
                #[trigger] may_find(
                    *parse_approval_callback,
                    card_callback(value@)->Some_0,
                    approval,
                ) && opt_inbound(r) == card_answer(value@, approval),
    {
        answer_callback(value, parse_approval_callback)
    }
}

} // verus!

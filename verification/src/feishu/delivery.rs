//! Replies: where they go, and what is known of them afterwards.
use vstd::prelude::*;

use crate::json::{member_as_string, opt_text, scalar_of, JsonView};
use crate::text::{stands_at, starts_with};

use super::error::{ChannelError, ErrorView};
use super::types::{DeliveryReceipt, OutboundReply};

verus! {

/// How many characters of text a message holds.
pub const FEISHU_TEXT_LIMIT: usize = 30_000;

/// The chat that a reply goes to: the one that its metadata name, or the one
/// that is its peer.
pub open spec fn target_chat(metadata: JsonView, peer_id: Seq<char>) -> Option<Seq<char>> {
    match scalar_of(metadata.get("chat_id"@)) {
        Some(chat_id) => Some(chat_id),
        None => if stands_at(peer_id, 0, "oc_"@) {
            Some(peer_id)
        } else {
            None
        },
    }
}

/// The message that a reply answers.
pub open spec fn target_message(metadata: JsonView) -> Option<Seq<char>> {
    scalar_of(metadata.get("message_id"@))
}

/// Finds the chat that a reply goes to, and the message that it answers.
pub fn extract_target(reply: &OutboundReply) -> (r: Result<
    (String, Option<String>),
    ChannelError,
>)
    ensures
        match target_chat(reply.metadata@, reply.peer_id.0@) {
            Some(chat_id) => r matches Ok(target) && target.0@ == chat_id && opt_text(target.1)
                == target_message(reply.metadata@),
            None => r matches Err(error) && error@ == ErrorView::MissingTarget,
        },
{
    let chat_id = match member_as_string(&reply.metadata, "chat_id") {
        Some(chat_id) => chat_id,
        None => {
            if !starts_with(reply.peer_id.0.as_str(), "oc_") {
                return Err(ChannelError::MissingTarget);
            }
            reply.peer_id.0.clone()
        },
    };
    Ok((chat_id, member_as_string(&reply.metadata, "message_id")))
}

/// A reply on its way, in one or more messages.
#[derive(Debug)]
pub struct Delivery {
    chat_id: String,
    reply_to: Option<String>,
    first_message_id: Option<String>,
}

/// The state of a reply on its way.
pub struct DeliveryView {
    pub chat_id: Seq<char>,
    pub reply_to: Option<Seq<char>>,
    pub first_message_id: Option<Seq<char>>,
}

impl View for Delivery {
    type V = DeliveryView;

    closed spec fn view(&self) -> DeliveryView {
        DeliveryView {
            chat_id: self.chat_id@,
            reply_to: opt_text(self.reply_to),
            first_message_id: opt_text(self.first_message_id),
        }
    }
}

impl DeliveryView {
    /// The state after one more message was made.
    pub open spec fn after_message(self, message_id: Seq<char>) -> DeliveryView {
        match self.first_message_id {
            Some(_) => self,
            None => DeliveryView { first_message_id: Some(message_id), ..self },
        }
    }
}

impl Delivery {
    /// A reply of which nothing was sent yet.
    pub fn new(reply: &OutboundReply) -> (r: Result<Delivery, ChannelError>)
        ensures
            match target_chat(reply.metadata@, reply.peer_id.0@) {
                Some(chat_id) => r matches Ok(delivery) && delivery@ == (DeliveryView {
                    chat_id,
                    reply_to: target_message(reply.metadata@),
                    first_message_id: None,
                }),
                None => r matches Err(error) && error@ == ErrorView::MissingTarget,
            },
    {
        match extract_target(reply) {
            Ok((chat_id, reply_to)) => Ok(Delivery { chat_id, reply_to, first_message_id: None }),
            Err(error) => Err(error),
        }
    }

    /// The chat that the reply goes to.
    pub fn chat_id(&self) -> (r: &str)
        ensures
            r@ == self@.chat_id,
    {
        self.chat_id.as_str()
    }

    /// The message that the reply answers.
    pub fn reply_to(&self) -> (r: Option<&str>)
        ensures
            match r {
                Some(message_id) => self@.reply_to == Some(message_id@),
                None => self@.reply_to is None,
            },
    {
        match &self.reply_to {
            Some(message_id) => Some(message_id.as_str()),
            None => None,
        }
    }

    /// Notes that a message was made.
    pub fn record(&mut self, message_id: String)
        ensures
            final(self)@ == old(self)@.after_message(message_id@),
    {
        if self.first_message_id.is_none() {
            self.first_message_id = Some(message_id);
        }
    }

    /// What is known of the reply: its first message, and the message that it
    /// answers.
    pub fn receipt(self) -> (r: DeliveryReceipt)
        ensures
            opt_text(r.message_id) == self@.first_message_id,
            opt_text(r.thread_id) == self@.reply_to,
    {
        DeliveryReceipt { message_id: self.first_message_id, thread_id: self.reply_to }
    }
}

} // verus!

//! Messages as the gateway knows them.
use vstd::prelude::*;

use crate::json::{Json, JsonView};

verus! {

/// The name of a channel.
#[derive(Debug)]
pub struct ChannelId(pub String);

/// Whoever a message comes from or goes to.
#[derive(Debug)]
pub struct PeerId(pub String);

/// Where a message was written.
#[derive(Debug)]
pub enum ChatType {
    Direct,
    Group { id: String },
    Thread { group_id: String, thread_id: String },
}

/// Where a message was written.
pub enum ChatView {
    Direct,
    Group { id: Seq<char> },
    Thread { group_id: Seq<char>, thread_id: Seq<char> },
}

impl View for ChatType {
    type V = ChatView;

    open spec fn view(&self) -> ChatView {
        match self {
            ChatType::Direct => ChatView::Direct,
            ChatType::Group { id } => ChatView::Group { id: id@ },
            ChatType::Thread { group_id, thread_id } => ChatView::Thread {
                group_id: group_id@,
                thread_id: thread_id@,
            },
        }
    }
}

/// A message that came in.
#[derive(Debug)]
pub struct InboundMessage {
    pub channel: ChannelId,
    pub peer_id: PeerId,
    pub chat_type: ChatType,
    pub text: String,
    pub media: Vec<String>,
    pub metadata: Json,
    /// When the message was written, in milliseconds since 1970. Without it
    /// the message counts as written when it came.
    pub timestamp: Option<i64>,
}

/// The content of a message that came in.
pub struct InboundView {
    pub channel: Seq<char>,
    pub peer_id: Seq<char>,
    pub chat_type: ChatView,
    pub text: Seq<char>,
    pub media: Seq<String>,
    pub metadata: JsonView,
    pub timestamp: Option<int>,
}

impl View for InboundMessage {
    type V = InboundView;

    open spec fn view(&self) -> InboundView {
        InboundView {
            channel: self.channel.0@,
            peer_id: self.peer_id.0@,
            chat_type: self.chat_type@,
            text: self.text@,
            media: self.media@,
            metadata: self.metadata@,
            timestamp: match self.timestamp {
                Some(millis) => Some(millis as int),
                None => None,
            },
        }
    }
}

/// The content of a message, where there is one.
pub open spec fn opt_inbound(message: Option<InboundMessage>) -> Option<InboundView> {
    match message {
        Some(message) => Some(message@),
        None => None,
    }
}

/// A reply that is to go out.
#[derive(Debug)]
pub struct OutboundReply {
    pub peer_id: PeerId,
    pub text: String,
    pub metadata: Json,
}

/// How a button looks.
#[derive(Debug, Clone, Copy, PartialEq, Eq, Structural)]
pub enum ButtonStyle {
    Success,
    Danger,
}

/// A button that answers a request for approval.
#[derive(Debug)]
pub struct ApprovalButton {
    pub label: String,
    pub callback_data: String,
    pub style: ButtonStyle,
}

/// What is known of a reply that went out.
#[derive(Debug)]
pub struct DeliveryReceipt {
    pub message_id: Option<String>,
    pub thread_id: Option<String>,
}

/// What a test of the channel found.
#[derive(Debug)]
pub struct ChannelTestResult {
    pub channel: String,
    pub identity: String,
    pub details: String,
}

} // verus!

//! What can go wrong on the channel.
use vstd::prelude::*;
use vstd::string::StringExecFns;

use crate::number::decimal_text;
use crate::text::joined;

verus! {

/// A call of the platform's API.
#[derive(Debug, Clone, Copy, PartialEq, Eq, Structural)]
pub enum ApiCall {
    Endpoint,
    Token,
    BotInfo,
    SendText,
    SendCard,
    UpdateCard,
}

impl ApiCall {
    /// How messages name the call.
    pub open spec fn label(self) -> Seq<char> {
        match self {
            ApiCall::Endpoint => "feishu websocket endpoint"@,
            ApiCall::Token => "feishu tenant_access_token"@,
            ApiCall::BotInfo => "feishu bot info"@,
            ApiCall::SendText => "feishu send text"@,
            ApiCall::SendCard => "feishu send card"@,
            ApiCall::UpdateCard => "feishu update card"@,
        }
    }

    /// How messages name the call.
    pub fn name(self) -> (r: &'static str)
        ensures
            r@ == self.label(),
    {
        match self {
            ApiCall::Endpoint => "feishu websocket endpoint",
            ApiCall::Token => "feishu tenant_access_token",
            ApiCall::BotInfo => "feishu bot info",
            ApiCall::SendText => "feishu send text",
            ApiCall::SendCard => "feishu send card",
            ApiCall::UpdateCard => "feishu update card",
        }
    }
}

/// What went wrong.
#[derive(Debug)]
pub enum ChannelError {
    /// The platform refused a call.
    Refused { call: ApiCall, reason: String },
    /// The answer to a call lacks its data.
    MissingData { call: ApiCall },
    /// The answer to a message lacks the identifier of the message.
    MissingMessageId { call: ApiCall },
    /// A reply names no chat.
    MissingTarget,
    /// A part of a payload does not say which message it belongs to.
    PartWithoutMessageId,
    /// A part of a payload does not say which part it is.
    PartWithoutSeq,
    /// A part of a payload is none of the parts there are.
    PartOutOfRange { seq: usize, sum: usize },
    /// The payload of an event is no document.
    EventDecode,
    /// The payload of a card action is no document.
    CardDecode,
    /// A text could not be encoded.
    TextEncode,
    /// A card could not be encoded.
    CardEncode,
    /// The payload of a response could not be encoded.
    ResponseEncode,
}

/// The content of an error.
pub enum ErrorView {
    Refused { call: ApiCall, reason: Seq<char> },
    MissingData { call: ApiCall },
    MissingMessageId { call: ApiCall },
    MissingTarget,
    PartWithoutMessageId,
    PartWithoutSeq,
    PartOutOfRange { seq: nat, sum: nat },
    EventDecode,
    CardDecode,
    TextEncode,
    CardEncode,
    ResponseEncode,
}

impl View for ChannelError {
    type V = ErrorView;

    open spec fn view(&self) -> ErrorView {
        match self {
            ChannelError::Refused { call, reason } => ErrorView::Refused {
                call: *call,
                reason: reason@,
            },
            ChannelError::MissingData { call } => ErrorView::MissingData { call: *call },
            ChannelError::MissingMessageId { call } => ErrorView::MissingMessageId { call: *call },
            ChannelError::MissingTarget => ErrorView::MissingTarget,
            ChannelError::PartWithoutMessageId => ErrorView::PartWithoutMessageId,
            ChannelError::PartWithoutSeq => ErrorView::PartWithoutSeq,
            ChannelError::PartOutOfRange { seq, sum } => ErrorView::PartOutOfRange {
                seq: *seq as nat,
                sum: *sum as nat,
            },
            ChannelError::EventDecode => ErrorView::EventDecode,
            ChannelError::CardDecode => ErrorView::CardDecode,
            ChannelError::TextEncode => ErrorView::TextEncode,
            ChannelError::CardEncode => ErrorView::CardEncode,
            ChannelError::ResponseEncode => ErrorView::ResponseEncode,
        }
    }
}

impl ErrorView {
    /// The message that tells of the error.
    pub open spec fn message(self) -> Seq<char> {
        match self {
            ErrorView::Refused { call, reason } => call.label() + " failed: "@ + reason,
            ErrorView::MissingData { call } => call.label() + " missing data"@,
            ErrorView::MissingMessageId { call } => call.label() + " missing message_id"@,
            ErrorView::MissingTarget => "feishu reply missing chat_id in metadata/peer_id"@,
            ErrorView::PartWithoutMessageId => "feishu partial frame missing message_id"@,
            ErrorView::PartWithoutSeq => "feishu partial frame missing seq"@,
            ErrorView::PartOutOfRange { seq, sum } => "feishu partial frame has invalid seq "@
                + crate::number::decimal(seq) + "/"@ + crate::number::decimal(sum),
            ErrorView::EventDecode => "feishu event payload decode failed"@,
            ErrorView::CardDecode => "feishu card payload decode failed"@,
            ErrorView::TextEncode => "feishu text content encode failed"@,
            ErrorView::CardEncode => "feishu card content encode failed"@,
            ErrorView::ResponseEncode => "feishu response payload encode failed"@,
        }
    }
}

impl ChannelError {
    /// The message that tells of the error.
    pub fn message(&self) -> (r: String)
        ensures
            r@ == self@.message(),
    {
        match self {
            ChannelError::Refused { call, reason } => {
                let mut out = joined(call.name(), " failed: ");
                out.append(reason.as_str());
                out
            },
            ChannelError::MissingData { call } => joined(call.name(), " missing data"),
            ChannelError::MissingMessageId { call } => joined(call.name(), " missing message_id"),
            ChannelError::MissingTarget => "feishu reply missing chat_id in metadata/peer_id"
                .to_owned(),
            ChannelError::PartWithoutMessageId => "feishu partial frame missing message_id"
                .to_owned(),
            ChannelError::PartWithoutSeq => "feishu partial frame missing seq".to_owned(),
            ChannelError::PartOutOfRange { seq, sum } => {
                let mut out = joined(
                    "feishu partial frame has invalid seq ",
                    decimal_text(*seq as u64).as_str(),
                );
                out.append("/");
                out.append(decimal_text(*sum as u64).as_str());
                out
            },
            ChannelError::EventDecode => "feishu event payload decode failed".to_owned(),
            ChannelError::CardDecode => "feishu card payload decode failed".to_owned(),
            ChannelError::TextEncode => "feishu text content encode failed".to_owned(),
            ChannelError::CardEncode => "feishu card content encode failed".to_owned(),
            ChannelError::ResponseEncode => "feishu response payload encode failed".to_owned(),
        }
    }
}

} // verus!

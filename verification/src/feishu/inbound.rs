//! What is done with a frame that comes in, and how it is answered.
use vstd::prelude::*;

use crate::json::{Json, JsonView};
use crate::json_codec::{document_bytes, document_in_bytes, document_in_text, parse_bytes};
use crate::text::same_text;

use super::cards::{card_answer, card_callback, may_find};
use super::channel::{ChannelView, FeishuChannel};
use super::error::{ChannelError, ErrorView};
use super::events::{content_text, event_of, text_or_empty};
use super::frames::{
    build_response_frame, frame_headers, header_named, merged, response, response_document,
    FrameView, WsFrame,
};
use super::types::{opt_inbound, InboundMessage, InboundView};

verus! {

/// What is to be done after a frame came in.
#[derive(Debug)]
pub enum FrameOutcome {
    /// Nothing; the frame gets no response.
    Silent,
    /// The message goes to the gateway; the response tells whether it got there.
    Deliver(InboundMessage),
    /// The frame is dealt with; the response tells whether that went well.
    Settled(Result<(), ChannelError>),
}

/// What is to be done after a frame came in.
pub enum OutcomeView {
    Silent,
    Deliver(InboundView),
    Settled(Result<(), ErrorView>),
}

impl View for FrameOutcome {
    type V = OutcomeView;

    open spec fn view(&self) -> OutcomeView {
        match self {
            FrameOutcome::Silent => OutcomeView::Silent,
            FrameOutcome::Deliver(message) => OutcomeView::Deliver(message@),
            FrameOutcome::Settled(Ok(())) => OutcomeView::Settled(Ok(())),
            FrameOutcome::Settled(Err(error)) => OutcomeView::Settled(Err(error@)),
        }
    }
}

/// The content of a document that may be missing.
pub open spec fn document_view(document: Option<Json>) -> Option<JsonView> {
    match document {
        Some(document) => Some(document@),
        None => None,
    }
}

/// A message for the gateway, where there is one, goes there.
pub open spec fn handed_on(message: Option<InboundView>) -> OutcomeView {
    match message {
        Some(message) => OutcomeView::Deliver(message),
        None => OutcomeView::Settled(Ok(())),
    }
}

/// What the payload of a card action comes to, where its callback was found to
/// say that.
pub open spec fn card_outcome(
    document: Option<JsonView>,
    approval: Option<(Seq<char>, Seq<char>)>,
) -> OutcomeView {
    match document {
        Some(value) => handed_on(card_answer(value, approval)),
        None => OutcomeView::Settled(Err(ErrorView::CardDecode)),
    }
}

/// What the headers call the kind of a frame.
pub open spec fn frame_kind(frame: FrameView) -> Seq<char> {
    text_or_empty(header_named(merged(frame.headers), "type"@))
}

/// Whether a frame only keeps the connection alive.
pub open spec fn is_keepalive(frame: FrameView) -> bool {
    frame_kind(frame) == "ping"@ || frame_kind(frame) == "pong"@
}

impl ChannelView {
    /// The state after the payload of an event, and what the event comes to.
    pub open spec fn after_event_document(self, document: Option<JsonView>) -> (
        ChannelView,
        OutcomeView,
    ) {
        match document {
            Some(value) => match event_of(value) {
                Some(event) => (
                    self.after_event(event),
                    handed_on(
                        self.message_of(
                            event,
                            content_text(event.content, document_in_text(event.content)),
                        ),
                    ),
                ),
                None => (self, OutcomeView::Settled(Ok(()))),
            },
            None => (self, OutcomeView::Settled(Err(ErrorView::EventDecode))),
        }
    }

    /// The state after a frame, and what the frame comes to, where the callback
    /// of a card action was found to say that.
    pub open spec fn after_frame(
        self,
        frame: FrameView,
        now: nat,
        approval: Option<(Seq<char>, Seq<char>)>,
    ) -> (ChannelView, Result<OutcomeView, ErrorView>) {
        let kind = frame_kind(frame);
        if is_keepalive(frame) {
            (self, Ok(OutcomeView::Silent))
        } else {
            let (state, payload) = self.after_payload(merged(frame.headers), frame.payload, now);
            match payload {
                Err(error) => (state, Err(error)),
                Ok(None) => (state, Ok(OutcomeView::Silent)),
                Ok(Some(payload)) => if kind == "event"@ {
                    let (state, outcome) = state.after_event_document(document_in_bytes(payload));
                    (state, Ok(outcome))
                } else if kind == "card"@ {
                    (state, Ok(card_outcome(document_in_bytes(payload), approval)))
                } else {
                    (state, Ok(OutcomeView::Settled(Ok(()))))
                },
            }
        }
    }

    /// The callback of the card action that a frame tells of.
    pub open spec fn callback_in(self, frame: FrameView, now: nat) -> Option<Seq<char>> {
        if frame_kind(frame) == "card"@ {
            match self.after_payload(merged(frame.headers), frame.payload, now).1 {
                Ok(Some(payload)) => match document_in_bytes(payload) {
                    Some(value) => card_callback(value),
                    None => None,
                },
                _ => None,
            }
        } else {
            None
        }
    }
}

/// What a frame comes to.
pub open spec fn step_view(step: Result<FrameOutcome, ChannelError>) -> Result<
    OutcomeView,
    ErrorView,
> {
    match step {
        Ok(outcome) => Ok(outcome@),
        Err(error) => Err(error@),
    }
}

fn hand_on(message: Option<InboundMessage>) -> (r: FrameOutcome)
    ensures
        r@ == handed_on(opt_inbound(message)),
{
    match message {
        Some(message) => FrameOutcome::Deliver(message),
        None => FrameOutcome::Settled(Ok(())),
    }
}

impl FeishuChannel {
    /// Takes an event in whose payload was read as that document.
    pub fn take_event_document(&mut self, document: Option<Json>) -> (r: FrameOutcome)
        requires
            old(self).wf(),
        ensures
            final(self).wf(),
            (final(self)@, r@) == old(self)@.after_event_document(document_view(document)),
    {
        match &document {
            Some(value) => hand_on(self.map_message_event(value)),
            None => FrameOutcome::Settled(Err(ChannelError::EventDecode)),
        }
    }

    /// Takes the payload of an event in.
    pub fn handle_event_payload(&mut self, payload: &[u8]) -> (r: FrameOutcome)
        requires
            old(self).wf(),
        ensures
            final(self).wf(),
            (final(self)@, r@) == old(self)@.after_event_document(document_in_bytes(payload@)),
    {
        self.take_event_document(parse_bytes(payload))
    }

    /// Takes a card action in whose payload was read as that document.
    pub fn take_card_document<F: Fn(&str) -> Option<(String, String)>>(
        &self,
        document: Option<Json>,
        parse_approval_callback: &F,
    ) -> (r: FrameOutcome)
        requires
            forall|text: &str| call_requires(*parse_approval_callback, (text,)),
        ensures
            exists|approval: Option<(Seq<char>, Seq<char>)>|
                #![trigger card_outcome(document_view(document), approval)]
                r@ == card_outcome(document_view(document), approval) && (document matches Some(
                    value,
                ) && card_callback(value@) is Some ==> may_find(
                    *parse_approval_callback,
                    card_callback(document_view(document)->Some_0)->Some_0,
                    approval,
                )),
    {
        match &document {
            Some(value) => {
                let message = self.map_card_callback(value, parse_approval_callback);
                proof {
                    let approval = if card_callback(value@) is Some {
                        choose|approval: Option<(Seq<char>, Seq<char>)>| #[trigger]
                            may_find(
                                *parse_approval_callback,
                                card_callback(value@)->Some_0,
                                approval,
                            ) && opt_inbound(message) == card_answer(value@, approval)
                    } else {
                        None
                    };
                    assert(opt_inbound(message) == card_answer(value@, approval));
                    assert(handed_on(opt_inbound(message)) == card_outcome(
                        document_view(document),
                        approval,
                    ));
                }
                hand_on(message)
            },
            None => {
                assert(card_outcome(document_view(document), None) == OutcomeView::Settled(
                    Err(ErrorView::CardDecode),
                ));
                FrameOutcome::Settled(Err(ChannelError::CardDecode))
            },
        }
    }

    /// Takes the payload of a card action in.
    pub fn handle_card_payload<F: Fn(&str) -> Option<(String, String)>>(
        &self,
        payload: &[u8],
        parse_approval_callback: &F,
    ) -> (r: FrameOutcome)
        requires
            forall|text: &str| call_requires(*parse_approval_callback, (text,)),
        ensures
            exists|approval: Option<(Seq<char>, Seq<char>)>|
                #![trigger card_outcome(document_in_bytes(payload@), approval)]
                r@ == card_outcome(document_in_bytes(payload@), approval) && (document_in_bytes(
                    payload@,
                ) matches Some(value) && card_callback(value) is Some ==> may_find(
                    *parse_approval_callback,
                    card_callback(document_in_bytes(payload@)->Some_0)->Some_0,
                    approval,
                )),
    {
        self.take_card_document(parse_bytes(payload), parse_approval_callback)
    }

    /// Takes a frame in. `now` is a clock's reading in nanoseconds.
    pub fn receive_frame<F: Fn(&str) -> Option<(String, String)>>(
        &mut self,
        frame: &WsFrame,
        now: u64,
        parse_approval_callback: &F,
    ) -> (r: Result<FrameOutcome, ChannelError>)
        requires
            old(self).wf(),
            forall|text: &str| call_requires(*parse_approval_callback, (text,)),
        ensures
            final(self).wf(),
            exists|approval: Option<(Seq<char>, Seq<char>)>|
                #![trigger old(self)@.after_frame(frame@, now as nat, approval)]
                (final(self)@, step_view(r)) == old(self)@.after_frame(
                    frame@,
                    now as nat,
                    approval,
                ) && (old(self)@.callback_in(frame@, now as nat) is Some ==> may_find(
                    *parse_approval_callback,
                    old(self)@.callback_in(frame@, now as nat)->Some_0,
                    approval,
                )),
    {
        let ghost before = self@;
        let ghost unasked: Option<(Seq<char>, Seq<char>)> = None;
        let ghost plain = before.after_frame(frame@, now as nat, unasked);
        let headers = frame_headers(frame);
        let kind = match headers.get("type") {
            Some(kind) => kind.clone(),
            None => String::new(),
        };
        assert(kind@ =~= frame_kind(frame@));
        proof {
            reveal_strlit("card");
            reveal_strlit("event");
            reveal_strlit("ping");
            reveal_strlit("pong");
            assert("card"@[0] == 'c' && "event"@[0] == 'e' && "ping"@[0] == 'p' && "pong"@[0]
                == 'p');
        }
        if same_text(kind.as_str(), "ping") || same_text(kind.as_str(), "pong") {
            return Ok(FrameOutcome::Silent);
        }
        let payload = match self.complete_payload(frame, &headers, now) {
            Ok(Some(payload)) => payload,
            Ok(None) => {
                return Ok(FrameOutcome::Silent);
            },
            Err(error) => {
                return Err(error);
            },
        };
        if same_text(kind.as_str(), "event") {
            let outcome = self.handle_event_payload(payload.as_slice());
            Ok(outcome)
        } else if same_text(kind.as_str(), "card") {
            let ghost seen = document_in_bytes(payload@);
            let outcome = self.handle_card_payload(payload.as_slice(), parse_approval_callback);
            proof {
                let approval = choose|approval: Option<(Seq<char>, Seq<char>)>|
                    #![trigger card_outcome(seen, approval)]
                    outcome@ == card_outcome(seen, approval) && (seen matches Some(value)
                        && card_callback(value) is Some ==> may_find(
                        *parse_approval_callback,
                        card_callback(seen->Some_0)->Some_0,
                        approval,
                    ));
                let step = before.after_frame(frame@, now as nat, approval);
                assert(step.1 == Ok::<OutcomeView, ErrorView>(outcome@));
            }
            Ok(outcome)
        } else {
            Ok(FrameOutcome::Settled(Ok(())))
        }
    }
}

/// The status of a response.
pub open spec fn status_of(handled: bool) -> nat {
    if handled {
        200
    } else {
        500
    }
}

/// The response to a frame that was dealt with, well or not.
pub fn respond(frame: &WsFrame, handled: bool) -> (r: Result<WsFrame, ChannelError>)
    ensures
        r matches Ok(out) && out@ == response(
            frame@,
            status_of(handled),
            document_bytes(response_document(status_of(handled))),
        ),
        document_in_bytes(document_bytes(response_document(status_of(handled)))) == Some(
            response_document(status_of(handled)),
        ),
{
    if handled {
        build_response_frame(frame, 200)
    } else {
        build_response_frame(frame, 500)
    }
}

/// The status of the response to a frame that came to that, where the frame gets
/// a response. A message for the gateway counts by whether it was delivered.
pub open spec fn outcome_status(outcome: OutcomeView, delivered: bool) -> Option<nat> {
    match outcome {
        OutcomeView::Silent => None,
        OutcomeView::Deliver(_) => Some(status_of(delivered)),
        OutcomeView::Settled(result) => Some(status_of(result is Ok)),
    }
}

/// The response to a frame that came to that, where the frame gets a response.
/// `delivered` tells whether a message for the gateway got there.
pub fn response_to(frame: &WsFrame, outcome: &FrameOutcome, delivered: bool) -> (r: Result<
    Option<WsFrame>,
    ChannelError,
>)
    ensures
        match outcome_status(outcome@, delivered) {
            None => r matches Ok(None),
            Some(status) => {
                &&& r matches Ok(Some(out)) && out@ == response(
                    frame@,
                    status,
                    document_bytes(response_document(status)),
                )
                &&& document_in_bytes(document_bytes(response_document(status))) == Some(
                    response_document(status),
                )
            },
        },
{
    let handled = match outcome {
        FrameOutcome::Silent => {
            return Ok(None);
        },
        FrameOutcome::Deliver(_) => delivered,
        FrameOutcome::Settled(result) => result.is_ok(),
    };
    match respond(frame, handled) {
        Ok(response) => Ok(Some(response)),
        Err(error) => Err(error),
    }
}

} // verus!

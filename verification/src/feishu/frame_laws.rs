//! What holds of frames, of the parts that they carry, and of their responses.
use vstd::prelude::*;

use crate::json::{JsonView, NumberView};
use crate::json_codec::document_in_bytes;
use crate::number::unsigned_number;

use super::channel::ChannelView;
use super::cards::{card_answer, card_callback};
use super::error::ErrorView;
use super::events::{content_text, event_of};
use super::frames::{merged, ping, response, response_document, FrameView};
use super::inbound::{outcome_status, OutcomeView};
use super::partials::{after_part, assembled, PartialView};

verus! {

// ----------------------------------------------------------------- headers

/// Of several groups of headers the last one that names a header counts; a header
/// that none names is not there.
pub proof fn the_last_group_counts(
    headers: Seq<Map<Seq<char>, Seq<char>>>,
    i: int,
    name: Seq<char>,
)
    requires
        -1 <= i < headers.len(),
        i >= 0 ==> headers[i].contains_key(name),
        forall|j: int| i < j < headers.len() ==> !(#[trigger] headers[j]).contains_key(name),
    ensures
        i >= 0 ==> merged(headers).contains_key(name) && merged(headers)[name] == headers[i][name],
        i == -1 ==> !merged(headers).contains_key(name),
    decreases headers.len(),
{
    if headers.len() > 0 {
        let head = headers.drop_last();
        let last = headers.len() - 1;
        if i < last {
            assert(!headers[last].contains_key(name));
            assert forall|j: int| i < j < head.len() implies !(#[trigger] head[j]).contains_key(
                name,
            ) by {
                assert(head[j] == headers[j]);
            }
            if i >= 0 {
                assert(head[i] == headers[i]);
            }
            the_last_group_counts(head, i, name);
        }
    }
}

/// A ping says that it is one, to which service it belongs and when it was sent,
/// and nothing else.
pub proof fn pings_say_what_they_are(service_id: nat, now_millis: int)
    ensures
        ({
            let frame = ping(service_id, now_millis);
            &&& frame.service == service_id
            &&& frame.method == 0
            &&& now_millis >= 0 ==> frame.seq_id == now_millis
            &&& now_millis < 0 ==> frame.seq_id == 0
            &&& frame.headers.len() == 1
            &&& frame.headers[0] == map!["type"@ => "ping"@]
            &&& frame.payload.len() == 0
            &&& frame.log_id.len() == 0
            &&& frame.payload_encoding.len() == 0
            &&& frame.payload_type.len() == 0
            &&& frame.log_id_new.len() == 0
        }),
{
    assert(ping(service_id, now_millis).headers[0] =~= map!["type"@ => "ping"@]);
}

// --------------------------------------------------------------- responses

/// A response is the frame that it responds to, with one more group of headers
/// behind those that it had, and with another payload.
pub proof fn responses_keep_the_frame(frame: FrameView, status_code: nat, payload: Seq<u8>, i: int)
    ensures
        ({
            let out = response(frame, status_code, payload);
            &&& out.headers.len() == frame.headers.len() + 1
            &&& 0 <= i < frame.headers.len() ==> out.headers[i] == frame.headers[i]
            &&& out.payload == payload
            &&& out.seq_id == frame.seq_id
            &&& out.log_id == frame.log_id
            &&& out.service == frame.service
            &&& out.method == frame.method
            &&& out.payload_encoding == frame.payload_encoding
            &&& out.payload_type == frame.payload_type
            &&& out.log_id_new == frame.log_id_new
        }),
{
}

/// The payload of a response tells the status, and has no data.
pub proof fn payloads_tell_their_status(status_code: u16, name: Seq<char>)
    ensures
        ({
            let document = response_document(status_code as nat);
            &&& document.get("code"@) == Some(
                JsonView::Number(NumberView::Unsigned(status_code as u64)),
            )
            &&& document.get("data"@) == Some(JsonView::Object(Map::empty()))
            &&& name != "code"@ && name != "data"@ ==> document.get(name) is None
        }),
{
    reveal_strlit("code");
    reveal_strlit("data");
    assert("code"@[0] == 'c' && "data"@[0] == 'd');
}

/// A frame that was dealt with well is answered with 200, and any other with 500.
/// A message for the gateway was dealt with well where it was delivered.
pub proof fn statuses_tell_how_it_went(outcome: OutcomeView, delivered: bool)
    ensures
        outcome is Silent ==> outcome_status(outcome, delivered) is None,
        outcome is Deliver && delivered ==> outcome_status(outcome, delivered) == Some(200nat),
        outcome is Deliver && !delivered ==> outcome_status(outcome, delivered) == Some(500nat),
        outcome matches OutcomeView::Settled(Ok(())) ==> outcome_status(outcome, delivered)
            == Some(200nat),
        outcome matches OutcomeView::Settled(Err(_)) ==> outcome_status(outcome, delivered)
            == Some(500nat),
{
}

// ------------------------------------------------------------------- parts

/// A frame that tells no number of parts, or at most one part, carries its whole
/// payload. It changes nothing.
pub proof fn whole_payloads_are_given(
    state: ChannelView,
    headers: Map<Seq<char>, Seq<char>>,
    payload: Seq<u8>,
    now: nat,
)
    requires
        headers.contains_key("sum"@) ==> (unsigned_number(
            headers["sum"@],
            usize::MAX as nat,
        ) matches Some(sum) ==> sum <= 1),
    ensures
        state.after_payload(headers, payload, now) == (
            state,
            Ok::<Option<Seq<u8>>, ErrorView>(Some(payload)),
        ),
{
}

/// A frame that carries one of several parts has to tell which message and which
/// part it is of, in this order; a number that no part has is refused. What is
/// refused changes nothing.
pub proof fn parts_have_to_be_told(
    state: ChannelView,
    headers: Map<Seq<char>, Seq<char>>,
    payload: Seq<u8>,
    now: nat,
    sum: nat,
)
    requires
        headers.contains_key("sum"@),
        unsigned_number(headers["sum"@], usize::MAX as nat) == Some(sum),
        sum >= 2,
    ensures
        ({
            let (after, given) = state.after_payload(headers, payload, now);
            let seq = if headers.contains_key("seq"@) {
                unsigned_number(headers["seq"@], usize::MAX as nat)
            } else {
                None
            };
            let told = headers.contains_key("message_id"@);
            &&& !told ==> given == Err::<Option<Seq<u8>>, ErrorView>(
                ErrorView::PartWithoutMessageId,
            ) && after == state
            &&& told && seq is None ==> given == Err::<Option<Seq<u8>>, ErrorView>(
                ErrorView::PartWithoutSeq,
            ) && after == state
            &&& (seq matches Some(seq) ==> told && (seq == 0 || seq > sum) ==> given == Err::<
                Option<Seq<u8>>,
                ErrorView,
            >(ErrorView::PartOutOfRange { seq, sum }) && after == state)
            &&& (seq matches Some(seq) ==> told && 1 <= seq <= sum ==> {
                let (partials, done) = after_part(
                    state.partials,
                    headers["message_id"@],
                    seq,
                    sum,
                    payload,
                    now,
                );
                &&& given == Ok::<Option<Seq<u8>>, ErrorView>(done)
                &&& after == (ChannelView { partials, ..state })
            })
        }),
{
}

/// A part joins those of its message that are kept, in place of one of the same
/// number. While a part is missing they are kept from then on.
pub proof fn parts_join_those_that_are_kept(
    partials: Map<Seq<char>, PartialView>,
    id: Seq<char>,
    seq: nat,
    total: nat,
    payload: Seq<u8>,
    now: nat,
    missing: nat,
)
    requires
        partials.contains_key(id),
        partials[id].total == total,
        now < partials[id].updated_at + 300_000_000_000,
        1 <= missing <= total,
        missing != seq,
        !partials[id].parts.contains_key(missing),
    ensures
        ({
            let (after, done) = after_part(partials, id, seq, total, payload, now);
            &&& done is None
            &&& after.contains_key(id)
            &&& after[id].total == total
            &&& after[id].updated_at == now
            &&& after[id].parts == partials[id].parts.insert(seq, payload)
        }),
{
    let parts = partials[id].parts.insert(seq, payload);
    assert(!parts.contains_key(missing));
}

/// The last part that was missing gives the whole payload, and nothing of it is
/// kept.
pub proof fn the_last_part_completes(
    partials: Map<Seq<char>, PartialView>,
    id: Seq<char>,
    seq: nat,
    total: nat,
    payload: Seq<u8>,
    now: nat,
)
    requires
        partials.contains_key(id),
        partials[id].total == total,
        now < partials[id].updated_at + 300_000_000_000,
        forall|n: nat| 1 <= n <= total && n != seq ==> #[trigger] partials[id].parts.contains_key(n),
    ensures
        ({
            let (after, done) = after_part(partials, id, seq, total, payload, now);
            &&& done == Some(assembled(partials[id].parts.insert(seq, payload), total))
            &&& !after.contains_key(id)
        }),
{
    let parts = partials[id].parts.insert(seq, payload);
    assert forall|n: nat| 1 <= n <= total implies #[trigger] parts.contains_key(n) by {
        if n != seq {
            assert(partials[id].parts.contains_key(n));
        }
    }
}

/// A part starts over where nothing of its message is kept, where what is kept is
/// five minutes old, or where it is in another number of parts.
pub proof fn parts_start_over(
    partials: Map<Seq<char>, PartialView>,
    id: Seq<char>,
    seq: nat,
    total: nat,
    payload: Seq<u8>,
    now: nat,
)
    requires
        total >= 2,
        partials.contains_key(id) ==> partials[id].total != total || now >= partials[id].updated_at
            + 300_000_000_000,
    ensures
        ({
            let (after, done) = after_part(partials, id, seq, total, payload, now);
            &&& done is None
            &&& after.contains_key(id)
            &&& after[id].total == total
            &&& after[id].updated_at == now
            &&& after[id].parts == map![seq => payload]
        }),
{
    let parts = Map::<nat, Seq<u8>>::empty().insert(seq, payload);
    assert(!parts.contains_key(if seq == 1 {
        2nat
    } else {
        1nat
    }));
    assert(parts =~= map![seq => payload]);
}

/// A part of one message leaves what is kept of others as it was, but for what
/// is five minutes old, which goes.
pub proof fn other_messages_are_kept_for_five_minutes(
    partials: Map<Seq<char>, PartialView>,
    id: Seq<char>,
    seq: nat,
    total: nat,
    payload: Seq<u8>,
    now: nat,
    other: Seq<char>,
)
    requires
        other != id,
    ensures
        ({
            let after = after_part(partials, id, seq, total, payload, now).0;
            let kept = partials.contains_key(other) && now < partials[other].updated_at
                + 300_000_000_000;
            &&& after.contains_key(other) == kept
            &&& kept ==> after[other] == partials[other]
        }),
{
}

/// A payload that was cut into parts, one behind the other, is put together
/// again.
pub proof fn cut_payloads_are_put_together(
    payload: Seq<u8>,
    cuts: Seq<int>,
    parts: Map<nat, Seq<u8>>,
    total: nat,
)
    requires
        cuts.len() == total + 1,
        cuts[0] == 0,
        forall|i: int, j: int|
            0 <= i <= j <= total ==> 0 <= #[trigger] cuts[i] && cuts[i] <= #[trigger] cuts[j]
                && cuts[j] <= payload.len(),
        forall|n: nat|
            1 <= n <= total ==> #[trigger] parts[n] == payload.subrange(cuts[n - 1], cuts[n as int]),
    ensures
        assembled(parts, total) == payload.take(cuts[total as int]),
        cuts[total as int] == payload.len() ==> assembled(parts, total) == payload,
    decreases total,
{
    if total == 0 {
        assert(payload.take(0) =~= Seq::<u8>::empty());
    } else {
        let before = (total - 1) as nat;
        let shorter = cuts.drop_last();
        assert forall|i: int, j: int| 0 <= i <= j <= before implies 0 <= #[trigger] shorter[i]
            && shorter[i] <= #[trigger] shorter[j] && shorter[j] <= payload.len() by {
            assert(shorter[i] == cuts[i] && shorter[j] == cuts[j]);
        }
        assert forall|n: nat| 1 <= n <= before implies #[trigger] parts[n] == payload.subrange(
            shorter[n - 1],
            shorter[n as int],
        ) by {
            assert(shorter[n - 1] == cuts[n - 1] && shorter[n as int] == cuts[n as int]);
        }
        cut_payloads_are_put_together(payload, shorter, parts, before);
        assert(0 <= cuts[total - 1] <= cuts[total as int] <= payload.len());
        assert(parts[total] == payload.subrange(cuts[total - 1], cuts[total as int]));
        assert(payload.take(cuts[total - 1]) + parts[total] =~= payload.take(cuts[total as int]));
    }
    if cuts[total as int] == payload.len() {
        assert(payload.take(payload.len() as int) =~= payload);
    }
}

// -------------------------------------------------------------- frame kinds

proof fn lemma_kinds()
    ensures
        "ping"@ != "event"@,
        "ping"@ != "card"@,
        "pong"@ != "event"@,
        "pong"@ != "card"@,
        "event"@ != "card"@,
        "ping"@.len() > 0,
        "pong"@.len() > 0,
        "event"@.len() > 0,
        "card"@.len() > 0,
{
    reveal_strlit("ping");
    reveal_strlit("pong");
    reveal_strlit("event");
    reveal_strlit("card");
    assert("ping"@.len() == 4 && "pong"@.len() == 4 && "event"@.len() == 5 && "card"@.len() == 4);
    assert("ping"@[0] == 'p' && "pong"@[0] == 'p' && "card"@[0] == 'c');
}

/// Pings and pongs of the platform change nothing and get no response.
pub proof fn pings_and_pongs_are_silent(
    state: ChannelView,
    frame: FrameView,
    now: nat,
    approval: Option<(Seq<char>, Seq<char>)>,
)
    requires
        merged(frame.headers).contains_key("type"@),
        merged(frame.headers)["type"@] == "ping"@ || merged(frame.headers)["type"@] == "pong"@,
    ensures
        state.after_frame(frame, now, approval) == (
            state,
            Ok::<OutcomeView, ErrorView>(OutcomeView::Silent),
        ),
{
}

/// The frame of an event gives the gateway the message that the event tells of,
/// where it concerns the bot; it fails where its payload is no document.
pub proof fn event_frames_give_messages(
    state: ChannelView,
    frame: FrameView,
    now: nat,
    approval: Option<(Seq<char>, Seq<char>)>,
    payload: Seq<u8>,
    value: JsonView,
)
    requires
        merged(frame.headers).contains_key("type"@),
        merged(frame.headers)["type"@] == "event"@,
        state.after_payload(merged(frame.headers), frame.payload, now).1 == Ok::<
            Option<Seq<u8>>,
            ErrorView,
        >(Some(payload)),
    ensures
        ({
            let whole = state.after_payload(merged(frame.headers), frame.payload, now).0;
            let (after, outcome) = state.after_frame(frame, now, approval);
            &&& document_in_bytes(payload) is None ==> after == whole && outcome == Ok::<
                OutcomeView,
                ErrorView,
            >(OutcomeView::Settled(Err(ErrorView::EventDecode)))
            &&& document_in_bytes(payload) == Some(value) && event_of(value) is None ==> after
                == whole && outcome == Ok::<OutcomeView, ErrorView>(OutcomeView::Settled(Ok(())))
            &&& document_in_bytes(payload) == Some(value) ==> (event_of(value) matches Some(event)
                ==> {
                let text = content_text(
                    event.content,
                    crate::json_codec::document_in_text(event.content),
                );
                &&& after == whole.after_event(event)
                &&& (whole.message_of(event, text) matches Some(message) ==> outcome == Ok::<
                    OutcomeView,
                    ErrorView,
                >(OutcomeView::Deliver(message)))
                &&& whole.message_of(event, text) is None ==> outcome == Ok::<
                    OutcomeView,
                    ErrorView,
                >(OutcomeView::Settled(Ok(())))
            })
        }),
{
    lemma_kinds();
}

/// The frame of a card action gives the gateway the answer to the request for
/// approval, where it is one; it fails where its payload is no document. It
/// changes nothing but the parts that are kept.
pub proof fn card_frames_give_answers(
    state: ChannelView,
    frame: FrameView,
    now: nat,
    approval: Option<(Seq<char>, Seq<char>)>,
    payload: Seq<u8>,
    value: JsonView,
)
    requires
        merged(frame.headers).contains_key("type"@),
        merged(frame.headers)["type"@] == "card"@,
        state.after_payload(merged(frame.headers), frame.payload, now).1 == Ok::<
            Option<Seq<u8>>,
            ErrorView,
        >(Some(payload)),
    ensures
        ({
            let (after, outcome) = state.after_frame(frame, now, approval);
            &&& after == state.after_payload(merged(frame.headers), frame.payload, now).0
            &&& document_in_bytes(payload) is None ==> outcome == Ok::<OutcomeView, ErrorView>(
                OutcomeView::Settled(Err(ErrorView::CardDecode)),
            )
            &&& document_in_bytes(payload) == Some(value) ==> {
                &&& (card_answer(value, approval) matches Some(message) ==> outcome == Ok::<
                    OutcomeView,
                    ErrorView,
                >(OutcomeView::Deliver(message)))
                &&& card_answer(value, approval) is None ==> outcome == Ok::<
                    OutcomeView,
                    ErrorView,
                >(OutcomeView::Settled(Ok(())))
            }
        }),
{
    lemma_kinds();
}

/// A frame of another kind, or of none, comes to nothing, and went well.
pub proof fn other_frames_are_settled(
    state: ChannelView,
    frame: FrameView,
    now: nat,
    approval: Option<(Seq<char>, Seq<char>)>,
    payload: Seq<u8>,
)
    requires
        merged(frame.headers).contains_key("type"@) ==> {
            let kind = merged(frame.headers)["type"@];
            kind != "ping"@ && kind != "pong"@ && kind != "event"@ && kind != "card"@
        },
        state.after_payload(merged(frame.headers), frame.payload, now).1 == Ok::<
            Option<Seq<u8>>,
            ErrorView,
        >(Some(payload)),
    ensures
        state.after_frame(frame, now, approval).1 == Ok::<OutcomeView, ErrorView>(
            OutcomeView::Settled(Ok(())),
        ),
{
    lemma_kinds();
}

/// The callback that a frame hands to the parser is the one of its card action; a
/// frame that tells of none hands nothing to it.
pub proof fn frames_hand_callbacks_on(
    state: ChannelView,
    frame: FrameView,
    now: nat,
    payload: Seq<u8>,
    value: JsonView,
)
    ensures
        ({
            let headers = merged(frame.headers);
            let given = state.after_payload(headers, frame.payload, now).1;
            let whole = given == Ok::<Option<Seq<u8>>, ErrorView>(Some(payload));
            let is_card = headers.contains_key("type"@) && headers["type"@] == "card"@;
            &&& is_card && whole && document_in_bytes(payload) == Some(value) ==> state.callback_in(
                frame,
                now,
            ) == card_callback(value)
            &&& is_card && whole && document_in_bytes(payload) is None ==> state.callback_in(
                frame,
                now,
            ) is None
            &&& !is_card ==> state.callback_in(frame, now) is None
        }),
{
    lemma_kinds();
}

} // verus!

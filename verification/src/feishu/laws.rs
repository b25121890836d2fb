//! What holds of the channel as a whole.
use vstd::prelude::*;
use vstd::arithmetic::power2::pow2;

use crate::json::{member_of, JsonView};
use crate::json_codec::{document_in_bytes, is_readable, MAX_LEVELS};
use crate::number::decimal;
use crate::text::{stripped_end, trimmed};

use super::api::EndpointClientConfig;
use super::cards::{
    approval_card, button_element, button_row, button_value, card_callback, paragraph, plain_text,
    status_card, wide_screen,
};
use super::channel::{domain_of, ChannelView};
use super::delivery::{target_chat, target_message, DeliveryView};
use super::events::EventView;
use super::frames::{header_named, merged, response, response_headers, FrameView};
use super::inbound::{frame_kind, is_keepalive, outcome_status, status_of, OutcomeView};
use super::partials::{
    after_part, all_there, assembled, fresh, is_fresh, joined_by, PartialView,
};
use super::session::{
    action_on, ending, handling, ping_interval, wait_of, SocketAction, SocketEvent,
};
use super::types::ApprovalButton;

verus! {

// ---------------------------------------------------------------- messages

/// The state after some message events.
pub open spec fn after_events(state: ChannelView, events: Seq<EventView>) -> ChannelView
    decreases events.len(),
{
    if events.len() == 0 {
        state
    } else {
        after_events(state, events.drop_last()).after_event(events.last())
    }
}

/// Message events change nothing but the active threads, and no thread that is
/// active stops being so.
pub proof fn threads_stay_active(state: ChannelView, events: Seq<EventView>)
    ensures
        state.threads.subset_of(after_events(state, events).threads),
        after_events(state, events) == (ChannelView {
            threads: after_events(state, events).threads,
            ..state
        }),
    decreases events.len(),
{
    if events.len() > 0 {
        threads_stay_active(state, events.drop_last());
    }
}

/// A message that mentions the bot in a group opens a thread: whatever comes in
/// between, what others write in that thread is taken in, with a mention or
/// without.
pub proof fn mention_opens_thread(
    state: ChannelView,
    mention: EventView,
    between: Seq<EventView>,
    reply: EventView,
    text: Seq<char>,
)
    requires
        !mention.is_direct(),
        mention.mentions_bot(state.bot()),
        !mention.is_from(state.bot()),
        reply.thread() is Some,
        (reply.chat_id, reply.thread()->Some_0) == mention.opened_thread(),
        !reply.is_from(state.bot()),
    ensures
        state.message_of(mention, text) is Some,
        after_events(state.after_event(mention), between).message_of(reply, text) is Some,
{
    let opened = state.after_event(mention);
    assert(opened.threads.contains(mention.opened_thread()));
    threads_stay_active(opened, between);
}

/// Whether a message makes that thread active: someone else mentions the bot
/// there, in a group.
pub open spec fn opens(
    event: EventView,
    bot_open_id: Seq<char>,
    thread: (Seq<char>, Seq<char>),
) -> bool {
    &&& !event.is_from(bot_open_id)
    &&& !event.is_direct()
    &&& event.mentions_bot(bot_open_id)
    &&& event.opened_thread() == thread
}

/// A thread is active after some message events just where it was so before, or
/// where one of the messages mentioned the bot there.
pub proof fn only_mentions_open_threads(
    state: ChannelView,
    events: Seq<EventView>,
    thread: (Seq<char>, Seq<char>),
)
    ensures
        after_events(state, events).threads.contains(thread) <==> state.threads.contains(thread)
            || exists|i: int|
            0 <= i < events.len() && opens(#[trigger] events[i], state.bot(), thread),
    decreases events.len(),
{
    if events.len() > 0 {
        let head = events.drop_last();
        only_mentions_open_threads(state, head, thread);
        threads_stay_active(state, head);
        if exists|i: int| 0 <= i < head.len() && opens(#[trigger] head[i], state.bot(), thread) {
            let i = choose|i: int|
                0 <= i < head.len() && opens(#[trigger] head[i], state.bot(), thread);
            assert(opens(events[i], state.bot(), thread));
        }
        if exists|i: int| 0 <= i < events.len() && opens(#[trigger] events[i], state.bot(), thread) {
            let i = choose|i: int|
                0 <= i < events.len() && opens(#[trigger] events[i], state.bot(), thread);
            if i < head.len() {
                assert(opens(head[i], state.bot(), thread));
            }
        }
        if opens(events.last(), state.bot(), thread) {
            assert(opens(events[events.len() - 1], state.bot(), thread));
        }
    }
}

/// A group message that neither mentions the bot nor stands in an active thread
/// is passed over, and leaves the channel as it was.
pub proof fn unmentioned_messages_are_passed_over(
    state: ChannelView,
    event: EventView,
    text: Seq<char>,
)
    requires
        !event.is_direct(),
        !event.mentions_bot(state.bot()),
        event.thread() matches Some(thread) ==> !state.threads.contains((event.chat_id, thread)),
    ensures
        state.message_of(event, text) is None,
        state.after_event(event) == state,
{
}

/// What the bot itself writes is passed over, and leaves the channel as it was.
pub proof fn own_messages_are_passed_over(state: ChannelView, event: EventView, text: Seq<char>)
    requires
        event.is_from(state.bot()),
    ensures
        state.message_of(event, text) is None,
        state.after_event(event) == state,
{
}

/// What others write to the bot alone is always taken in, and leaves the
/// channel as it was.
pub proof fn direct_messages_are_taken_in(state: ChannelView, event: EventView, text: Seq<char>)
    requires
        event.is_direct(),
        !event.is_from(state.bot()),
    ensures
        state.message_of(event, text) is Some,
        state.after_event(event) == state,
{
}

proof fn lemma_metadata(event: EventView, bot_open_id: Seq<char>)
    ensures
        event.metadata(bot_open_id).get("chat_id"@) == Some(JsonView::Text(event.chat_id)),
        event.metadata(bot_open_id).get("message_id"@) == Some(JsonView::Text(event.message_id)),
{
    reveal_strlit("chat_id");
    reveal_strlit("message_id");
    reveal_strlit("root_id");
    reveal_strlit("parent_id");
    reveal_strlit("chat_type");
    reveal_strlit("message_type");
    reveal_strlit("mentioned");
    reveal_strlit("sender_id");
    assert("chat_id"@.len() == 7 && "message_id"@.len() == 10 && "root_id"@.len() == 7
        && "parent_id"@.len() == 9 && "chat_type"@.len() == 9 && "message_type"@.len() == 12
        && "mentioned"@.len() == 9 && "sender_id"@.len() == 9);
    assert("chat_id"@[0] == 'c' && "root_id"@[0] == 'r');
}

/// A reply that keeps the metadata of a message goes to the chat of that
/// message, and answers it.
pub proof fn replies_go_back(
    event: EventView,
    text: Seq<char>,
    bot_open_id: Seq<char>,
    peer_id: Seq<char>,
)
    requires
        event.wf(),
    ensures
        target_chat(event.inbound(text, bot_open_id).metadata, peer_id) == Some(event.chat_id),
        target_message(event.inbound(text, bot_open_id).metadata) == Some(event.message_id),
{
    lemma_metadata(event, bot_open_id);
}

// ------------------------------------------------------------------ frames

/// A frame that keeps the connection alive changes nothing and gets no
/// response.
pub proof fn keepalives_change_nothing(
    state: ChannelView,
    frame: FrameView,
    now: nat,
    approval: Option<(Seq<char>, Seq<char>)>,
)
    requires
        is_keepalive(frame),
    ensures
        state.after_frame(frame, now, approval) == (
            state,
            Ok::<OutcomeView, super::error::ErrorView>(OutcomeView::Silent),
        ),
{
}

/// No frame changes who the app and the bot are, where the platform is found or
/// which token is kept, and none ends a thread.
pub proof fn frames_keep_the_rest(
    state: ChannelView,
    frame: FrameView,
    now: nat,
    approval: Option<(Seq<char>, Seq<char>)>,
)
    ensures
        ({
            let after = state.after_frame(frame, now, approval).0;
            &&& after == (ChannelView {
                partials: after.partials,
                threads: after.threads,
                ..state
            })
            &&& state.threads.subset_of(after.threads)
        }),
{
}

/// A frame whose payload is complete is answered, unless it only keeps the
/// connection alive: with success where an event or a card action could be read
/// and what came of it was delivered, and for frames of other kinds. A frame that
/// leaves its payload incomplete, or whose part cannot be placed, gets no answer.
pub proof fn frames_are_answered(
    state: ChannelView,
    frame: FrameView,
    now: nat,
    approval: Option<(Seq<char>, Seq<char>)>,
    delivered: bool,
)
    requires
        !is_keepalive(frame),
    ensures
        match (
            state.after_payload(merged(frame.headers), frame.payload, now).1,
            state.after_frame(frame, now, approval).1,
        ) {
            (Ok(Some(payload)), Ok(outcome)) => outcome_status(outcome, delivered) == Some(
                status_of(
                    (frame_kind(frame) == "event"@ || frame_kind(frame) == "card"@
                        ==> document_in_bytes(payload) is Some) && (outcome is Deliver
                        ==> delivered),
                ),
            ),
            (Ok(None), Ok(outcome)) => outcome_status(outcome, delivered) is None,
            (Err(error), Err(told)) => told == error,
            _ => false,
        },
{
}

/// A response tells its status in its headers, whatever the frame that it
/// responds to said there, and keeps every other header and all else but the
/// payload.
pub proof fn responses_tell_their_status(
    frame: FrameView,
    status_code: nat,
    payload: Seq<u8>,
    name: Seq<char>,
)
    ensures
        ({
            let out = response(frame, status_code, payload);
            &&& header_named(merged(out.headers), "response-code"@) == Some(decimal(status_code))
            &&& header_named(merged(out.headers), "biz_rt"@) == Some("0"@)
            &&& name != "response-code"@ && name != "biz_rt"@ ==> header_named(
                merged(out.headers),
                name,
            ) == header_named(merged(frame.headers), name)
            &&& out == (FrameView { headers: out.headers, payload, ..frame })
        }),
{
    reveal_strlit("response-code");
    reveal_strlit("biz_rt");
    assert("response-code"@.len() == 13 && "biz_rt"@.len() == 6);
    let out = response(frame, status_code, payload);
    assert(out.headers.drop_last() =~= frame.headers);
    assert(out.headers.last() == response_headers(status_code));
}

/// A part of a payload that comes.
pub struct Arrival {
    pub id: Seq<char>,
    pub seq: nat,
    pub total: nat,
    pub payload: Seq<u8>,
    pub at: nat,
}

/// The state after parts of any messages, and what the last of them completed.
pub open spec fn after_arrivals(
    partials: Map<Seq<char>, PartialView>,
    arrivals: Seq<Arrival>,
) -> (Map<Seq<char>, PartialView>, Option<Seq<u8>>)
    decreases arrivals.len(),
{
    if arrivals.len() == 0 {
        (partials, None)
    } else {
        let before = after_arrivals(partials, arrivals.drop_last()).0;
        let last = arrivals.last();
        after_part(before, last.id, last.seq, last.total, last.payload, last.at)
    }
}

/// Whether those of the arrivals that are parts of one message are among these
/// parts.
pub open spec fn come_from(
    arrivals: Seq<Arrival>,
    id: Seq<char>,
    total: nat,
    parts: Map<nat, Seq<u8>>,
) -> bool {
    forall|i: int|
        0 <= i < arrivals.len() && (#[trigger] arrivals[i]).id == id ==> {
            &&& arrivals[i].total == total
            &&& 1 <= arrivals[i].seq <= total
            &&& arrivals[i].payload == parts[arrivals[i].seq]
        }
}

/// Whether that part of a message is among the arrivals.
pub open spec fn has_come(arrivals: Seq<Arrival>, id: Seq<char>, seq: nat) -> bool {
    exists|i: int|
        0 <= i < arrivals.len() && (#[trigger] arrivals[i]).id == id && arrivals[i].seq == seq
}

/// When the last of the arrivals came that is a part of the message.
pub open spec fn last_came(arrivals: Seq<Arrival>, id: Seq<char>) -> Option<nat>
    decreases arrivals.len(),
{
    if arrivals.len() == 0 {
        None
    } else if arrivals.last().id == id {
        Some(arrivals.last().at)
    } else {
        last_came(arrivals.drop_last(), id)
    }
}

/// Whether nothing comes too long after the part of the message that came last
/// before it.
pub open spec fn in_time(arrivals: Seq<Arrival>, id: Seq<char>) -> bool {
    forall|i: int|
        #![trigger arrivals[i]]
        0 <= i < arrivals.len() ==> (last_came(arrivals.take(i), id) matches Some(at) ==> is_fresh(
            at,
            arrivals[i].at,
        ))
}

proof fn lemma_assembled(a: Map<nat, Seq<u8>>, b: Map<nat, Seq<u8>>, n: nat)
    requires
        forall|i: nat| 1 <= i <= n ==> #[trigger] a[i] == b[i],
    ensures
        assembled(a, n) == assembled(b, n),
    decreases n,
{
    if n > 0 {
        lemma_assembled(a, b, (n - 1) as nat);
    }
}

/// One arrival fewer.
proof fn lemma_earlier(
    arrivals: Seq<Arrival>,
    id: Seq<char>,
    total: nat,
    parts: Map<nat, Seq<u8>>,
)
    requires
        arrivals.len() > 0,
        come_from(arrivals, id, total, parts),
        in_time(arrivals, id),
    ensures
        come_from(arrivals.drop_last(), id, total, parts),
        in_time(arrivals.drop_last(), id),
        last_came(arrivals.drop_last(), id) matches Some(at) ==> is_fresh(at, arrivals.last().at),
        forall|n: nat| #[trigger]
            has_come(arrivals, id, n) <==> has_come(arrivals.drop_last(), id, n) || (
            arrivals.last().id == id && arrivals.last().seq == n),
{
    let head = arrivals.drop_last();
    assert forall|i: int| 0 <= i < head.len() && (#[trigger] head[i]).id == id implies head[i].total
        == total && 1 <= head[i].seq <= total && head[i].payload == parts[head[i].seq] by {
        assert(arrivals[i] == head[i]);
    }
    assert forall|i: int|
        #![trigger head[i]]
        0 <= i < head.len() implies (last_came(head.take(i), id) matches Some(at) ==> is_fresh(
        at,
        head[i].at,
    )) by {
        assert(head.take(i) =~= arrivals.take(i));
        assert(arrivals[i] == head[i]);
    }
    assert(arrivals.take(arrivals.len() - 1) =~= head);
    assert(arrivals[arrivals.len() - 1] == arrivals.last());
    assert forall|n: nat| #[trigger]
        has_come(arrivals, id, n) <==> has_come(head, id, n) || (arrivals.last().id == id
            && arrivals.last().seq == n) by {
        if has_come(arrivals, id, n) {
            let i = choose|i: int|
                0 <= i < arrivals.len() && (#[trigger] arrivals[i]).id == id && arrivals[i].seq
                    == n;
            if i < head.len() {
                assert(head[i].id == id && head[i].seq == n);
            }
        }
        if has_come(head, id, n) {
            let i = choose|i: int|
                0 <= i < head.len() && (#[trigger] head[i]).id == id && head[i].seq == n;
            assert(arrivals[i].id == id && arrivals[i].seq == n);
        }
    }
}

/// What is kept of a message while one of its parts is missing: the parts that
/// have come.
proof fn lemma_incomplete(
    partials: Map<Seq<char>, PartialView>,
    arrivals: Seq<Arrival>,
    id: Seq<char>,
    total: nat,
    parts: Map<nat, Seq<u8>>,
    missing: nat,
)
    requires
        come_from(arrivals, id, total, parts),
        in_time(arrivals, id),
        arrivals.len() > 0 ==> !fresh(partials, arrivals[0].at).contains_key(id),
        1 <= missing <= total,
        !has_come(arrivals, id, missing),
    ensures
        ({
            let (state, done) = after_arrivals(partials, arrivals);
            &&& arrivals.len() > 0 && arrivals.last().id == id ==> done is None
            &&& match last_came(arrivals, id) {
                Some(at) => {
                    &&& state.contains_key(id)
                    &&& state[id].total == total
                    &&& state[id].updated_at == at
                    &&& forall|n: nat| #[trigger]
                        state[id].parts.contains_key(n) <==> has_come(arrivals, id, n)
                    &&& forall|n: nat| #[trigger]
                        state[id].parts.contains_key(n) ==> state[id].parts[n] == parts[n]
                },
                None => {
                    &&& arrivals.len() > 0 ==> !state.contains_key(id)
                    &&& forall|n: nat| !#[trigger] has_come(arrivals, id, n)
                },
            }
        }),
    decreases arrivals.len(),
{
    if arrivals.len() > 0 {
        let head = arrivals.drop_last();
        let last = arrivals.last();
        lemma_earlier(arrivals, id, total, parts);
        if head.len() > 0 {
            assert(head[0] == arrivals[0]);
        } else {
            assert(last == arrivals[0]);
        }
        assert(!has_come(head, id, missing));
        lemma_incomplete(partials, head, id, total, parts, missing);
        let before = after_arrivals(partials, head).0;
        let kept = fresh(before, last.at);
        if last.id == id {
            assert(arrivals[arrivals.len() - 1] == last);
            let joined = joined_by(kept, id, total);
            let after = joined.insert(last.seq, last.payload);
            assert forall|n: nat| #[trigger] joined.contains_key(n) implies has_come(head, id, n)
                && joined[n] == parts[n] by {
                assert(before[id].parts.contains_key(n));
            }
            assert forall|n: nat| has_come(head, id, n) implies #[trigger] joined.contains_key(
                n,
            ) by {
                assert(before[id].parts.contains_key(n));
            }
            assert(!after.contains_key(missing));
            assert(!all_there(after, total));
        }
    }
}

/// The parts of a payload may come in any order and more than once, and parts of
/// other messages in between: where nothing comes too long after the part before
/// it, the first arrival of the last part that was missing completes the
/// payload, which is the parts in the order of their numbers. No arrival before
/// it completes the payload, and nothing of the payload is kept afterwards.
pub proof fn parts_come_in_any_order(
    partials: Map<Seq<char>, PartialView>,
    arrivals: Seq<Arrival>,
    id: Seq<char>,
    total: nat,
    parts: Map<nat, Seq<u8>>,
)
    requires
        arrivals.len() > 0,
        !fresh(partials, arrivals[0].at).contains_key(id),
        come_from(arrivals, id, total, parts),
        in_time(arrivals, id),
        forall|n: nat| 1 <= n <= total ==> #[trigger] has_come(arrivals, id, n),
        arrivals.last().id == id,
        !has_come(arrivals.drop_last(), id, arrivals.last().seq),
    ensures
        ({
            let (state, done) = after_arrivals(partials, arrivals);
            &&& done == Some(assembled(parts, total))
            &&& !state.contains_key(id)
        }),
        forall|k: int|
            0 < k < arrivals.len() && arrivals[k - 1].id == id ==> (#[trigger] after_arrivals(
                partials,
                arrivals.take(k),
            )).1 is None,
{
    let head = arrivals.drop_last();
    let last = arrivals.last();
    assert(arrivals[arrivals.len() - 1] == last);
    lemma_earlier(arrivals, id, total, parts);
    if head.len() > 0 {
        assert(head[0] == arrivals[0]);
    }
    lemma_incomplete(partials, head, id, total, parts, last.seq);
    assert forall|k: int| 0 < k < arrivals.len() && arrivals[k - 1].id == id implies (
    #[trigger] after_arrivals(partials, arrivals.take(k))).1 is None by {
        lemma_prefix(arrivals, id, total, parts, k);
        let some = arrivals.take(k);
        assert(some[0] == arrivals[0]);
        assert(some.last() == arrivals[k - 1]);
        lemma_incomplete(partials, some, id, total, parts, last.seq);
    }
    let before = after_arrivals(partials, head).0;
    let kept = fresh(before, last.at);
    let joined = joined_by(kept, id, total);
    let after = joined.insert(last.seq, last.payload);
    assert forall|n: nat| 1 <= n <= total implies #[trigger] after.contains_key(n) && after[n]
        == parts[n] by {
        assert(has_come(arrivals, id, n));
        if n != last.seq {
            assert(has_come(head, id, n));
            assert(before[id].parts.contains_key(n));
        }
    }
    assert(all_there(after, total));
    assert forall|n: nat| 1 <= n <= total implies #[trigger] after[n] == parts[n] by {
        assert(after.contains_key(n));
    }
    lemma_assembled(after, parts, total);
}

/// The first of some arrivals.
proof fn lemma_prefix(
    arrivals: Seq<Arrival>,
    id: Seq<char>,
    total: nat,
    parts: Map<nat, Seq<u8>>,
    k: int,
)
    requires
        come_from(arrivals, id, total, parts),
        in_time(arrivals, id),
        0 < k < arrivals.len(),
    ensures
        come_from(arrivals.take(k), id, total, parts),
        in_time(arrivals.take(k), id),
        forall|n: nat| #[trigger]
            has_come(arrivals.take(k), id, n) ==> has_come(arrivals.drop_last(), id, n),
{
    let some = arrivals.take(k);
    let head = arrivals.drop_last();
    assert forall|i: int| 0 <= i < some.len() && (#[trigger] some[i]).id == id implies some[i].total
        == total && 1 <= some[i].seq <= total && some[i].payload == parts[some[i].seq] by {
        assert(arrivals[i] == some[i]);
    }
    assert forall|i: int|
        #![trigger some[i]]
        0 <= i < some.len() implies (last_came(some.take(i), id) matches Some(at) ==> is_fresh(
        at,
        some[i].at,
    )) by {
        assert(some.take(i) =~= arrivals.take(i));
        assert(arrivals[i] == some[i]);
    }
    assert forall|n: nat| #[trigger] has_come(some, id, n) implies has_come(head, id, n) by {
        let i = choose|i: int|
            0 <= i < some.len() && (#[trigger] some[i]).id == id && some[i].seq == n;
        assert(head[i].id == id && head[i].seq == n);
    }
}

/// A part of one message leaves what is kept of other messages as it was.
pub proof fn parts_do_not_mix(
    partials: Map<Seq<char>, PartialView>,
    id: Seq<char>,
    seq: nat,
    total: nat,
    payload: Seq<u8>,
    now: nat,
    other: Seq<char>,
)
    requires
        other != id,
    ensures
        ({
            let after = after_part(partials, id, seq, total, payload, now).0;
            &&& after.contains_key(other) <==> partials.contains_key(other) && is_fresh(
                partials[other].updated_at,
                now,
            )
            &&& after.contains_key(other) ==> after[other] == partials[other]
        }),
{
}

// ------------------------------------------------------------------- cards

proof fn lemma_card_names()
    ensures
        "config"@ != "elements"@,
        "header"@ != "elements"@,
        "config"@ != "header"@,
        "tag"@ != "actions"@,
        "tag"@ != "value"@,
        "text"@ != "value"@,
        "type"@ != "value"@,
        "tag"@ != "text"@,
{
    reveal_strlit("config");
    reveal_strlit("elements");
    reveal_strlit("header");
    reveal_strlit("tag");
    reveal_strlit("actions");
    reveal_strlit("value");
    reveal_strlit("text");
    reveal_strlit("type");
    assert("config"@.len() == 6 && "elements"@.len() == 8 && "header"@.len() == 6 && "tag"@.len()
        == 3 && "actions"@.len() == 7 && "value"@.len() == 5 && "text"@.len() == 4
        && "type"@.len() == 4);
    assert("config"@[0] == 'c' && "header"@[0] == 'h');
}

proof fn lemma_plain_parts(content: Seq<char>, levels: nat)
    requires
        levels >= 2,
    ensures
        is_readable(plain_text(content), levels),
        is_readable(paragraph(content), levels),
        is_readable(wide_screen(), levels),
{
    reveal_with_fuel(is_readable, 3);
}

proof fn lemma_button(button: ApprovalButton, levels: nat)
    requires
        levels >= 2,
    ensures
        is_readable(button_element(button), levels),
{
    reveal_with_fuel(is_readable, 3);
}

/// Whatever their text and buttons, the cards of the channel can be read out of
/// what is written of them.
pub proof fn cards_can_be_read(text: Seq<char>, buttons: Seq<ApprovalButton>)
    ensures
        is_readable(approval_card(text, buttons), MAX_LEVELS as nat),
        is_readable(status_card(text), MAX_LEVELS as nat),
{
    let top = MAX_LEVELS as nat;
    let title = JsonView::Object(
        Map::<Seq<char>, JsonView>::empty().insert("title"@, plain_text("Stakpak approval"@)),
    );
    lemma_plain_parts("Stakpak approval"@, (top - 2) as nat);
    lemma_plain_parts(text, (top - 1) as nat);
    lemma_plain_parts(text, (top - 2) as nat);
    assert(is_readable(title, (top - 1) as nat));
    let actions = buttons.map_values(|button: ApprovalButton| button_element(button));
    assert forall|i: int| 0 <= i < actions.len() implies is_readable(
        #[trigger] actions[i],
        (top - 4) as nat,
    ) by {
        lemma_button(buttons[i], (top - 4) as nat);
    }
    assert(is_readable(JsonView::Array(actions), (top - 3) as nat));
    assert(is_readable(JsonView::Text("action"@), (top - 3) as nat));
    assert(is_readable(button_row(buttons), (top - 2) as nat));
    assert(is_readable(
        JsonView::Array(seq![paragraph(text), button_row(buttons)]),
        (top - 1) as nat,
    ));
    assert(is_readable(JsonView::Array(seq![paragraph(text)]), (top - 1) as nat));
}

/// What a card that asks for approval hands back for a button: the element of
/// that number in its row of buttons, and that element's value.
pub open spec fn handed_back(card: JsonView, button: int) -> Option<JsonView> {
    match card.get("elements"@) {
        Some(JsonView::Array(elements)) => match elements[1].get("actions"@) {
            Some(JsonView::Array(actions)) => actions[button].get("value"@),
            _ => None,
        },
        _ => None,
    }
}

/// The callback of a button travels with the card and back: each button of a
/// card carries its callback, and the event of a pressed button gives it back.
pub proof fn callbacks_travel(
    text: Seq<char>,
    buttons: Seq<ApprovalButton>,
    pressed: int,
    event: JsonView,
)
    requires
        0 <= pressed < buttons.len(),
        trimmed(buttons[pressed].callback_data@).len() > 0,
        member_of(member_of(event.get("event"@), "action"@), "value"@) == handed_back(
            approval_card(text, buttons),
            pressed,
        ),
    ensures
        card_callback(event) == Some(buttons[pressed].callback_data@),
{
    lemma_card_names();
    let card = approval_card(text, buttons);
    let row = button_row(buttons);
    let elements = card.get("elements"@)->Some_0->Array_0;
    assert(elements[1] == row);
    let actions = row.get("actions"@)->Some_0->Array_0;
    assert(actions[pressed] == button_element(buttons[pressed]));
    let callback = buttons[pressed].callback_data@;
    assert(handed_back(card, pressed) == Some(button_value(callback)));
    let inner = Some(button_value(callback));
    assert(member_of(inner, "callback"@) == Some(JsonView::Text(callback)));
}

// ------------------------------------------------------- tokens and address

/// A token is used until a minute before it expires, and no longer.
pub proof fn tokens_are_used_until_they_expire(
    state: ChannelView,
    token: Seq<char>,
    fetched_at: int,
    expire: int,
    now: int,
)
    ensures
        ({
            let kept = state.with_token(token, fetched_at, expire);
            &&& now < fetched_at + expire - 60 ==> kept.usable_token(now) == Some(token)
            &&& now >= fetched_at + expire - 60 ==> kept.usable_token(now) is None
            &&& kept == (ChannelView { token: kept.token, ..state })
        }),
{
}

proof fn lemma_stripped_end(text: Seq<char>, c: char)
    ensures
        stripped_end(text, c).len() > 0 ==> stripped_end(text, c).last() != c,
    decreases text.len(),
{
    if text.len() > 0 && text.last() == c {
        lemma_stripped_end(text.drop_last(), c);
    }
}

/// The address of the platform is never empty, and a path can follow it: it does
/// not end in a slash.
pub proof fn addresses_take_a_path(setting: Option<Seq<char>>)
    ensures
        domain_of(setting).len() > 0,
        domain_of(setting).last() != '/',
{
    reveal_strlit("https://open.feishu.cn");
    if let Some(text) = setting {
        lemma_stripped_end(trimmed(text), '/');
    }
}

// ------------------------------------------------------------- connections

/// A connection lasts until the channel is to stop, or the connection ends or
/// fails: nothing else that happens on it makes the channel close or leave it.
pub proof fn connections_last(event: SocketEvent)
    ensures
        action_on(event) is Close <==> event is Cancelled,
        action_on(event) is Leave <==> event is Closed || event is Ended || event is ReadFailed
            || event is SendFailed,
        ending(action_on(event)) is Some <==> action_on(event) is Close || action_on(event) is Leave,
        ending(action_on(event)) matches Some(well) ==> well,
{
}

/// What happens on a connection is acted on: a ping is sent when it is due, a
/// frame is taken in as it came, and a ping of the websocket is answered with what
/// it brought.
pub proof fn connections_are_served(bytes: Vec<u8>)
    ensures
        action_on(SocketEvent::KeepaliveDue) == SocketAction::SendPing,
        action_on(SocketEvent::Binary(bytes)) == SocketAction::Receive(bytes),
        action_on(SocketEvent::Ping(bytes)) == SocketAction::SendPong(bytes),
        action_on(SocketEvent::Other) == SocketAction::Wait,
{
}

/// Pings go out as often as the platform says, and every two minutes where it
/// names no positive number of seconds.
pub proof fn pings_are_sent_as_told(config: EndpointClientConfig, seconds: u64)
    ensures
        config.ping_interval == Some(seconds) && seconds > 0 ==> ping_interval(Some(config))
            == seconds,
        config.ping_interval is None || config.ping_interval == Some(0u64) ==> ping_interval(
            Some(config),
        ) == 120,
        ping_interval(None) == 120,
{
}

/// What a frame is answered is sent. Nothing is sent, and the connection goes on,
/// where the frame has no answer or could not be taken in.
pub proof fn responses_are_sent<E>(result: Result<Option<Vec<u8>>, E>)
    ensures
        action_on(handling(result)) == match result {
            Ok(Some(bytes)) => SocketAction::Respond(bytes),
            _ => SocketAction::Wait,
        },
        ending(action_on(handling(result))) is None,
{
}

/// The wait after so many lost connections.
pub open spec fn wait_after(lost: nat) -> nat
    decreases lost,
{
    if lost == 0 {
        1
    } else {
        wait_of(wait_after((lost - 1) as nat), false, false).1
    }
}

/// Waits double from one second on until they are half a minute long, and stay
/// so.
pub proof fn waits_double(lost: nat)
    ensures
        lost < 5 ==> wait_after(lost) == pow2(lost),
        lost >= 5 ==> wait_after(lost) == 30,
    decreases lost,
{
    vstd::arithmetic::power2::lemma2_to64();
    if lost > 0 {
        waits_double((lost - 1) as nat);
        if lost <= 5 {
            vstd::arithmetic::power2::lemma_pow2_unfold(lost);
        }
    }
}

/// After a lost connection there is a wait, unless it ended well because the
/// channel is to stop; how it ended makes no difference to how long the waits are.
pub proof fn only_stopping_ends_the_waits(secs: nat, ended_well: bool, cancelled: bool)
    ensures
        wait_of(secs, true, true) == (None::<nat>, secs),
        !(ended_well && cancelled) ==> wait_of(secs, ended_well, cancelled) == (
            Some(secs),
            if secs < 15 {
                2 * secs
            } else {
                30
            },
        ),
{
}

// -------------------------------------------------------------- deliveries

/// A reply after messages of those identifiers were made.
pub open spec fn after_messages(reply: DeliveryView, message_ids: Seq<Seq<char>>) -> DeliveryView
    decreases message_ids.len(),
{
    if message_ids.len() == 0 {
        reply
    } else {
        after_messages(reply, message_ids.drop_last()).after_message(message_ids.last())
    }
}

/// The receipt of a reply that took several messages names the first of them.
pub proof fn receipts_name_the_first_message(reply: DeliveryView, message_ids: Seq<Seq<char>>)
    requires
        reply.first_message_id is None,
        message_ids.len() > 0,
    ensures
        after_messages(reply, message_ids) == (DeliveryView {
            first_message_id: Some(message_ids[0]),
            ..reply
        }),
    decreases message_ids.len(),
{
    let head = message_ids.drop_last();
    if head.len() > 0 {
        receipts_name_the_first_message(reply, head);
        assert(head[0] == message_ids[0]);
    } else {
        assert(after_messages(reply, head) == reply);
    }
}

} // verus!

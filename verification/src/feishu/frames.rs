//! The frames that travel over the websocket.
use vstd::prelude::*;

use crate::json::{Json, JsonObject, JsonView, NumberView};
use crate::json_codec::{document_bytes, document_in_bytes, is_readable, render_bytes};
use crate::number::{decimal, decimal_text};
use crate::text_map::{map_of_pairs, pairs_view, TextMap};

use super::error::ChannelError;

verus! {

/// A group of headers of a frame.
#[derive(Debug)]
pub struct WsHeader {
    pub key_values: TextMap,
}

/// A frame.
#[derive(Debug)]
pub struct WsFrame {
    pub seq_id: u64,
    pub log_id: String,
    pub service: u32,
    pub method: u32,
    pub headers: Vec<WsHeader>,
    pub payload_encoding: String,
    pub payload_type: String,
    pub payload: Vec<u8>,
    pub log_id_new: String,
}

/// The content of a frame.
pub struct FrameView {
    pub seq_id: nat,
    pub log_id: Seq<char>,
    pub service: nat,
    pub method: nat,
    pub headers: Seq<Map<Seq<char>, Seq<char>>>,
    pub payload_encoding: Seq<char>,
    pub payload_type: Seq<char>,
    pub payload: Seq<u8>,
    pub log_id_new: Seq<char>,
}

/// The groups of headers, as maps.
pub open spec fn header_maps(headers: Seq<WsHeader>) -> Seq<Map<Seq<char>, Seq<char>>> {
    headers.map_values(|header: WsHeader| header.key_values@)
}

impl View for WsFrame {
    type V = FrameView;

    open spec fn view(&self) -> FrameView {
        FrameView {
            seq_id: self.seq_id as nat,
            log_id: self.log_id@,
            service: self.service as nat,
            method: self.method as nat,
            headers: header_maps(self.headers@),
            payload_encoding: self.payload_encoding@,
            payload_type: self.payload_type@,
            payload: self.payload@,
            log_id_new: self.log_id_new@,
        }
    }
}

/// All headers in one map: later groups replace what earlier ones say.
pub open spec fn merged(headers: Seq<Map<Seq<char>, Seq<char>>>) -> Map<Seq<char>, Seq<char>>
    decreases headers.len(),
{
    if headers.len() == 0 {
        Map::empty()
    } else {
        merged(headers.drop_last()).union_prefer_right(headers.last())
    }
}

/// The text of a header.
pub open spec fn header_named(headers: Map<Seq<char>, Seq<char>>, name: Seq<char>) -> Option<Seq<char>> {
    if headers.contains_key(name) {
        Some(headers[name])
    } else {
        None
    }
}

/// All headers of a frame in one map.
pub fn frame_headers(frame: &WsFrame) -> (r: TextMap)
    ensures
        r@ == merged(frame@.headers),
{
    let mut headers = TextMap::new();
    let ghost maps = frame@.headers;
    let mut i: usize = 0;
    assert(maps.take(0) =~= Seq::<Map<Seq<char>, Seq<char>>>::empty());
    while i < frame.headers.len()
        invariant
            i <= frame.headers@.len(),
            maps == header_maps(frame.headers@),
            headers@ == merged(maps.take(i as int)),
        decreases frame.headers@.len() - i,
    {
        headers.merge_with(&frame.headers[i].key_values);
        i += 1;
        assert(maps.take(i as int).drop_last() =~= maps.take(i - 1));
    }
    assert(maps.take(i as int) =~= maps);
    headers
}

/// A group of headers out of pairs of a name and a text.
pub fn header_from_pairs<const N: usize>(pairs: [(&str, &str); N]) -> (r: WsHeader)
    ensures
        r.key_values@ == pairs_view(pairs@),
{
    WsHeader { key_values: map_of_pairs(pairs.as_slice()) }
}

/// The frame that keeps a connection alive, sent at that millisecond.
pub open spec fn ping(service_id: nat, now_millis: int) -> FrameView {
    FrameView {
        seq_id: if now_millis < 0 {
            0
        } else {
            now_millis as nat
        },
        log_id: Seq::empty(),
        service: service_id,
        method: 0,
        headers: seq![Map::<Seq<char>, Seq<char>>::empty().insert("type"@, "ping"@)],
        payload_encoding: Seq::empty(),
        payload_type: Seq::empty(),
        payload: Seq::empty(),
        log_id_new: Seq::empty(),
    }
}

/// The frame that keeps a connection alive, sent at that millisecond.
pub fn build_ping_frame(service_id: u32, now_millis: i64) -> (r: WsFrame)
    ensures
        r@ == ping(service_id as nat, now_millis as int),
{
    let pairs = [("type", "ping")];
    let header = header_from_pairs(pairs);
    let headers: Vec<WsHeader> = vec![header];
    proof {
        reveal_with_fuel(pairs_view, 2);
        assert(pairs@.drop_last() =~= Seq::<(&str, &str)>::empty());
        assert(header_maps(headers@) =~= seq![
            Map::<Seq<char>, Seq<char>>::empty().insert("type"@, "ping"@),
        ]);
    }
    WsFrame {
        seq_id: if now_millis < 0 {
            0
        } else {
            now_millis as u64
        },
        log_id: String::new(),
        service: service_id,
        method: 0,
        headers,
        payload_encoding: String::new(),
        payload_type: String::new(),
        payload: Vec::new(),
        log_id_new: String::new(),
    }
}

/// The document that a response carries.
pub open spec fn response_document(status_code: nat) -> JsonView {
    JsonView::Object(
        Map::<Seq<char>, JsonView>::empty().insert(
            "code"@,
            JsonView::Number(NumberView::Unsigned(status_code as u64)),
        ).insert("data"@, JsonView::Object(Map::empty())),
    )
}

/// The headers that a response adds.
pub open spec fn response_headers(status_code: nat) -> Map<Seq<char>, Seq<char>> {
    Map::<Seq<char>, Seq<char>>::empty().insert("biz_rt"@, "0"@).insert(
        "response-code"@,
        decimal(status_code),
    )
}

/// The response to a frame: the frame with one more group of headers, and with
/// that payload.
pub open spec fn response(frame: FrameView, status_code: nat, payload: Seq<u8>) -> FrameView {
    FrameView { headers: frame.headers.push(response_headers(status_code)), payload, ..frame }
}

/// The response to a frame, with that payload.
pub fn response_frame(frame: &WsFrame, status_code: u16, payload: Vec<u8>) -> (r: WsFrame)
    ensures
        r@ == response(frame@, status_code as nat, payload@),
{
    let mut headers: Vec<WsHeader> = Vec::new();
    let mut i: usize = 0;
    while i < frame.headers.len()
        invariant
            i <= frame.headers@.len(),
            header_maps(headers@) =~= header_maps(frame.headers@).take(i as int),
        decreases frame.headers@.len() - i,
    {
        let ghost before = headers@;
        headers.push(WsHeader { key_values: frame.headers[i].key_values.copy() });
        assert(header_maps(headers@) =~= header_maps(before).push(
            frame.headers@[i as int].key_values@,
        ));
        i += 1;
    }
    let code = decimal_text(status_code as u64);
    let pairs = [("biz_rt", "0"), ("response-code", code.as_str())];
    let added = header_from_pairs(pairs);
    proof {
        reveal_with_fuel(pairs_view, 3);
        assert(pairs@.drop_last().drop_last() =~= Seq::<(&str, &str)>::empty());
        assert(added.key_values@ == response_headers(status_code as nat));
    }
    let ghost before = headers@;
    assert(header_maps(before) =~= frame@.headers);
    headers.push(added);
    assert(header_maps(headers@) =~= header_maps(before).push(added.key_values@));
    WsFrame {
        seq_id: frame.seq_id,
        log_id: frame.log_id.clone(),
        service: frame.service,
        method: frame.method,
        headers,
        payload_encoding: frame.payload_encoding.clone(),
        payload_type: frame.payload_type.clone(),
        payload,
        log_id_new: frame.log_id_new.clone(),
    }
}

/// The response to a frame that carries the status. Whoever reads its payload
/// finds the status in it.
pub fn build_response_frame(frame: &WsFrame, status_code: u16) -> (r: Result<
    WsFrame,
    ChannelError,
>)
    ensures
        r matches Ok(out) && out@ == response(
            frame@,
            status_code as nat,
            document_bytes(response_document(status_code as nat)),
        ),
        document_in_bytes(document_bytes(response_document(status_code as nat))) == Some(
            response_document(status_code as nat),
        ),
{
    proof {
        reveal_with_fuel(is_readable, 2);
    }
    let body = JsonObject::new().with("code", Json::Unsigned(status_code as u64)).with(
        "data",
        JsonObject::new().build(),
    ).build();
    match render_bytes(&body) {
        Some(payload) => Ok(response_frame(frame, status_code, payload)),
        None => Err(ChannelError::ResponseEncode),
    }
}

} // verus!

//! WebSocket bridge: translation between relayed frames and the messages of
//! the local WebSocket connection, opcode for opcode.

use vstd::prelude::*;
use vstd::utf8::{decode_utf8, encode_utf8, valid_utf8};
use crate::envelope::{Envelope, PayloadView, WsFrame, WsFrameView, WsOpcode};
use crate::response::{routed, strictly_increasing, ws_frame, ws_frame_view, SeqCounter};
use crate::wire::string_from_utf8;

verus! {

/// A message of the local WebSocket connection.
#[derive(Debug, Clone, PartialEq, Eq)]
pub enum LocalWsMessage {
    Text(String),
    Binary(Vec<u8>),
    Ping(Vec<u8>),
    Pong(Vec<u8>),
    /// A close, with its status code when it has one.
    Close(Option<u16>),
}

pub enum LocalWsView {
    Text(Seq<char>),
    Binary(Seq<u8>),
    Ping(Seq<u8>),
    Pong(Seq<u8>),
    Close(Option<u16>),
}

impl View for LocalWsMessage {
    type V = LocalWsView;

    open spec fn view(&self) -> LocalWsView {
        match self {
            LocalWsMessage::Text(t) => LocalWsView::Text(t@),
            LocalWsMessage::Binary(b) => LocalWsView::Binary(b@),
            LocalWsMessage::Ping(b) => LocalWsView::Ping(b@),
            LocalWsMessage::Pong(b) => LocalWsView::Pong(b@),
            LocalWsMessage::Close(c) => LocalWsView::Close(*c),
        }
    }
}

/// What a relayed frame becomes on the local connection: text must be valid
/// UTF-8, a close keeps its code with no reason, continuations are dropped.
pub open spec fn inbound_message(w: WsFrameView) -> Option<LocalWsView> {
    match w.opcode {
        WsOpcode::Text => if valid_utf8(w.payload) {
            Some(LocalWsView::Text(decode_utf8(w.payload)))
        } else {
            None
        },
        WsOpcode::Binary => Some(LocalWsView::Binary(w.payload)),
        WsOpcode::Close => Some(LocalWsView::Close(Some(w.close_code))),
        WsOpcode::Ping => Some(LocalWsView::Ping(w.payload)),
        WsOpcode::Pong => Some(LocalWsView::Pong(w.payload)),
        WsOpcode::Continuation => None,
    }
}

/// The opcode, payload and close code that relay a local message; a close
/// without a code is relayed as a normal closure (`1000`).
pub open spec fn outbound_parts(m: LocalWsView) -> (WsOpcode, Seq<u8>, u16) {
    match m {
        LocalWsView::Text(t) => (WsOpcode::Text, encode_utf8(t), 0),
        LocalWsView::Binary(b) => (WsOpcode::Binary, b, 0),
        LocalWsView::Ping(b) => (WsOpcode::Ping, b, 0),
        LocalWsView::Pong(b) => (WsOpcode::Pong, b, 0),
        LocalWsView::Close(c) => (
            WsOpcode::Close,
            Seq::empty(),
            match c {
                Some(code) => code,
                None => 1000,
            },
        ),
    }
}

/// Translates a frame from the tunnel into a local message; `None` for a
/// frame that is dropped.
pub fn to_local(w: &WsFrame) -> (r: Option<LocalWsMessage>)
    ensures
        match inbound_message(w@) {
            Some(v) => r is Some && r.unwrap()@ == v,
            None => r is None,
        },
{
    match w.opcode {
        WsOpcode::Text => match string_from_utf8(w.payload.clone()) {
            Some(t) => Some(LocalWsMessage::Text(t)),
            None => None,
        },
        WsOpcode::Binary => Some(LocalWsMessage::Binary(w.payload.clone())),
        WsOpcode::Close => Some(LocalWsMessage::Close(Some(w.close_code))),
        WsOpcode::Ping => Some(LocalWsMessage::Ping(w.payload.clone())),
        WsOpcode::Pong => Some(LocalWsMessage::Pong(w.payload.clone())),
        WsOpcode::Continuation => None,
    }
}

/// The frame relaying a local message on `stream_id`, numbered by `seqs`;
/// `None`, with `seqs` untouched, once the counter is used up.
pub fn local_frame(
    connection_id: u64,
    stream_id: u32,
    seqs: &mut SeqCounter,
    m: &LocalWsMessage,
) -> (r: Option<Envelope>)
    ensures
        strictly_increasing(final(seqs).issued()),
        old(seqs).next_value() <= u32::MAX ==> {
            let (op, payload, code) = outbound_parts(m@);
            &&& r is Some
            &&& r.unwrap()@ == routed(
                connection_id,
                stream_id,
                old(seqs).next_value() as u32,
                PayloadView::Ws(ws_frame_view(op, payload, code)),
            )
            &&& final(seqs).next_value() == old(seqs).next_value() + 1
            &&& final(seqs).issued() == old(seqs).issued().push(old(seqs).next_value() as u32)
        },
        old(seqs).next_value() > u32::MAX ==> r is None && *final(seqs) == *old(seqs),
{
    let seq = match seqs.take() {
        Some(s) => s,
        None => return None,
    };
    let e = match m {
        LocalWsMessage::Text(t) => ws_frame(
            connection_id,
            stream_id,
            seq,
            WsOpcode::Text,
            t.as_str().as_bytes(),
            None,
        ),
        LocalWsMessage::Binary(b) => ws_frame(
            connection_id,
            stream_id,
            seq,
            WsOpcode::Binary,
            b.as_slice(),
            None,
        ),
        LocalWsMessage::Ping(b) => ws_frame(
            connection_id,
            stream_id,
            seq,
            WsOpcode::Ping,
            b.as_slice(),
            None,
        ),
        LocalWsMessage::Pong(b) => ws_frame(
            connection_id,
            stream_id,
            seq,
            WsOpcode::Pong,
            b.as_slice(),
            None,
        ),
        LocalWsMessage::Close(c) => {
            let code = match c {
                Some(code) => *code,
                None => 1000,
            };
            let empty: Vec<u8> = Vec::new();
            assert(empty@ =~= Seq::<u8>::empty());
            ws_frame(connection_id, stream_id, seq, WsOpcode::Close, empty.as_slice(), Some(code))
        },
    };
    Some(e)
}

} // verus!

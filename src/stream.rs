//! The stream table and the per-stream state machines: HTTP requests are
//! assembled until their end, WebSocket streams relay frames to a local sink,
//! and control messages are answered or reported.

use std::collections::HashMap;
use vstd::prelude::*;
use crate::bridge::{inbound_message, to_local, LocalWsMessage, LocalWsView};
use crate::envelope::{
    headers_view, ControlMessage, ControlView, Envelope, EnvelopeView, Header, HeaderView,
    HttpMessage, HttpView, Payload, PayloadView,
};
use crate::headers::{asks_websocket, is_websocket_upgrade, negotiation, websocket_forward_headers};
use crate::response::{control_pong, routed};

verus! {

broadcast use vstd::std_specs::hash::group_hash_axioms;

/// An HTTP request being assembled.
#[derive(Debug)]
pub struct PendingRequest {
    pub method: String,
    pub uri: String,
    pub headers: Vec<Header>,
    pub body_chunks: Vec<Vec<u8>>,
    pub has_body: bool,
}

pub struct PendingView {
    pub method: Seq<char>,
    pub uri: Seq<char>,
    pub headers: Seq<HeaderView>,
    pub chunks: Seq<Seq<u8>>,
    pub has_body: bool,
}

impl View for PendingRequest {
    type V = PendingView;

    open spec fn view(&self) -> PendingView {
        PendingView {
            method: self.method@,
            uri: self.uri@,
            headers: headers_view(self.headers@),
            chunks: self.body_chunks@.map_values(|c: Vec<u8>| c@),
            has_body: self.has_body,
        }
    }
}

/// The chunks of a body, one after the other.
pub open spec fn concat_chunks(cs: Seq<Seq<u8>>) -> Seq<u8>
    decreases cs.len(),
{
    if cs.len() == 0 {
        seq![]
    } else {
        concat_chunks(cs.drop_last()) + cs.last()
    }
}

impl PendingRequest {
    /// The whole body: the chunks received, in order.
    pub fn body(&self) -> (r: Vec<u8>)
        ensures
            r@ == concat_chunks(self@.chunks),
    {
        let ghost cs = self@.chunks;
        let mut out: Vec<u8> = Vec::new();
        let mut i: usize = 0;
        while i < self.body_chunks.len()
            invariant
                i <= self.body_chunks@.len(),
                cs == self@.chunks,
                out@ == concat_chunks(cs.take(i as int)),
            decreases self.body_chunks@.len() - i,
        {
            assert(cs.take(i + 1).drop_last() =~= cs.take(i as int));
            out.extend_from_slice(self.body_chunks[i].as_slice());
            i = i + 1;
        }
        assert(cs.take(self.body_chunks@.len() as int) =~= cs);
        out
    }
}

/// The state of one stream; its kind is fixed when it is created.
pub enum StreamState<S> {
    /// An HTTP stream; the request is taken once it is complete.
    Http(Option<PendingRequest>),
    /// A WebSocket stream, with the sink feeding the local connection.
    WebSocket(S),
}

pub enum StreamView {
    Http(Option<PendingView>),
    WebSocket,
}

impl<S> View for StreamState<S> {
    type V = StreamView;

    open spec fn view(&self) -> StreamView {
        match self {
            StreamState::Http(p) => StreamView::Http(
                match p {
                    Some(r) => Some(r@),
                    None => None,
                },
            ),
            StreamState::WebSocket(_) => StreamView::WebSocket,
        }
    }
}

/// What the session does after an inbound envelope.
#[derive(Debug)]
pub enum Action {
    Nothing,
    /// The request asks for a WebSocket upgrade: dial the local server with
    /// the negotiation headers.
    DialWebSocket { connection_id: u64, stream_id: u32, uri: String, headers: Vec<Header> },
    /// The request is complete: forward it to the local server.
    Forward { connection_id: u64, stream_id: u32, request: PendingRequest },
    /// Hand a message to the local WebSocket of the stream.
    ToLocal { stream_id: u32, message: LocalWsMessage },
    /// Send this envelope back.
    Reply(Envelope),
    /// The service reported an error; the session goes on.
    ControlError { code: u32, message: String },
    /// The service asked the session to go away.
    GoAway { reason: String },
    /// A variant this side never acts upon.
    Unsupported,
}

pub enum ActionView {
    Nothing,
    DialWebSocket { connection_id: u64, stream_id: u32, uri: Seq<char>, headers: Seq<HeaderView> },
    Forward { connection_id: u64, stream_id: u32, request: PendingView },
    ToLocal { stream_id: u32, message: LocalWsView },
    Reply(EnvelopeView),
    ControlError { code: u32, message: Seq<char> },
    GoAway { reason: Seq<char> },
    Unsupported,
}

impl View for Action {
    type V = ActionView;

    open spec fn view(&self) -> ActionView {
        match self {
            Action::Nothing => ActionView::Nothing,
            Action::DialWebSocket { connection_id, stream_id, uri, headers } =>
                ActionView::DialWebSocket {
                connection_id: *connection_id,
                stream_id: *stream_id,
                uri: uri@,
                headers: headers_view(headers@),
            },
            Action::Forward { connection_id, stream_id, request } => ActionView::Forward {
                connection_id: *connection_id,
                stream_id: *stream_id,
                request: request@,
            },
            Action::ToLocal { stream_id, message } => ActionView::ToLocal {
                stream_id: *stream_id,
                message: message@,
            },
            Action::Reply(e) => ActionView::Reply(e@),
            Action::ControlError { code, message } => ActionView::ControlError {
                code: *code,
                message: message@,
            },
            Action::GoAway { reason } => ActionView::GoAway { reason: reason@ },
            Action::Unsupported => ActionView::Unsupported,
        }
    }
}

/// The request still being assembled on stream `id`, if any.
pub open spec fn pending_of(t: Map<u32, StreamView>, id: u32) -> Option<PendingView> {
    if t.contains_key(id) {
        match t[id] {
            StreamView::Http(Some(p)) => Some(p),
            _ => None,
        }
    } else {
        None
    }
}

pub open spec fn is_websocket_stream(t: Map<u32, StreamView>, id: u32) -> bool {
    t.contains_key(id) && t[id] is WebSocket
}

/// One step of the session: the table after envelope `e`, and what to do.
pub open spec fn step(t: Map<u32, StreamView>, e: EnvelopeView) -> (Map<u32, StreamView>, ActionView) {
    let id = e.stream_id;
    let conn = e.connection_id;
    match e.payload {
        PayloadView::Http(h) => match h {
            HttpView::RequestInit { method, uri, headers, has_body } => if t.contains_key(id) {
                (t, ActionView::Nothing)
            } else if asks_websocket(headers) {
                (
                    t,
                    ActionView::DialWebSocket {
                        connection_id: conn,
                        stream_id: id,
                        uri,
                        headers: negotiation(headers),
                    },
                )
            } else {
                (
                    t.insert(
                        id,
                        StreamView::Http(
                            Some(PendingView { method, uri, headers, chunks: seq![], has_body }),
                        ),
                    ),
                    ActionView::Nothing,
                )
            },
            HttpView::RequestBodyChunk { data } => match pending_of(t, id) {
                Some(p) => (
                    t.insert(
                        id,
                        StreamView::Http(Some(PendingView { chunks: p.chunks.push(data), ..p })),
                    ),
                    ActionView::Nothing,
                ),
                None => (t, ActionView::Nothing),
            },
            HttpView::RequestEnd => match pending_of(t, id) {
                Some(p) => (
                    t.insert(id, StreamView::Http(None)),
                    ActionView::Forward { connection_id: conn, stream_id: id, request: p },
                ),
                None => (t, ActionView::Nothing),
            },
            HttpView::RequestAbort { .. } => (t.remove(id), ActionView::Nothing),
            _ => (t, ActionView::Unsupported),
        },
        PayloadView::Ws(w) => if is_websocket_stream(t, id) {
            match inbound_message(w) {
                Some(m) => (t, ActionView::ToLocal { stream_id: id, message: m }),
                None => (t, ActionView::Nothing),
            }
        } else {
            (t, ActionView::Nothing)
        },
        PayloadView::Control(c) => match c {
            ControlView::Ping { data } => (
                t,
                ActionView::Reply(routed(conn, 0, 0, PayloadView::Control(ControlView::Pong { data }))),
            ),
            ControlView::Pong { .. } => (t, ActionView::Nothing),
            ControlView::Error { code, message } => (t, ActionView::ControlError { code, message }),
            ControlView::GoAway { reason } => (t, ActionView::GoAway { reason }),
            ControlView::FlowWindowUpdate => (t, ActionView::Unsupported),
        },
    }
}

/// A stream keeps the kind it was created with: a step may add a stream or
/// remove one, but never turns an HTTP stream into a WebSocket one or back.
pub proof fn lemma_stream_kind_fixed(t: Map<u32, StreamView>, e: EnvelopeView, id: u32)
    requires
        t.contains_key(id),
        step(t, e).0.contains_key(id),
    ensures
        (t[id] is WebSocket) == (step(t, e).0[id] is WebSocket),
{
}

/// The streams of one session, by stream id.
pub struct StreamTable<S> {
    streams: HashMap<u32, StreamState<S>>,
}

impl<S> View for StreamTable<S> {
    type V = Map<u32, StreamView>;

    closed spec fn view(&self) -> Map<u32, StreamView> {
        self.streams@.map_values(|s: StreamState<S>| s@)
    }
}

impl<S> StreamTable<S> {
    pub fn new() -> (r: Self)
        ensures
            r@ == Map::<u32, StreamView>::empty(),
    {
        let r = StreamTable { streams: HashMap::new() };
        assert(r@ =~= Map::<u32, StreamView>::empty());
        r
    }

    pub fn contains(&self, id: u32) -> (r: bool)
        ensures
            r == self@.contains_key(id),
    {
        self.streams.contains_key(&id)
    }

    /// Removes stream `id`, once its response is flushed or its local
    /// WebSocket has closed.
    pub fn remove(&mut self, id: u32)
        ensures
            final(self)@ == old(self)@.remove(id),
    {
        self.streams.remove(&id);
        assert(self@ =~= old(self)@.remove(id));
    }

    /// Registers the WebSocket stream `id` once the local dial succeeded; a
    /// stream already there is kept and `false` returned.
    pub fn register_websocket(&mut self, id: u32, sink: S) -> (r: bool)
        ensures
            r == !old(self)@.contains_key(id),
            r ==> final(self)@ == old(self)@.insert(id, StreamView::WebSocket),
            !r ==> final(self)@ == old(self)@,
    {
        if self.streams.contains_key(&id) {
            return false;
        }
        self.streams.insert(id, StreamState::WebSocket(sink));
        assert(self@ =~= old(self)@.insert(id, StreamView::WebSocket));
        true
    }

    /// The sink of the WebSocket stream `id`.
    pub fn websocket_sink(&self, id: u32) -> (r: Option<&S>)
        ensures
            r is Some <==> is_websocket_stream(self@, id),
    {
        match self.streams.get(&id) {
            Some(StreamState::WebSocket(s)) => Some(s),
            _ => None,
        }
    }

    fn put_pending(&mut self, id: u32, p: PendingRequest)
        ensures
            final(self)@ == old(self)@.insert(id, StreamView::Http(Some(p@))),
    {
        self.streams.insert(id, StreamState::Http(Some(p)));
        assert(self@ =~= old(self)@.insert(id, StreamView::Http(Some(p@))));
    }

    /// Applies envelope `e` to the table and says what to do next.
    pub fn handle(&mut self, e: Envelope) -> (r: Action)
        ensures
            (final(self)@, r@) == step(old(self)@, e@),
    {
        let id = e.stream_id;
        let conn = e.connection_id;
        match e.payload {
            Payload::Http(h) => match h {
                HttpMessage::RequestInit { method, uri, headers, has_body } => {
                    if self.streams.contains_key(&id) {
                        Action::Nothing
                    } else if is_websocket_upgrade(&headers) {
                        let headers = websocket_forward_headers(&headers);
                        Action::DialWebSocket { connection_id: conn, stream_id: id, uri, headers }
                    } else {
                        let p = PendingRequest {
                            method,
                            uri,
                            headers,
                            body_chunks: Vec::new(),
                            has_body,
                        };
                        assert(p@.chunks =~= Seq::<Seq<u8>>::empty());
                        self.put_pending(id, p);
                        Action::Nothing
                    }
                },
                HttpMessage::RequestBodyChunk { data } => {
                    match self.streams.remove(&id) {
                        Some(StreamState::Http(Some(p))) => {
                            let ghost pv = p@;
                            let mut p = p;
                            let ghost dv = data@;
                            p.body_chunks.push(data);
                            assert(p@.chunks =~= pv.chunks.push(dv));
                            self.put_pending(id, p);
                            assert(self@ =~= old(self)@.insert(
                                id,
                                StreamView::Http(Some(PendingView { chunks: pv.chunks.push(dv), ..pv })),
                            ));
                        },
                        Some(other) => {
                            self.streams.insert(id, other);
                            assert(self@ =~= old(self)@);
                        },
                        None => {
                            assert(self@ =~= old(self)@);
                        },
                    }
                    Action::Nothing
                },
                HttpMessage::RequestEnd => {
                    match self.streams.remove(&id) {
                        Some(StreamState::Http(Some(p))) => {
                            self.streams.insert(id, StreamState::Http(None));
                            assert(self@ =~= old(self)@.insert(id, StreamView::Http(None)));
                            Action::Forward { connection_id: conn, stream_id: id, request: p }
                        },
                        Some(other) => {
                            self.streams.insert(id, other);
                            assert(self@ =~= old(self)@);
                            Action::Nothing
                        },
                        None => {
                            assert(self@ =~= old(self)@);
                            Action::Nothing
                        },
                    }
                },
                HttpMessage::RequestAbort { .. } => {
                    self.remove(id);
                    Action::Nothing
                },
                _ => Action::Unsupported,
            },
            Payload::Ws(w) => {
                match self.streams.get(&id) {
                    Some(StreamState::WebSocket(_)) => match to_local(&w) {
                        Some(m) => Action::ToLocal { stream_id: id, message: m },
                        None => Action::Nothing,
                    },
                    _ => Action::Nothing,
                }
            },
            Payload::Control(c) => match c {
                ControlMessage::Ping { data } => Action::Reply(control_pong(conn, data.as_slice())),
                ControlMessage::Pong { .. } => Action::Nothing,
                ControlMessage::Error { code, message } => Action::ControlError { code, message },
                ControlMessage::GoAway { reason } => Action::GoAway { reason },
                ControlMessage::FlowWindowUpdate => Action::Unsupported,
            },
        }
    }
}

} // verus!

//! The envelope: one binary message of the bearer, carrying routing metadata
//! and exactly one HTTP, WebSocket or control payload.

use vstd::prelude::*;

verus! {

/// One header: a UTF-8 name and a value of raw bytes.
#[derive(Debug, Clone, PartialEq, Eq)]
pub struct Header {
    pub name: String,
    pub value: Vec<u8>,
}

pub type HeaderView = (Seq<char>, Seq<u8>);

impl View for Header {
    type V = HeaderView;

    open spec fn view(&self) -> HeaderView {
        (self.name@, self.value@)
    }
}

pub open spec fn headers_view(hs: Seq<Header>) -> Seq<HeaderView> {
    hs.map_values(|h: Header| h@)
}

/// WebSocket opcodes, carried on the wire as their RFC 6455 numbers.
#[derive(Debug, Clone, Copy, PartialEq, Eq, Structural)]
pub enum WsOpcode {
    Continuation,
    Text,
    Binary,
    Close,
    Ping,
    Pong,
}

pub open spec fn opcode_number(op: WsOpcode) -> u8 {
    match op {
        WsOpcode::Continuation => 0,
        WsOpcode::Text => 1,
        WsOpcode::Binary => 2,
        WsOpcode::Close => 8,
        WsOpcode::Ping => 9,
        WsOpcode::Pong => 10,
    }
}

pub open spec fn opcode_from_number(n: u64) -> Option<WsOpcode> {
    if n == 0 {
        Some(WsOpcode::Continuation)
    } else if n == 1 {
        Some(WsOpcode::Text)
    } else if n == 2 {
        Some(WsOpcode::Binary)
    } else if n == 8 {
        Some(WsOpcode::Close)
    } else if n == 9 {
        Some(WsOpcode::Ping)
    } else if n == 10 {
        Some(WsOpcode::Pong)
    } else {
        None
    }
}

impl WsOpcode {
    /// The RFC 6455 number of this opcode.
    pub fn number(self) -> (r: u8)
        ensures
            r == opcode_number(self),
    {
        match self {
            WsOpcode::Continuation => 0,
            WsOpcode::Text => 1,
            WsOpcode::Binary => 2,
            WsOpcode::Close => 8,
            WsOpcode::Ping => 9,
            WsOpcode::Pong => 10,
        }
    }

    /// The opcode with RFC 6455 number `n`, if it is one of the six known.
    pub fn from_number(n: u64) -> (r: Option<WsOpcode>)
        ensures
            r == opcode_from_number(n),
    {
        if n == 0 {
            Some(WsOpcode::Continuation)
        } else if n == 1 {
            Some(WsOpcode::Text)
        } else if n == 2 {
            Some(WsOpcode::Binary)
        } else if n == 8 {
            Some(WsOpcode::Close)
        } else if n == 9 {
            Some(WsOpcode::Ping)
        } else if n == 10 {
            Some(WsOpcode::Pong)
        } else {
            None
        }
    }
}

/// The HTTP payloads.
#[derive(Debug, Clone, PartialEq, Eq)]
pub enum HttpMessage {
    RequestInit { method: String, uri: String, headers: Vec<Header>, has_body: bool },
    RequestBodyChunk { data: Vec<u8> },
    RequestEnd,
    RequestAbort { reason: u16 },
    ResponseInit { status: u16, headers: Vec<Header>, has_body: bool, content_length: u64 },
    ResponseBodyChunk { data: Vec<u8>, seq: u32, is_last: bool },
    ResponseEnd,
}

pub enum HttpView {
    RequestInit { method: Seq<char>, uri: Seq<char>, headers: Seq<HeaderView>, has_body: bool },
    RequestBodyChunk { data: Seq<u8> },
    RequestEnd,
    RequestAbort { reason: u16 },
    ResponseInit { status: u16, headers: Seq<HeaderView>, has_body: bool, content_length: u64 },
    ResponseBodyChunk { data: Seq<u8>, seq: u32, is_last: bool },
    ResponseEnd,
}

impl View for HttpMessage {
    type V = HttpView;

    open spec fn view(&self) -> HttpView {
        match self {
            HttpMessage::RequestInit { method, uri, headers, has_body } => HttpView::RequestInit {
                method: method@,
                uri: uri@,
                headers: headers_view(headers@),
                has_body: *has_body,
            },
            HttpMessage::RequestBodyChunk { data } => HttpView::RequestBodyChunk { data: data@ },
            HttpMessage::RequestEnd => HttpView::RequestEnd,
            HttpMessage::RequestAbort { reason } => HttpView::RequestAbort { reason: *reason },
            HttpMessage::ResponseInit { status, headers, has_body, content_length } =>
                HttpView::ResponseInit {
                status: *status,
                headers: headers_view(headers@),
                has_body: *has_body,
                content_length: *content_length,
            },
            HttpMessage::ResponseBodyChunk { data, seq, is_last } => HttpView::ResponseBodyChunk {
                data: data@,
                seq: *seq,
                is_last: *is_last,
            },
            HttpMessage::ResponseEnd => HttpView::ResponseEnd,
        }
    }
}

/// A WebSocket frame relayed through the tunnel.
#[derive(Debug, Clone, PartialEq, Eq)]
pub struct WsFrame {
    pub fin: bool,
    pub rsv1: bool,
    pub rsv2: bool,
    pub rsv3: bool,
    pub opcode: WsOpcode,
    pub masked: bool,
    pub mask_key: u32,
    pub payload: Vec<u8>,
    /// Only meaningful for `Close`.
    pub close_code: u16,
}

pub struct WsFrameView {
    pub fin: bool,
    pub rsv1: bool,
    pub rsv2: bool,
    pub rsv3: bool,
    pub opcode: WsOpcode,
    pub masked: bool,
    pub mask_key: u32,
    pub payload: Seq<u8>,
    pub close_code: u16,
}

impl View for WsFrame {
    type V = WsFrameView;

    open spec fn view(&self) -> WsFrameView {
        WsFrameView {
            fin: self.fin,
            rsv1: self.rsv1,
            rsv2: self.rsv2,
            rsv3: self.rsv3,
            opcode: self.opcode,
            masked: self.masked,
            mask_key: self.mask_key,
            payload: self.payload@,
            close_code: self.close_code,
        }
    }
}

/// The control payloads.
#[derive(Debug, Clone, PartialEq, Eq)]
pub enum ControlMessage {
    Ping { data: Vec<u8> },
    Pong { data: Vec<u8> },
    Error { code: u32, message: String },
    GoAway { reason: String },
    /// Reserved: decodable, never acted upon.
    FlowWindowUpdate,
}

pub enum ControlView {
    Ping { data: Seq<u8> },
    Pong { data: Seq<u8> },
    Error { code: u32, message: Seq<char> },
    GoAway { reason: Seq<char> },
    FlowWindowUpdate,
}

impl View for ControlMessage {
    type V = ControlView;

    open spec fn view(&self) -> ControlView {
        match self {
            ControlMessage::Ping { data } => ControlView::Ping { data: data@ },
            ControlMessage::Pong { data } => ControlView::Pong { data: data@ },
            ControlMessage::Error { code, message } => ControlView::Error {
                code: *code,
                message: message@,
            },
            ControlMessage::GoAway { reason } => ControlView::GoAway { reason: reason@ },
            ControlMessage::FlowWindowUpdate => ControlView::FlowWindowUpdate,
        }
    }
}

#[derive(Debug, Clone, PartialEq, Eq)]
pub enum Payload {
    Http(HttpMessage),
    Ws(WsFrame),
    Control(ControlMessage),
}

pub enum PayloadView {
    Http(HttpView),
    Ws(WsFrameView),
    Control(ControlView),
}

impl View for Payload {
    type V = PayloadView;

    open spec fn view(&self) -> PayloadView {
        match self {
            Payload::Http(h) => PayloadView::Http(h@),
            Payload::Ws(w) => PayloadView::Ws(w@),
            Payload::Control(c) => PayloadView::Control(c@),
        }
    }
}

/// The unit of the bearer.
#[derive(Debug, Clone, PartialEq, Eq)]
pub struct Envelope {
    /// Milliseconds since the Unix epoch, stamped when encoded.
    pub timestamp_ms: u64,
    pub connection_id: u64,
    pub stream_id: u32,
    pub msg_seq: u32,
    pub payload: Payload,
}

pub struct EnvelopeView {
    pub timestamp_ms: u64,
    pub connection_id: u64,
    pub stream_id: u32,
    pub msg_seq: u32,
    pub payload: PayloadView,
}

impl View for Envelope {
    type V = EnvelopeView;

    open spec fn view(&self) -> EnvelopeView {
        EnvelopeView {
            timestamp_ms: self.timestamp_ms,
            connection_id: self.connection_id,
            stream_id: self.stream_id,
            msg_seq: self.msg_seq,
            payload: self.payload@,
        }
    }
}

} // verus!

//! Outbound frames: the session's message-sequence counter, the builders of
//! response envelopes, and the three-frame response of a completed request.

use vstd::prelude::*;
use vstd::string::StringSliceAdditionalSpecFns;
use crate::envelope::{
    headers_view, ControlMessage, ControlView, Envelope, EnvelopeView, Header, HeaderView,
    HttpMessage, HttpView, Payload, PayloadView, WsFrame, WsFrameView, WsOpcode,
};
use crate::headers::clone_header;
use crate::message::{built_stamped, Message, MessageError};

verus! {

/// Strictly increasing: each value larger than every one before it.
pub open spec fn strictly_increasing(s: Seq<u32>) -> bool {
    forall|i: int, j: int| 0 <= i < j < s.len() ==> s[i] < s[j]
}

/// Hands out `msg_seq` values, each larger than every one before it.
pub struct SeqCounter {
    next: u64,
    issued: Ghost<Seq<u32>>,
}

impl SeqCounter {
    /// The value the next call of `take` returns (`2^32` once all are used).
    pub closed spec fn next_value(&self) -> nat {
        self.next as nat
    }

    /// Every value handed out so far, in order.
    pub closed spec fn issued(&self) -> Seq<u32> {
        self.issued@
    }

    #[verifier::type_invariant]
    closed spec fn wf(&self) -> bool {
        &&& self.next <= 0x1_0000_0000
        &&& strictly_increasing(self.issued@)
        &&& forall|i: int| 0 <= i < self.issued@.len() ==> self.issued@[i] < self.next
    }

    /// A counter whose first value is `1`.
    pub fn new() -> (r: SeqCounter)
        ensures
            r.next_value() == 1,
            r.issued() == Seq::<u32>::empty(),
    {
        SeqCounter { next: 1, issued: Ghost(Seq::empty()) }
    }

    /// How many values are left to hand out.
    pub fn available(&self) -> (r: u64)
        ensures
            r == 0x1_0000_0000 - self.next_value(),
            strictly_increasing(self.issued()),
            forall|i: int| 0 <= i < self.issued().len() ==> self.issued()[i] < self.next_value(),
    {
        proof {
            use_type_invariant(self);
        }
        0x1_0000_0000 - self.next
    }

    /// The next value, or `None` once every `u32` above the start is used.
    /// Every value handed out is larger than all those handed out before.
    pub fn take(&mut self) -> (r: Option<u32>)
        ensures
            strictly_increasing(final(self).issued()),
            old(self).next_value() <= u32::MAX ==> r == Some(old(self).next_value() as u32)
                && final(self).next_value() == old(self).next_value() + 1
                && final(self).issued() == old(self).issued().push(r.unwrap())
                && forall|i: int|
                0 <= i < old(self).issued().len() ==> old(self).issued()[i] < r.unwrap(),
            old(self).next_value() > u32::MAX ==> r is None && *final(self) == *old(self),
    {
        proof {
            use_type_invariant(&*self);
        }
        if self.next > 0xffff_ffff {
            return None;
        }
        let v = self.next as u32;
        *self = SeqCounter { next: self.next + 1, issued: Ghost(self.issued@.push(v)) };
        Some(v)
    }
}

/// An envelope of `payload` on the given routes, not yet stamped.
pub open spec fn routed(connection_id: u64, stream_id: u32, msg_seq: u32, payload: PayloadView) -> EnvelopeView {
    EnvelopeView { timestamp_ms: 0, connection_id, stream_id, msg_seq, payload }
}

pub open spec fn response_init_view(status: u16, headers: Seq<HeaderView>, has_body: bool) -> HttpView {
    HttpView::ResponseInit { status, headers, has_body, content_length: 0 }
}

/// The payloads of a response: its head, its body in one last chunk when it
/// has one, and its end.
pub open spec fn response_payloads(status: u16, headers: Seq<HeaderView>, body: Seq<u8>) -> Seq<HttpView> {
    if body.len() > 0 {
        seq![
            response_init_view(status, headers, true),
            HttpView::ResponseBodyChunk { data: body, seq: 0, is_last: true },
            HttpView::ResponseEnd,
        ]
    } else {
        seq![response_init_view(status, headers, false), HttpView::ResponseEnd]
    }
}

/// The body of the response to a request the local server could not answer.
pub open spec fn bad_gateway_body(cause: Seq<char>) -> Seq<u8> {
    "Bad Gateway: ".spec_bytes() + vstd::utf8::encode_utf8(cause)
}

fn clone_headers(hs: &Vec<Header>) -> (r: Vec<Header>)
    ensures
        headers_view(r@) == headers_view(hs@),
{
    let mut out: Vec<Header> = Vec::new();
    let mut i: usize = 0;
    while i < hs.len()
        invariant
            i <= hs@.len(),
            headers_view(out@) == headers_view(hs@).take(i as int),
        decreases hs@.len() - i,
    {
        let ghost before = out@;
        let h = clone_header(&hs[i]);
        out.push(h);
        assert(headers_view(out@) =~= headers_view(before).push(h@));
        assert(headers_view(hs@).take(i + 1) =~= headers_view(hs@).take(i as int).push(hs@[i as int]@));
        i = i + 1;
    }
    assert(headers_view(hs@).take(hs@.len() as int) =~= headers_view(hs@));
    out
}

pub fn response_init(
    connection_id: u64,
    stream_id: u32,
    msg_seq: u32,
    status: u16,
    headers: &Vec<Header>,
    has_body: bool,
) -> (r: Envelope)
    ensures
        r@ == routed(
            connection_id,
            stream_id,
            msg_seq,
            PayloadView::Http(response_init_view(status, headers_view(headers@), has_body)),
        ),
{
    let headers = clone_headers(headers);
    Envelope {
        timestamp_ms: 0,
        connection_id,
        stream_id,
        msg_seq,
        payload: Payload::Http(
            HttpMessage::ResponseInit { status, headers, has_body, content_length: 0 },
        ),
    }
}

pub fn response_body_chunk(
    connection_id: u64,
    stream_id: u32,
    msg_seq: u32,
    data: &[u8],
    seq: u32,
    is_last: bool,
) -> (r: Envelope)
    ensures
        r@ == routed(
            connection_id,
            stream_id,
            msg_seq,
            PayloadView::Http(HttpView::ResponseBodyChunk { data: data@, seq, is_last }),
        ),
{
    let data = vstd::slice::slice_to_vec(data);
    Envelope {
        timestamp_ms: 0,
        connection_id,
        stream_id,
        msg_seq,
        payload: Payload::Http(HttpMessage::ResponseBodyChunk { data, seq, is_last }),
    }
}

pub fn response_end(connection_id: u64, stream_id: u32, msg_seq: u32) -> (r: Envelope)
    ensures
        r@ == routed(connection_id, stream_id, msg_seq, PayloadView::Http(HttpView::ResponseEnd)),
{
    Envelope {
        timestamp_ms: 0,
        connection_id,
        stream_id,
        msg_seq,
        payload: Payload::Http(HttpMessage::ResponseEnd),
    }
}

/// The answer to a control ping: a pong with the same data on stream `0`,
/// `msg_seq` `0`.
pub fn control_pong(connection_id: u64, data: &[u8]) -> (r: Envelope)
    ensures
        r@ == routed(connection_id, 0, 0, PayloadView::Control(ControlView::Pong { data: data@ })),
{
    let data = vstd::slice::slice_to_vec(data);
    Envelope {
        timestamp_ms: 0,
        connection_id,
        stream_id: 0,
        msg_seq: 0,
        payload: Payload::Control(ControlMessage::Pong { data }),
    }
}

pub open spec fn ws_frame_view(opcode: WsOpcode, payload: Seq<u8>, close_code: u16) -> WsFrameView {
    WsFrameView {
        fin: true,
        rsv1: false,
        rsv2: false,
        rsv3: false,
        opcode,
        masked: false,
        mask_key: 0,
        payload,
        close_code,
    }
}

/// A final, unmasked WebSocket frame with no reserved bit set; the close code
/// is `0` unless one is given.
pub fn ws_frame(
    connection_id: u64,
    stream_id: u32,
    msg_seq: u32,
    opcode: WsOpcode,
    payload: &[u8],
    close_code: Option<u16>,
) -> (r: Envelope)
    ensures
        r@ == routed(
            connection_id,
            stream_id,
            msg_seq,
            PayloadView::Ws(
                ws_frame_view(
                    opcode,
                    payload@,
                    match close_code {
                        Some(c) => c,
                        None => 0,
                    },
                ),
            ),
        ),
{
    let code = match close_code {
        Some(c) => c,
        None => 0,
    };
    Envelope {
        timestamp_ms: 0,
        connection_id,
        stream_id,
        msg_seq,
        payload: Payload::Ws(
            WsFrame {
                fin: true,
                rsv1: false,
                rsv2: false,
                rsv3: false,
                opcode,
                masked: false,
                mask_key: 0,
                payload: vstd::slice::slice_to_vec(payload),
                close_code: code,
            },
        ),
    }
}

/// Packs a response head, stamped with the current time.
pub fn encode_response_init(
    connection_id: u64,
    stream_id: u32,
    msg_seq: u32,
    status: u16,
    headers: &Vec<Header>,
    has_body: bool,
) -> (r: Result<Message, MessageError>)
    ensures
        built_stamped(
            &r,
            routed(
                connection_id,
                stream_id,
                msg_seq,
                PayloadView::Http(response_init_view(status, headers_view(headers@), has_body)),
            ),
        ),
{
    Message::build_stamped(response_init(connection_id, stream_id, msg_seq, status, headers, has_body))
}

/// Packs a response body chunk, stamped with the current time.
pub fn encode_response_body_chunk(
    connection_id: u64,
    stream_id: u32,
    msg_seq: u32,
    data: &[u8],
    seq: u32,
    is_last: bool,
) -> (r: Result<Message, MessageError>)
    ensures
        built_stamped(
            &r,
            routed(
                connection_id,
                stream_id,
                msg_seq,
                PayloadView::Http(HttpView::ResponseBodyChunk { data: data@, seq, is_last }),
            ),
        ),
{
    Message::build_stamped(response_body_chunk(connection_id, stream_id, msg_seq, data, seq, is_last))
}

/// Packs a response end, stamped with the current time.
pub fn encode_response_end(connection_id: u64, stream_id: u32, msg_seq: u32) -> (r: Result<
    Message,
    MessageError,
>)
    ensures
        built_stamped(
            &r,
            routed(connection_id, stream_id, msg_seq, PayloadView::Http(HttpView::ResponseEnd)),
        ),
{
    Message::build_stamped(response_end(connection_id, stream_id, msg_seq))
}

/// Packs a control pong, stamped with the current time.
pub fn encode_control_pong(connection_id: u64, data: &[u8]) -> (r: Result<Message, MessageError>)
    ensures
        built_stamped(
            &r,
            routed(connection_id, 0, 0, PayloadView::Control(ControlView::Pong { data: data@ })),
        ),
{
    Message::build_stamped(control_pong(connection_id, data))
}

/// Packs a WebSocket frame, stamped with the current time.
pub fn encode_ws_frame(
    connection_id: u64,
    stream_id: u32,
    msg_seq: u32,
    opcode: WsOpcode,
    payload: &[u8],
    close_code: Option<u16>,
) -> (r: Result<Message, MessageError>)
    ensures
        built_stamped(
            &r,
            routed(
                connection_id,
                stream_id,
                msg_seq,
                PayloadView::Ws(
                    ws_frame_view(
                        opcode,
                        payload@,
                        match close_code {
                            Some(c) => c,
                            None => 0,
                        },
                    ),
                ),
            ),
        ),
{
    Message::build_stamped(ws_frame(connection_id, stream_id, msg_seq, opcode, payload, close_code))
}

/// The `k`-th frame of a response, numbered from `first`.
pub open spec fn response_frame(
    connection_id: u64,
    stream_id: u32,
    first: nat,
    ps: Seq<HttpView>,
    k: int,
) -> EnvelopeView {
    routed(connection_id, stream_id, (first + k) as u32, PayloadView::Http(ps[k]))
}

/// The frames of one response on `stream_id`, numbered with consecutive
/// `msg_seq` values from `seqs`: the head, the whole body as one last chunk
/// when it is not empty, and the end. `None`, with `seqs` untouched, when the
/// counter has too few values left.
pub fn response_frames(
    connection_id: u64,
    stream_id: u32,
    seqs: &mut SeqCounter,
    status: u16,
    headers: &Vec<Header>,
    body: &[u8],
) -> (r: Option<Vec<Envelope>>)
    ensures
        strictly_increasing(final(seqs).issued()),
        ({
            let ps = response_payloads(status, headers_view(headers@), body@);
            let first = old(seqs).next_value();
            if first + ps.len() <= 0x1_0000_0000 {
                &&& r is Some
                &&& r.unwrap()@.len() == ps.len()
                &&& forall|k: int|
                    0 <= k < ps.len() ==> (#[trigger] r.unwrap()@[k])@ == response_frame(
                        connection_id,
                        stream_id,
                        first,
                        ps,
                        k,
                    )
                &&& final(seqs).next_value() == first + ps.len()
                &&& final(seqs).issued() == old(seqs).issued() + Seq::new(
                    ps.len(),
                    |k: int| (first + k) as u32,
                )
            } else {
                r is None && *final(seqs) == *old(seqs)
            }
        }),
{
    let ghost ps = response_payloads(status, headers_view(headers@), body@);
    let ghost first = seqs.next_value();
    let ghost start = seqs.issued();
    let has_body = body.len() > 0;
    let n: u64 = if has_body {
        3
    } else {
        2
    };
    if seqs.available() < n {
        return None;
    }
    let mut out: Vec<Envelope> = Vec::new();
    let s0 = match seqs.take() {
        Some(s) => s,
        None => return None,
    };
    out.push(response_init(connection_id, stream_id, s0, status, headers, has_body));
    if has_body {
        let s1 = match seqs.take() {
            Some(s) => s,
            None => return None,
        };
        out.push(response_body_chunk(connection_id, stream_id, s1, body, 0, true));
    }
    let s2 = match seqs.take() {
        Some(s) => s,
        None => return None,
    };
    out.push(response_end(connection_id, stream_id, s2));
    assert(seqs.issued() =~= start + Seq::new(ps.len(), |k: int| (first + k) as u32));
    Some(out)
}

/// The three frames answering a request that could not be forwarded: status
/// `502`, no headers, and the body `Bad Gateway: <cause>`.
pub fn bad_gateway_frames(
    connection_id: u64,
    stream_id: u32,
    seqs: &mut SeqCounter,
    cause: &str,
) -> (r: Option<Vec<Envelope>>)
    ensures
        strictly_increasing(final(seqs).issued()),
        ({
            let ps = response_payloads(502, Seq::empty(), bad_gateway_body(cause@));
            let first = old(seqs).next_value();
            if first + 3 <= 0x1_0000_0000 {
                &&& r is Some
                &&& r.unwrap()@.len() == 3
                &&& forall|k: int|
                    0 <= k < 3 ==> (#[trigger] r.unwrap()@[k])@ == response_frame(
                        connection_id,
                        stream_id,
                        first,
                        ps,
                        k,
                    )
                &&& final(seqs).next_value() == first + 3
                &&& final(seqs).issued() == old(seqs).issued() + Seq::new(3, |k: int| (first + k) as u32)
            } else {
                r is None && *final(seqs) == *old(seqs)
            }
        }),
{
    let mut body: Vec<u8> = vstd::slice::slice_to_vec("Bad Gateway: ".as_bytes());
    body.extend_from_slice(cause.as_bytes());
    assert(body@ == bad_gateway_body(cause@));
    proof {
        reveal_strlit("Bad Gateway: ");
    }
    assert(body@.len() > 0);
    let headers: Vec<Header> = Vec::new();
    assert(headers_view(headers@) =~= Seq::<HeaderView>::empty());
    response_frames(connection_id, stream_id, seqs, 502, &headers, body.as_slice())
}

/// Every response is its head, then at most one body chunk (the last one, with
/// the whole body), then its end; a body chunk comes exactly when the body is
/// not empty, and the head says so.
pub proof fn lemma_response_shape(status: u16, headers: Seq<HeaderView>, body: Seq<u8>)
    ensures
        ({
            let ps = response_payloads(status, headers, body);
            &&& ps.len() == 2 || ps.len() == 3
            &&& ps[0] == response_init_view(status, headers, body.len() > 0)
            &&& ps[ps.len() - 1] == HttpView::ResponseEnd
            &&& ps.len() == 3 <==> body.len() > 0
            &&& ps.len() == 3 ==> ps[1] == HttpView::ResponseBodyChunk { data: body, seq: 0, is_last: true }
        }),
{
}

} // verus!

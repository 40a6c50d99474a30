//! The layout of an envelope as bytes: what `encode_envelope` writes, what
//! `decode_envelope` accepts, and the proof that one undoes the other.

use vstd::prelude::*;
use vstd::utf8::*;
use crate::envelope::{
    headers_view, opcode_from_number, opcode_number, ControlMessage, ControlView, Envelope,
    EnvelopeView, Header, HeaderView, HttpMessage, HttpView, Payload, PayloadView, WsFrame,
    WsFrameView, WsOpcode,
};
use crate::wire::{
    lemma_bool_round_trip, lemma_bytes_round_trip, lemma_pow256_facts, lemma_text_round_trip,
    lemma_uint_round_trip, pow256, bool_bytes, bytes_field, le_bytes, parse_bool, parse_bytes, parse_text, parse_uint, put_bool,
    put_bytes, put_text, put_uint, read_bool, read_bytes, read_text, read_uint, text_field,
};

verus! {

// ---------------------------------------------------------------------------
// Layout
// ---------------------------------------------------------------------------

pub open spec fn header_items(hs: Seq<HeaderView>) -> Seq<u8>
    decreases hs.len(),
{
    if hs.len() == 0 {
        seq![]
    } else {
        text_field(hs[0].0) + bytes_field(hs[0].1) + header_items(hs.drop_first())
    }
}

/// A header list is its count in four bytes, then each name and value.
pub open spec fn headers_field(hs: Seq<HeaderView>) -> Seq<u8> {
    le_bytes(hs.len(), 4) + header_items(hs)
}

pub open spec fn http_bytes(h: HttpView) -> Seq<u8> {
    match h {
        HttpView::RequestInit { method, uri, headers, has_body } => seq![0u8] + text_field(method)
            + text_field(uri) + headers_field(headers) + bool_bytes(has_body),
        HttpView::RequestBodyChunk { data } => seq![1u8] + bytes_field(data),
        HttpView::RequestEnd => seq![2u8],
        HttpView::RequestAbort { reason } => seq![3u8] + le_bytes(reason as nat, 2),
        HttpView::ResponseInit { status, headers, has_body, content_length } => seq![4u8]
            + le_bytes(status as nat, 2) + headers_field(headers) + bool_bytes(has_body)
            + le_bytes(content_length as nat, 8),
        HttpView::ResponseBodyChunk { data, seq, is_last } => seq![5u8] + bytes_field(data)
            + le_bytes(seq as nat, 4) + bool_bytes(is_last),
        HttpView::ResponseEnd => seq![6u8],
    }
}

pub open spec fn ws_bytes(w: WsFrameView) -> Seq<u8> {
    bool_bytes(w.fin) + bool_bytes(w.rsv1) + bool_bytes(w.rsv2) + bool_bytes(w.rsv3) + seq![
        opcode_number(w.opcode),
    ] + bool_bytes(w.masked) + le_bytes(w.mask_key as nat, 4) + bytes_field(w.payload)
        + le_bytes(w.close_code as nat, 2)
}

pub open spec fn control_bytes(c: ControlView) -> Seq<u8> {
    match c {
        ControlView::Ping { data } => seq![0u8] + bytes_field(data),
        ControlView::Pong { data } => seq![1u8] + bytes_field(data),
        ControlView::Error { code, message } => seq![2u8] + le_bytes(code as nat, 4) + text_field(
            message,
        ),
        ControlView::GoAway { reason } => seq![3u8] + text_field(reason),
        ControlView::FlowWindowUpdate => seq![4u8],
    }
}

pub open spec fn payload_bytes(p: PayloadView) -> Seq<u8> {
    match p {
        PayloadView::Http(h) => seq![0u8] + http_bytes(h),
        PayloadView::Ws(w) => seq![1u8] + ws_bytes(w),
        PayloadView::Control(c) => seq![2u8] + control_bytes(c),
    }
}

/// The layout of an envelope: the four routing fields, then the payload.
pub open spec fn envelope_bytes(e: EnvelopeView) -> Seq<u8> {
    le_bytes(e.timestamp_ms as nat, 8) + le_bytes(e.connection_id as nat, 8) + le_bytes(
        e.stream_id as nat,
        4,
    ) + le_bytes(e.msg_seq as nat, 4) + payload_bytes(e.payload)
}

// ---------------------------------------------------------------------------
// Encoding
// ---------------------------------------------------------------------------

fn put_headers(out: &mut Vec<u8>, hs: &Vec<Header>)
    ensures
        final(out)@ == old(out)@ + headers_field(headers_view(hs@)),
{
    let ghost start = out@;
    let ghost hv = headers_view(hs@);
    put_uint(out, hs.len() as u64, 4);
    let ghost mid = out@;
    assert(hv.skip(0) =~= hv);
    let mut i: usize = 0;
    while i < hs.len()
        invariant
            i <= hs@.len(),
            hv == headers_view(hs@),
            mid == start + le_bytes(hs@.len() as nat, 4),
            out@ + header_items(hv.skip(i as int)) == mid + header_items(hv),
        decreases hs@.len() - i,
    {
        let ghost prev = out@;
        put_text(out, hs[i].name.as_str());
        put_bytes(out, hs[i].value.as_slice());
        assert(hv.skip(i as int).drop_first() =~= hv.skip(i + 1));
        assert(hv.skip(i as int)[0] == hs@[i as int]@);
        assert(out@ + header_items(hv.skip(i + 1)) =~= prev + header_items(hv.skip(i as int)));
        i = i + 1;
    }
    assert(hv.skip(i as int) =~= Seq::<HeaderView>::empty());
    assert(out@ =~= start + headers_field(hv));
}

fn put_http(out: &mut Vec<u8>, h: &HttpMessage)
    ensures
        final(out)@ == old(out)@ + http_bytes(h@),
{
    let ghost start = out@;
    match h {
        HttpMessage::RequestInit { method, uri, headers, has_body } => {
            out.push(0u8);
            put_text(out, method.as_str());
            put_text(out, uri.as_str());
            put_headers(out, headers);
            put_bool(out, *has_body);
        },
        HttpMessage::RequestBodyChunk { data } => {
            out.push(1u8);
            put_bytes(out, data.as_slice());
        },
        HttpMessage::RequestEnd => {
            out.push(2u8);
        },
        HttpMessage::RequestAbort { reason } => {
            out.push(3u8);
            put_uint(out, *reason as u64, 2);
        },
        HttpMessage::ResponseInit { status, headers, has_body, content_length } => {
            out.push(4u8);
            put_uint(out, *status as u64, 2);
            put_headers(out, headers);
            put_bool(out, *has_body);
            put_uint(out, *content_length, 8);
        },
        HttpMessage::ResponseBodyChunk { data, seq, is_last } => {
            out.push(5u8);
            put_bytes(out, data.as_slice());
            put_uint(out, *seq as u64, 4);
            put_bool(out, *is_last);
        },
        HttpMessage::ResponseEnd => {
            out.push(6u8);
        },
    }
    assert(out@ =~= start + http_bytes(h@));
}

fn put_ws(out: &mut Vec<u8>, w: &WsFrame)
    ensures
        final(out)@ == old(out)@ + ws_bytes(w@),
{
    let ghost start = out@;
    put_bool(out, w.fin);
    put_bool(out, w.rsv1);
    put_bool(out, w.rsv2);
    put_bool(out, w.rsv3);
    out.push(w.opcode.number());
    put_bool(out, w.masked);
    put_uint(out, w.mask_key as u64, 4);
    put_bytes(out, w.payload.as_slice());
    put_uint(out, w.close_code as u64, 2);
    assert(out@ =~= start + ws_bytes(w@));
}

fn put_control(out: &mut Vec<u8>, c: &ControlMessage)
    ensures
        final(out)@ == old(out)@ + control_bytes(c@),
{
    let ghost start = out@;
    match c {
        ControlMessage::Ping { data } => {
            out.push(0u8);
            put_bytes(out, data.as_slice());
        },
        ControlMessage::Pong { data } => {
            out.push(1u8);
            put_bytes(out, data.as_slice());
        },
        ControlMessage::Error { code, message } => {
            out.push(2u8);
            put_uint(out, *code as u64, 4);
            put_text(out, message.as_str());
        },
        ControlMessage::GoAway { reason } => {
            out.push(3u8);
            put_text(out, reason.as_str());
        },
        ControlMessage::FlowWindowUpdate => {
            out.push(4u8);
        },
    }
    assert(out@ =~= start + control_bytes(c@));
}

/// Lays an envelope out as bytes.
pub fn encode_envelope(e: &Envelope) -> (r: Vec<u8>)
    ensures
        r@ == envelope_bytes(e@),
{
    let mut out: Vec<u8> = Vec::new();
    put_uint(&mut out, e.timestamp_ms, 8);
    put_uint(&mut out, e.connection_id, 8);
    put_uint(&mut out, e.stream_id as u64, 4);
    put_uint(&mut out, e.msg_seq as u64, 4);
    let ghost mid = out@;
    match &e.payload {
        Payload::Http(h) => {
            out.push(0u8);
            put_http(&mut out, h);
        },
        Payload::Ws(w) => {
            out.push(1u8);
            put_ws(&mut out, w);
        },
        Payload::Control(c) => {
            out.push(2u8);
            put_control(&mut out, c);
        },
    }
    assert(out@ =~= mid + payload_bytes(e.payload@));
    assert(out@ =~= envelope_bytes(e@));
    out
}

// ---------------------------------------------------------------------------
// Parsing
// ---------------------------------------------------------------------------

pub open spec fn parse_header_items(s: Seq<u8>, n: nat) -> Option<(Seq<HeaderView>, Seq<u8>)>
    decreases n,
{
    if n == 0 {
        Some((seq![], s))
    } else {
        match parse_text(s) {
            Some((name, r1)) => match parse_bytes(r1) {
                Some((value, r2)) => match parse_header_items(r2, (n - 1) as nat) {
                    Some((hs, r3)) => Some((seq![(name, value)] + hs, r3)),
                    None => None,
                },
                None => None,
            },
            None => None,
        }
    }
}

pub open spec fn parse_headers(s: Seq<u8>) -> Option<(Seq<HeaderView>, Seq<u8>)> {
    match parse_uint(s, 4) {
        Some((n, r)) => parse_header_items(r, n),
        None => None,
    }
}

pub open spec fn parse_http(s: Seq<u8>) -> Option<(HttpView, Seq<u8>)> {
    if s.len() == 0 {
        None
    } else {
        let tag = s[0];
        let r = s.skip(1);
        if tag == 0 {
            match parse_text(r) {
                Some((method, r1)) => match parse_text(r1) {
                    Some((uri, r2)) => match parse_headers(r2) {
                        Some((headers, r3)) => match parse_bool(r3) {
                            Some((has_body, r4)) => Some(
                                (HttpView::RequestInit { method, uri, headers, has_body }, r4),
                            ),
                            None => None,
                        },
                        None => None,
                    },
                    None => None,
                },
                None => None,
            }
        } else if tag == 1 {
            match parse_bytes(r) {
                Some((data, r1)) => Some((HttpView::RequestBodyChunk { data }, r1)),
                None => None,
            }
        } else if tag == 2 {
            Some((HttpView::RequestEnd, r))
        } else if tag == 3 {
            match parse_uint(r, 2) {
                Some((v, r1)) => Some((HttpView::RequestAbort { reason: v as u16 }, r1)),
                None => None,
            }
        } else if tag == 4 {
            match parse_uint(r, 2) {
                Some((status, r1)) => match parse_headers(r1) {
                    Some((headers, r2)) => match parse_bool(r2) {
                        Some((has_body, r3)) => match parse_uint(r3, 8) {
                            Some((len, r4)) => Some(
                                (
                                    HttpView::ResponseInit {
                                        status: status as u16,
                                        headers,
                                        has_body,
                                        content_length: len as u64,
                                    },
                                    r4,
                                ),
                            ),
                            None => None,
                        },
                        None => None,
                    },
                    None => None,
                },
                None => None,
            }
        } else if tag == 5 {
            match parse_bytes(r) {
                Some((data, r1)) => match parse_uint(r1, 4) {
                    Some((seq, r2)) => match parse_bool(r2) {
                        Some((is_last, r3)) => Some(
                            (HttpView::ResponseBodyChunk { data, seq: seq as u32, is_last }, r3),
                        ),
                        None => None,
                    },
                    None => None,
                },
                None => None,
            }
        } else if tag == 6 {
            Some((HttpView::ResponseEnd, r))
        } else {
            None
        }
    }
}

pub open spec fn parse_opcode(s: Seq<u8>) -> Option<(WsOpcode, Seq<u8>)> {
    if s.len() >= 1 && opcode_from_number(s[0] as u64) is Some {
        Some((opcode_from_number(s[0] as u64).unwrap(), s.skip(1)))
    } else {
        None
    }
}

pub open spec fn parse_ws(s: Seq<u8>) -> Option<(WsFrameView, Seq<u8>)> {
    match parse_bool(s) {
        Some((fin, r1)) => match parse_bool(r1) {
            Some((rsv1, r2)) => match parse_bool(r2) {
                Some((rsv2, r3)) => match parse_bool(r3) {
                    Some((rsv3, r4)) => match parse_opcode(r4) {
                        Some((opcode, r5)) => match parse_bool(r5) {
                            Some((masked, r6)) => match parse_uint(r6, 4) {
                                Some((mask_key, r7)) => match parse_bytes(r7) {
                                    Some((payload, r8)) => match parse_uint(r8, 2) {
                                        Some((close_code, r9)) => Some(
                                            (
                                                WsFrameView {
                                                    fin,
                                                    rsv1,
                                                    rsv2,
                                                    rsv3,
                                                    opcode,
                                                    masked,
                                                    mask_key: mask_key as u32,
                                                    payload,
                                                    close_code: close_code as u16,
                                                },
                                                r9,
                                            ),
                                        ),
                                        None => None,
                                    },
                                    None => None,
                                },
                                None => None,
                            },
                            None => None,
                        },
                        None => None,
                    },
                    None => None,
                },
                None => None,
            },
            None => None,
        },
        None => None,
    }
}

pub open spec fn parse_control(s: Seq<u8>) -> Option<(ControlView, Seq<u8>)> {
    if s.len() == 0 {
        None
    } else {
        let tag = s[0];
        let r = s.skip(1);
        if tag == 0 {
            match parse_bytes(r) {
                Some((data, r1)) => Some((ControlView::Ping { data }, r1)),
                None => None,
            }
        } else if tag == 1 {
            match parse_bytes(r) {
                Some((data, r1)) => Some((ControlView::Pong { data }, r1)),
                None => None,
            }
        } else if tag == 2 {
            match parse_uint(r, 4) {
                Some((code, r1)) => match parse_text(r1) {
                    Some((message, r2)) => Some(
                        (ControlView::Error { code: code as u32, message }, r2),
                    ),
                    None => None,
                },
                None => None,
            }
        } else if tag == 3 {
            match parse_text(r) {
                Some((reason, r1)) => Some((ControlView::GoAway { reason }, r1)),
                None => None,
            }
        } else if tag == 4 {
            Some((ControlView::FlowWindowUpdate, r))
        } else {
            None
        }
    }
}

pub open spec fn parse_payload(s: Seq<u8>) -> Option<(PayloadView, Seq<u8>)> {
    if s.len() == 0 {
        None
    } else if s[0] == 0 {
        match parse_http(s.skip(1)) {
            Some((h, r)) => Some((PayloadView::Http(h), r)),
            None => None,
        }
    } else if s[0] == 1 {
        match parse_ws(s.skip(1)) {
            Some((w, r)) => Some((PayloadView::Ws(w), r)),
            None => None,
        }
    } else if s[0] == 2 {
        match parse_control(s.skip(1)) {
            Some((c, r)) => Some((PayloadView::Control(c), r)),
            None => None,
        }
    } else {
        None
    }
}

pub open spec fn parse_envelope(s: Seq<u8>) -> Option<(EnvelopeView, Seq<u8>)> {
    match parse_uint(s, 8) {
        Some((ts, r1)) => match parse_uint(r1, 8) {
            Some((cid, r2)) => match parse_uint(r2, 4) {
                Some((sid, r3)) => match parse_uint(r3, 4) {
                    Some((seq, r4)) => match parse_payload(r4) {
                        Some((payload, r5)) => Some(
                            (
                                EnvelopeView {
                                    timestamp_ms: ts as u64,
                                    connection_id: cid as u64,
                                    stream_id: sid as u32,
                                    msg_seq: seq as u32,
                                    payload,
                                },
                                r5,
                            ),
                        ),
                        None => None,
                    },
                    None => None,
                },
                None => None,
            },
            None => None,
        },
        None => None,
    }
}

/// The envelope that `s` lays out exactly, with no byte left over.
pub open spec fn envelope_of(s: Seq<u8>) -> Option<EnvelopeView> {
    match parse_envelope(s) {
        Some((e, rest)) => if rest.len() == 0 {
            Some(e)
        } else {
            None
        },
        None => None,
    }
}

// ---------------------------------------------------------------------------
// Decoding
// ---------------------------------------------------------------------------

fn read_headers(buf: &[u8], pos: usize) -> (r: Option<(Vec<Header>, usize)>)
    requires
        pos <= buf@.len(),
    ensures
        match parse_headers(buf@.skip(pos as int)) {
            Some((v, rest)) => r is Some && headers_view(r.unwrap().0@) == v && r.unwrap().1
                <= buf@.len() && buf@.skip(r.unwrap().1 as int) == rest,
            None => r is None,
        },
{
    let (n, at0) = match read_uint(buf, pos, 4) {
        Some(x) => x,
        None => return None,
    };
    let ghost total = parse_header_items(buf@.skip(at0 as int), n as nat);
    let mut hs: Vec<Header> = Vec::new();
    let mut p = at0;
    let mut i: u64 = 0;
    proof {
        match total {
            Some((all, r)) => {
                assert(headers_view(hs@) + all =~= all);
            },
            None => {},
        }
    }
    while i < n
        invariant
            i <= n,
            p <= buf@.len(),
            total == parse_header_items(buf@.skip(at0 as int), n as nat),
            parse_headers(buf@.skip(pos as int)) == total,
            total == match parse_header_items(buf@.skip(p as int), (n - i) as nat) {
                Some((rest_hs, r)) => Some((headers_view(hs@) + rest_hs, r)),
                None => None::<(Seq<HeaderView>, Seq<u8>)>,
            },
        decreases n - i,
    {
        let ghost s = buf@.skip(p as int);
        let (name, at1) = match read_text(buf, p) {
            Some(x) => x,
            None => {
                assert(parse_header_items(s, (n - i) as nat) is None);
                return None;
            },
        };
        let (value, at2) = match read_bytes(buf, at1) {
            Some(x) => x,
            None => {
                assert(parse_header_items(s, (n - i) as nat) is None);
                return None;
            },
        };
        let ghost old_hs = hs@;
        let h = Header { name, value };
        hs.push(h);
        assert(headers_view(hs@) =~= headers_view(old_hs) + seq![(h.name@, h.value@)]);
        proof {
            match parse_header_items(buf@.skip(at2 as int), (n - i - 1) as nat) {
                Some((rest_hs, r)) => {
                    assert(headers_view(old_hs) + (seq![(h.name@, h.value@)] + rest_hs)
                        =~= headers_view(hs@) + rest_hs);
                },
                None => {},
            }
        }
        p = at2;
        i = i + 1;
    }
    assert(headers_view(hs@) + Seq::<HeaderView>::empty() =~= headers_view(hs@));
    Some((hs, p))
}

fn read_http(buf: &[u8], pos: usize) -> (r: Option<(HttpMessage, usize)>)
    requires
        pos <= buf@.len(),
    ensures
        match parse_http(buf@.skip(pos as int)) {
            Some((v, rest)) => r is Some && r.unwrap().0@ == v && r.unwrap().1 <= buf@.len()
                && buf@.skip(r.unwrap().1 as int) == rest,
            None => r is None,
        },
{
    if pos >= buf.len() {
        return None;
    }
    let tag = buf[pos];
    let p = pos + 1;
    assert(buf@.skip(pos as int).skip(1) =~= buf@.skip(p as int));
    if tag == 0 {
        let (method, at1) = match read_text(buf, p) {
            Some(x) => x,
            None => return None,
        };
        let (uri, at2) = match read_text(buf, at1) {
            Some(x) => x,
            None => return None,
        };
        let (headers, at3) = match read_headers(buf, at2) {
            Some(x) => x,
            None => return None,
        };
        let (has_body, at4) = match read_bool(buf, at3) {
            Some(x) => x,
            None => return None,
        };
        Some((HttpMessage::RequestInit { method, uri, headers, has_body }, at4))
    } else if tag == 1 {
        let (data, at1) = match read_bytes(buf, p) {
            Some(x) => x,
            None => return None,
        };
        Some((HttpMessage::RequestBodyChunk { data }, at1))
    } else if tag == 2 {
        Some((HttpMessage::RequestEnd, p))
    } else if tag == 3 {
        let (v, at1) = match read_uint(buf, p, 2) {
            Some(x) => x,
            None => return None,
        };
        Some((HttpMessage::RequestAbort { reason: v as u16 }, at1))
    } else if tag == 4 {
        let (status, at1) = match read_uint(buf, p, 2) {
            Some(x) => x,
            None => return None,
        };
        let (headers, at2) = match read_headers(buf, at1) {
            Some(x) => x,
            None => return None,
        };
        let (has_body, at3) = match read_bool(buf, at2) {
            Some(x) => x,
            None => return None,
        };
        let (len, at4) = match read_uint(buf, at3, 8) {
            Some(x) => x,
            None => return None,
        };
        Some(
            (
                HttpMessage::ResponseInit {
                    status: status as u16,
                    headers,
                    has_body,
                    content_length: len,
                },
                at4,
            ),
        )
    } else if tag == 5 {
        let (data, at1) = match read_bytes(buf, p) {
            Some(x) => x,
            None => return None,
        };
        let (seq, at2) = match read_uint(buf, at1, 4) {
            Some(x) => x,
            None => return None,
        };
        let (is_last, at3) = match read_bool(buf, at2) {
            Some(x) => x,
            None => return None,
        };
        Some((HttpMessage::ResponseBodyChunk { data, seq: seq as u32, is_last }, at3))
    } else if tag == 6 {
        Some((HttpMessage::ResponseEnd, p))
    } else {
        None
    }
}

fn read_opcode(buf: &[u8], pos: usize) -> (r: Option<(WsOpcode, usize)>)
    requires
        pos <= buf@.len(),
    ensures
        match parse_opcode(buf@.skip(pos as int)) {
            Some((v, rest)) => r is Some && r.unwrap().0 == v && r.unwrap().1 <= buf@.len()
                && buf@.skip(r.unwrap().1 as int) == rest,
            None => r is None,
        },
{
    if pos >= buf.len() {
        return None;
    }
    assert(buf@.skip(pos as int).skip(1) =~= buf@.skip(pos + 1));
    match WsOpcode::from_number(buf[pos] as u64) {
        Some(op) => Some((op, pos + 1)),
        None => None,
    }
}

fn read_ws(buf: &[u8], pos: usize) -> (r: Option<(WsFrame, usize)>)
    requires
        pos <= buf@.len(),
    ensures
        match parse_ws(buf@.skip(pos as int)) {
            Some((v, rest)) => r is Some && r.unwrap().0@ == v && r.unwrap().1 <= buf@.len()
                && buf@.skip(r.unwrap().1 as int) == rest,
            None => r is None,
        },
{
    let (fin, at1) = match read_bool(buf, pos) {
        Some(x) => x,
        None => return None,
    };
    let (rsv1, at2) = match read_bool(buf, at1) {
        Some(x) => x,
        None => return None,
    };
    let (rsv2, at3) = match read_bool(buf, at2) {
        Some(x) => x,
        None => return None,
    };
    let (rsv3, at4) = match read_bool(buf, at3) {
        Some(x) => x,
        None => return None,
    };
    let (opcode, at5) = match read_opcode(buf, at4) {
        Some(x) => x,
        None => return None,
    };
    let (masked, at6) = match read_bool(buf, at5) {
        Some(x) => x,
        None => return None,
    };
    let (mask_key, at7) = match read_uint(buf, at6, 4) {
        Some(x) => x,
        None => return None,
    };
    let (payload, at8) = match read_bytes(buf, at7) {
        Some(x) => x,
        None => return None,
    };
    let (close_code, at9) = match read_uint(buf, at8, 2) {
        Some(x) => x,
        None => return None,
    };
    let w = WsFrame {
        fin,
        rsv1,
        rsv2,
        rsv3,
        opcode,
        masked,
        mask_key: mask_key as u32,
        payload,
        close_code: close_code as u16,
    };
    Some((w, at9))
}

fn read_control(buf: &[u8], pos: usize) -> (r: Option<(ControlMessage, usize)>)
    requires
        pos <= buf@.len(),
    ensures
        match parse_control(buf@.skip(pos as int)) {
            Some((v, rest)) => r is Some && r.unwrap().0@ == v && r.unwrap().1 <= buf@.len()
                && buf@.skip(r.unwrap().1 as int) == rest,
            None => r is None,
        },
{
    if pos >= buf.len() {
        return None;
    }
    let tag = buf[pos];
    let p = pos + 1;
    assert(buf@.skip(pos as int).skip(1) =~= buf@.skip(p as int));
    if tag == 0 {
        let (data, at1) = match read_bytes(buf, p) {
            Some(x) => x,
            None => return None,
        };
        Some((ControlMessage::Ping { data }, at1))
    } else if tag == 1 {
        let (data, at1) = match read_bytes(buf, p) {
            Some(x) => x,
            None => return None,
        };
        Some((ControlMessage::Pong { data }, at1))
    } else if tag == 2 {
        let (code, at1) = match read_uint(buf, p, 4) {
            Some(x) => x,
            None => return None,
        };
        let (message, at2) = match read_text(buf, at1) {
            Some(x) => x,
            None => return None,
        };
        Some((ControlMessage::Error { code: code as u32, message }, at2))
    } else if tag == 3 {
        let (reason, at1) = match read_text(buf, p) {
            Some(x) => x,
            None => return None,
        };
        Some((ControlMessage::GoAway { reason }, at1))
    } else if tag == 4 {
        Some((ControlMessage::FlowWindowUpdate, p))
    } else {
        None
    }
}

/// Reads back the envelope that `buf` lays out; `None` unless `buf` is exactly
/// one well-formed envelope.
pub fn decode_envelope(buf: &[u8]) -> (r: Option<Envelope>)
    ensures
        match envelope_of(buf@) {
            Some(v) => r is Some && r.unwrap()@ == v,
            None => r is None,
        },
{
    assert(buf@.skip(0) =~= buf@);
    let (ts, at1) = match read_uint(buf, 0, 8) {
        Some(x) => x,
        None => return None,
    };
    let (cid, at2) = match read_uint(buf, at1, 8) {
        Some(x) => x,
        None => return None,
    };
    let (sid, at3) = match read_uint(buf, at2, 4) {
        Some(x) => x,
        None => return None,
    };
    let (seq, at4) = match read_uint(buf, at3, 4) {
        Some(x) => x,
        None => return None,
    };
    if at4 >= buf.len() {
        return None;
    }
    let tag = buf[at4];
    let p = at4 + 1;
    assert(buf@.skip(at4 as int).skip(1) =~= buf@.skip(p as int));
    let (payload, end) = if tag == 0 {
        match read_http(buf, p) {
            Some((h, q)) => (Payload::Http(h), q),
            None => return None,
        }
    } else if tag == 1 {
        match read_ws(buf, p) {
            Some((w, q)) => (Payload::Ws(w), q),
            None => return None,
        }
    } else if tag == 2 {
        match read_control(buf, p) {
            Some((c, q)) => (Payload::Control(c), q),
            None => return None,
        }
    } else {
        return None;
    };
    if end != buf.len() {
        return None;
    }
    Some(
        Envelope {
            timestamp_ms: ts,
            connection_id: cid,
            stream_id: sid as u32,
            msg_seq: seq as u32,
            payload,
        },
    )
}

// ---------------------------------------------------------------------------
// Round trip
// ---------------------------------------------------------------------------

/// Every length fits its four-byte length field.
pub open spec fn bytes_fit(b: Seq<u8>) -> bool {
    b.len() < pow256(4)
}

pub open spec fn text_fits(t: Seq<char>) -> bool {
    encode_utf8(t).len() < pow256(4)
}

pub open spec fn headers_fit(hs: Seq<HeaderView>) -> bool {
    &&& hs.len() < pow256(4)
    &&& forall|i: int| #![trigger hs[i]] 0 <= i < hs.len() ==> text_fits(hs[i].0) && bytes_fit(hs[i].1)
}

pub open spec fn http_fits(h: HttpView) -> bool {
    match h {
        HttpView::RequestInit { method, uri, headers, .. } => text_fits(method) && text_fits(uri)
            && headers_fit(headers),
        HttpView::RequestBodyChunk { data } => bytes_fit(data),
        HttpView::ResponseInit { headers, .. } => headers_fit(headers),
        HttpView::ResponseBodyChunk { data, .. } => bytes_fit(data),
        _ => true,
    }
}

pub open spec fn control_fits(c: ControlView) -> bool {
    match c {
        ControlView::Ping { data } => bytes_fit(data),
        ControlView::Pong { data } => bytes_fit(data),
        ControlView::Error { message, .. } => text_fits(message),
        ControlView::GoAway { reason } => text_fits(reason),
        ControlView::FlowWindowUpdate => true,
    }
}

/// The lengths in `e` fit the layout's length fields (`u32` counts).
pub open spec fn envelope_fits(e: EnvelopeView) -> bool {
    match e.payload {
        PayloadView::Http(h) => http_fits(h),
        PayloadView::Ws(w) => bytes_fit(w.payload),
        PayloadView::Control(c) => control_fits(c),
    }
}

proof fn lemma_header_items_round_trip(hs: Seq<HeaderView>, rest: Seq<u8>)
    requires
        forall|i: int| #![trigger hs[i]] 0 <= i < hs.len() ==> text_fits(hs[i].0) && bytes_fit(hs[i].1),
    ensures
        parse_header_items(header_items(hs) + rest, hs.len()) == Some((hs, rest)),
    decreases hs.len(),
{
    if hs.len() > 0 {
        let tail = hs.drop_first();
        assert forall|i: int| #![trigger tail[i]] 0 <= i < tail.len() implies text_fits(tail[i].0)
            && bytes_fit(tail[i].1) by {
            assert(tail[i] == hs[i + 1]);
        }
        lemma_header_items_round_trip(tail, rest);
        let r2 = header_items(tail) + rest;
        lemma_bytes_round_trip(hs[0].1, r2);
        let r1 = bytes_field(hs[0].1) + r2;
        assert(text_fits(hs[0].0));
        lemma_text_round_trip(hs[0].0, r1);
        assert(header_items(hs) + rest =~= text_field(hs[0].0) + r1);
        assert(seq![(hs[0].0, hs[0].1)] + tail =~= hs);
    }
}

proof fn lemma_headers_round_trip(hs: Seq<HeaderView>, rest: Seq<u8>)
    requires
        headers_fit(hs),
    ensures
        parse_headers(headers_field(hs) + rest) == Some((hs, rest)),
{
    lemma_header_items_round_trip(hs, rest);
    lemma_uint_round_trip(hs.len(), 4, header_items(hs) + rest);
    assert(headers_field(hs) + rest =~= le_bytes(hs.len(), 4) + (header_items(hs) + rest));
}

#[verifier::rlimit(50)]
#[verifier::spinoff_prover]
proof fn lemma_http_round_trip(h: HttpView, rest: Seq<u8>)
    requires
        http_fits(h),
    ensures
        parse_http(http_bytes(h) + rest) == Some((h, rest)),
{
    lemma_pow256_facts();
    let s = http_bytes(h) + rest;
    match h {
        HttpView::RequestInit { method, uri, headers, has_body } => {
            let r4 = rest;
            let r3 = bool_bytes(has_body) + r4;
            let r2 = headers_field(headers) + r3;
            let r1 = text_field(uri) + r2;
            lemma_bool_round_trip(has_body, r4);
            lemma_headers_round_trip(headers, r3);
            lemma_text_round_trip(uri, r2);
            lemma_text_round_trip(method, r1);
            assert(s.skip(1) =~= text_field(method) + r1);
        },
        HttpView::RequestBodyChunk { data } => {
            lemma_bytes_round_trip(data, rest);
            assert(s.skip(1) =~= bytes_field(data) + rest);
        },
        HttpView::RequestEnd => {
            assert(s.skip(1) =~= rest);
        },
        HttpView::RequestAbort { reason } => {
            lemma_uint_round_trip(reason as nat, 2, rest);
            assert(s.skip(1) =~= le_bytes(reason as nat, 2) + rest);
        },
        HttpView::ResponseInit { status, headers, has_body, content_length } => {
            let r3 = le_bytes(content_length as nat, 8) + rest;
            let r2 = bool_bytes(has_body) + r3;
            let r1 = headers_field(headers) + r2;
            lemma_uint_round_trip(content_length as nat, 8, rest);
            lemma_bool_round_trip(has_body, r3);
            lemma_headers_round_trip(headers, r2);
            lemma_uint_round_trip(status as nat, 2, r1);
            assert(s.skip(1) =~= le_bytes(status as nat, 2) + r1);
        },
        HttpView::ResponseBodyChunk { data, seq, is_last } => {
            let r2 = bool_bytes(is_last) + rest;
            let r1 = le_bytes(seq as nat, 4) + r2;
            lemma_bool_round_trip(is_last, rest);
            lemma_uint_round_trip(seq as nat, 4, r2);
            lemma_bytes_round_trip(data, r1);
            assert(s.skip(1) =~= bytes_field(data) + r1);
        },
        HttpView::ResponseEnd => {
            assert(s.skip(1) =~= rest);
        },
    }
}

proof fn lemma_opcode_round_trip(op: WsOpcode, rest: Seq<u8>)
    ensures
        parse_opcode(seq![opcode_number(op)] + rest) == Some((op, rest)),
{
    assert((seq![opcode_number(op)] + rest).skip(1) =~= rest);
    match op {
        WsOpcode::Continuation => {},
        WsOpcode::Text => {},
        WsOpcode::Binary => {},
        WsOpcode::Close => {},
        WsOpcode::Ping => {},
        WsOpcode::Pong => {},
    }
}

#[verifier::rlimit(50)]
#[verifier::spinoff_prover]
proof fn lemma_ws_round_trip(w: WsFrameView, rest: Seq<u8>)
    requires
        bytes_fit(w.payload),
    ensures
        parse_ws(ws_bytes(w) + rest) == Some((w, rest)),
{
    lemma_pow256_facts();
    let r8 = le_bytes(w.close_code as nat, 2) + rest;
    let r7 = bytes_field(w.payload) + r8;
    let r6 = le_bytes(w.mask_key as nat, 4) + r7;
    let r5 = bool_bytes(w.masked) + r6;
    let r4 = seq![opcode_number(w.opcode)] + r5;
    let r3 = bool_bytes(w.rsv3) + r4;
    let r2 = bool_bytes(w.rsv2) + r3;
    let r1 = bool_bytes(w.rsv1) + r2;
    let s = ws_bytes(w) + rest;
    assert(s =~= bool_bytes(w.fin) + r1);
    lemma_uint_round_trip(w.close_code as nat, 2, rest);
    lemma_bytes_round_trip(w.payload, r8);
    lemma_uint_round_trip(w.mask_key as nat, 4, r7);
    lemma_bool_round_trip(w.masked, r6);
    lemma_opcode_round_trip(w.opcode, r5);
    lemma_bool_round_trip(w.rsv3, r4);
    lemma_bool_round_trip(w.rsv2, r3);
    lemma_bool_round_trip(w.rsv1, r2);
    lemma_bool_round_trip(w.fin, r1);
    assert(parse_bool(s) == Some((w.fin, r1)));
    assert(parse_uint(r8, 2) == Some((w.close_code as nat, rest)));
    assert(parse_uint(r6, 4) == Some((w.mask_key as nat, r7)));
}

proof fn lemma_control_round_trip(c: ControlView, rest: Seq<u8>)
    requires
        control_fits(c),
    ensures
        parse_control(control_bytes(c) + rest) == Some((c, rest)),
{
    lemma_pow256_facts();
    let s = control_bytes(c) + rest;
    match c {
        ControlView::Ping { data } => {
            lemma_bytes_round_trip(data, rest);
            assert(s.skip(1) =~= bytes_field(data) + rest);
        },
        ControlView::Pong { data } => {
            lemma_bytes_round_trip(data, rest);
            assert(s.skip(1) =~= bytes_field(data) + rest);
        },
        ControlView::Error { code, message } => {
            let r1 = text_field(message) + rest;
            lemma_text_round_trip(message, rest);
            lemma_uint_round_trip(code as nat, 4, r1);
            assert(s.skip(1) =~= le_bytes(code as nat, 4) + r1);
        },
        ControlView::GoAway { reason } => {
            lemma_text_round_trip(reason, rest);
            assert(s.skip(1) =~= text_field(reason) + rest);
        },
        ControlView::FlowWindowUpdate => {
            assert(s.skip(1) =~= rest);
        },
    }
}

/// Decoding the layout of any envelope whose lengths fit their fields gives
/// that envelope back, whatever its payload variant.
#[verifier::rlimit(50)]
#[verifier::spinoff_prover]
pub proof fn lemma_envelope_round_trip(e: EnvelopeView)
    requires
        envelope_fits(e),
    ensures
        envelope_of(envelope_bytes(e)) == Some(e),
{
    lemma_pow256_facts();
    let empty = Seq::<u8>::empty();
    let p = payload_bytes(e.payload);
    match e.payload {
        PayloadView::Http(h) => {
            lemma_http_round_trip(h, empty);
            assert(p.skip(1) =~= http_bytes(h) + empty);
        },
        PayloadView::Ws(w) => {
            lemma_ws_round_trip(w, empty);
            assert(p.skip(1) =~= ws_bytes(w) + empty);
        },
        PayloadView::Control(c) => {
            lemma_control_round_trip(c, empty);
            assert(p.skip(1) =~= control_bytes(c) + empty);
        },
    }
    let r3 = le_bytes(e.msg_seq as nat, 4) + p;
    let r2 = le_bytes(e.stream_id as nat, 4) + r3;
    let r1 = le_bytes(e.connection_id as nat, 8) + r2;
    lemma_uint_round_trip(e.msg_seq as nat, 4, p);
    lemma_uint_round_trip(e.stream_id as nat, 4, r3);
    lemma_uint_round_trip(e.connection_id as nat, 8, r2);
    lemma_uint_round_trip(e.timestamp_ms as nat, 8, r1);
    assert(envelope_bytes(e) =~= le_bytes(e.timestamp_ms as nat, 8) + r1);
}

} // verus!

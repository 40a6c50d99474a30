use dotunnel::codec::{decode_envelope, encode_envelope};
use dotunnel::envelope::{
    ControlMessage, Envelope, Header, HttpMessage, Payload,
    WsFrame, WsOpcode,
};
use dotunnel::message::{Message, MessageError, SIZE_LIMIT};
use dotunnel::response::{
    encode_control_pong, encode_response_body_chunk, encode_response_end, encode_response_init,
    encode_ws_frame,
};

fn header(name: &str, value: &str) -> Header {
    Header { name: name.to_string(), value: value.as_bytes().to_vec() }
}

fn envelope(payload: Payload) -> Envelope {
    Envelope { timestamp_ms: 1_700_000_000_123, connection_id: 42, stream_id: 7, msg_seq: 9, payload }
}

fn round_trip(e: &Envelope) -> Envelope {
    let m = Message::build_with(e).unwrap();
    let back = Message::from(m.into_inner());
    back.read_with().unwrap()
}

#[test]
fn test_message_roundtrip() {
    let e = Envelope {
        timestamp_ms: 12345678,
        connection_id: 0,
        stream_id: 0,
        msg_seq: 0,
        payload: Payload::Http(HttpMessage::RequestInit {
            method: "GET".to_string(),
            uri: "https://github.com/cometkim/dotunnel".to_string(),
            headers: vec![header("Content-Type", "text/plain")],
            has_body: true,
        }),
    };
    let message = Message::build_with(&e).unwrap();
    match message.read_with().unwrap() {
        Envelope { timestamp_ms, payload: Payload::Http(HttpMessage::RequestInit { method, uri, headers, has_body }), .. } => {
            assert_eq!(timestamp_ms, 12345678);
            assert_eq!(method, "GET");
            assert_eq!(uri, "https://github.com/cometkim/dotunnel");
            assert!(has_body);
            assert_eq!(headers.len(), 1);
            assert_eq!(headers[0].name, "Content-Type");
            assert_eq!(headers[0].value, b"text/plain".to_vec());
        }
        _ => panic!("Failed to read message"),
    }
}

#[test]
fn round_trip_every_http_variant() {
    let variants = vec![
        HttpMessage::RequestInit {
            method: "POST".to_string(),
            uri: "/submit?x=1".to_string(),
            headers: vec![header("A", "1"), header("a", "2"), Header { name: "Bin".to_string(), value: vec![0xff, 0x00, 0xfe] }],
            has_body: false,
        },
        HttpMessage::RequestBodyChunk { data: vec![1, 2, 3, 0, 255] },
        HttpMessage::RequestEnd,
        HttpMessage::RequestAbort { reason: 65535 },
        HttpMessage::ResponseInit { status: 404, headers: vec![], has_body: true, content_length: u64::MAX },
        HttpMessage::ResponseBodyChunk { data: vec![], seq: u32::MAX, is_last: true },
        HttpMessage::ResponseEnd,
    ];
    for h in variants {
        let e = envelope(Payload::Http(h));
        assert_eq!(round_trip(&e), e);
    }
}

#[test]
fn round_trip_ws_and_control() {
    let ws = WsFrame {
        fin: false,
        rsv1: true,
        rsv2: false,
        rsv3: true,
        opcode: WsOpcode::Close,
        masked: true,
        mask_key: 0xdead_beef,
        payload: b"bye".to_vec(),
        close_code: 1011,
    };
    let e = envelope(Payload::Ws(ws));
    assert_eq!(round_trip(&e), e);
    let controls = vec![
        ControlMessage::Ping { data: b"x".to_vec() },
        ControlMessage::Pong { data: vec![] },
        ControlMessage::Error { code: 7, message: "héllo ✓".to_string() },
        ControlMessage::GoAway { reason: "maintenance".to_string() },
        ControlMessage::FlowWindowUpdate,
    ];
    for c in controls {
        let e = envelope(Payload::Control(c));
        assert_eq!(round_trip(&e), e);
    }
}

#[test]
fn layout_is_little_endian_with_tags() {
    let e = Envelope {
        timestamp_ms: 1,
        connection_id: 2,
        stream_id: 3,
        msg_seq: 4,
        payload: Payload::Http(HttpMessage::RequestAbort { reason: 0x0102 }),
    };
    let bytes = encode_envelope(&e);
    let mut expected = vec![1, 0, 0, 0, 0, 0, 0, 0, 2, 0, 0, 0, 0, 0, 0, 0, 3, 0, 0, 0, 4, 0, 0, 0];
    expected.extend_from_slice(&[0, 3, 2, 1]);
    assert_eq!(bytes, expected);
    assert_eq!(decode_envelope(&bytes), Some(e));
}

#[test]
fn decode_rejects_unknown_discriminators_and_trailing_bytes() {
    let e = envelope(Payload::Http(HttpMessage::RequestEnd));
    let mut bytes = encode_envelope(&e);
    assert!(decode_envelope(&bytes).is_some());
    bytes.push(0);
    assert_eq!(decode_envelope(&bytes), None);
    let mut bad_payload = encode_envelope(&e);
    bad_payload[24] = 3;
    assert_eq!(decode_envelope(&bad_payload), None);
    let mut bad_http = encode_envelope(&e);
    bad_http[25] = 7;
    assert_eq!(decode_envelope(&bad_http), None);
    assert_eq!(decode_envelope(&bytes[..24]), None);
    assert_eq!(decode_envelope(&[]), None);
}

#[test]
fn decode_rejects_unknown_opcode_and_bad_utf8() {
    let ws = WsFrame {
        fin: true, rsv1: false, rsv2: false, rsv3: false, opcode: WsOpcode::Text,
        masked: false, mask_key: 0, payload: vec![], close_code: 0,
    };
    let mut bytes = encode_envelope(&envelope(Payload::Ws(ws)));
    assert_eq!(bytes[29], 1);
    bytes[29] = 3;
    assert_eq!(decode_envelope(&bytes), None);
    let g = envelope(Payload::Control(ControlMessage::GoAway { reason: "ab".to_string() }));
    let mut bytes = encode_envelope(&g);
    let n = bytes.len();
    bytes[n - 1] = 0xff;
    assert_eq!(decode_envelope(&bytes), None);
}

#[test]
fn read_with_reports_framing_and_layout_errors() {
    let garbage = Message::from(vec![0x10, 0x20]);
    assert!(matches!(garbage.read_with(), Err(MessageError::Serialization(_))));
    let e = envelope(Payload::Http(HttpMessage::RequestEnd));
    let good = Message::build_with(&e).unwrap().into_inner();
    assert_ne!(good, encode_envelope(&e));
    assert!(Message::from(good).read_with().is_ok());
}

#[test]
fn size_limit_is_enforced() {
    let small = envelope(Payload::Http(HttpMessage::RequestBodyChunk { data: vec![7; 1000] }));
    assert!(Message::build_with(&small).is_ok());
    let overhead = encode_envelope(&envelope(Payload::Http(HttpMessage::RequestBodyChunk { data: vec![] }))).len();
    let fits = envelope(Payload::Http(HttpMessage::RequestBodyChunk { data: vec![0; SIZE_LIMIT - overhead] }));
    assert_eq!(encode_envelope(&fits).len(), SIZE_LIMIT);
    assert!(Message::build_with(&fits).is_ok());
    let over = envelope(Payload::Http(HttpMessage::RequestBodyChunk { data: vec![0; SIZE_LIMIT - overhead + 1] }));
    match Message::build_with(&over) {
        Err(MessageError::SizeLimit(n)) => assert_eq!(n, SIZE_LIMIT + 1),
        other => panic!("expected SizeLimit, got {:?}", other.map(|m| m.into_inner().len())),
    }
}

#[test]
fn stamped_build_sets_a_current_timestamp() {
    let e = envelope(Payload::Http(HttpMessage::ResponseEnd));
    let m = Message::build_stamped(e.clone()).unwrap();
    let back = m.read_with().unwrap();
    assert!(back.timestamp_ms > 1_600_000_000_000);
    assert_eq!(back.payload, e.payload);
    assert_eq!(back.stream_id, 7);
}

#[test]
fn message_error_describes_itself() {
    assert_eq!(MessageError::SizeLimit(5).describe(), "Each message size should be less than 1 MiB");
    assert_eq!(MessageError::Malformed.describe(), "Malformed envelope");
}

#[test]
fn encoders_stamp_and_pack_each_frame() {
    let init = encode_response_init(1, 2, 3, 200, &vec![header("a", "b")], true).unwrap().read_with().unwrap();
    assert_eq!((init.connection_id, init.stream_id, init.msg_seq), (1, 2, 3));
    assert!(init.timestamp_ms > 0);
    assert_eq!(
        init.payload,
        Payload::Http(HttpMessage::ResponseInit { status: 200, headers: vec![header("a", "b")], has_body: true, content_length: 0 })
    );
    let chunk = encode_response_body_chunk(1, 2, 4, b"data", 0, true).unwrap().read_with().unwrap();
    assert_eq!(chunk.payload, Payload::Http(HttpMessage::ResponseBodyChunk { data: b"data".to_vec(), seq: 0, is_last: true }));
    let end = encode_response_end(1, 2, 5).unwrap().read_with().unwrap();
    assert_eq!(end.payload, Payload::Http(HttpMessage::ResponseEnd));
    let pong = encode_control_pong(9, b"x").unwrap().read_with().unwrap();
    assert_eq!((pong.connection_id, pong.stream_id, pong.msg_seq), (9, 0, 0));
    assert_eq!(pong.payload, Payload::Control(ControlMessage::Pong { data: b"x".to_vec() }));
    let close = encode_ws_frame(1, 2, 6, WsOpcode::Close, &[], Some(1000)).unwrap().read_with().unwrap();
    match close.payload {
        Payload::Ws(f) => {
            assert_eq!(f.opcode, WsOpcode::Close);
            assert_eq!(f.close_code, 1000);
            assert!(f.fin && !f.masked);
        }
        other => panic!("expected a WebSocket frame, got {:?}", other),
    }
    let text = encode_ws_frame(1, 2, 7, WsOpcode::Text, b"hi", None).unwrap().read_with().unwrap();
    match text.payload {
        Payload::Ws(f) => assert_eq!((f.opcode, f.payload, f.close_code), (WsOpcode::Text, b"hi".to_vec(), 0)),
        other => panic!("expected a WebSocket frame, got {:?}", other),
    }
}

#[test]
fn opcodes_use_rfc6455_numbers() {
    let all = [
        (WsOpcode::Continuation, 0u8),
        (WsOpcode::Text, 1),
        (WsOpcode::Binary, 2),
        (WsOpcode::Close, 8),
        (WsOpcode::Ping, 9),
        (WsOpcode::Pong, 10),
    ];
    for (op, n) in all {
        assert_eq!(op.number(), n);
        assert_eq!(WsOpcode::from_number(n as u64), Some(op));
    }
    assert_eq!(WsOpcode::from_number(3), None);
    assert_eq!(WsOpcode::from_number(256 + 1), None);
}

struct Lcg(u64);

impl Lcg {
    fn next(&mut self) -> u64 {
        self.0 = self.0.wrapping_mul(6364136223846793005).wrapping_add(1442695040888963407);
        self.0 >> 33
    }
    fn bytes(&mut self) -> Vec<u8> {
        let n = (self.next() % 40) as usize;
        (0..n).map(|_| self.next() as u8).collect()
    }
    fn text(&mut self) -> String {
        let n = (self.next() % 12) as usize;
        (0..n)
            .map(|_| match self.next() % 4 {
                0 => 'é',
                1 => '✓',
                2 => (b'a' + (self.next() % 26) as u8) as char,
                _ => '/',
            })
            .collect()
    }
}

#[test]
fn generated_request_inits_round_trip() {
    let mut g = Lcg(7);
    for _ in 0..300 {
        let headers = (0..(g.next() % 5)).map(|_| Header { name: g.text(), value: g.bytes() }).collect();
        let e = Envelope {
            timestamp_ms: g.next() << 20,
            connection_id: g.next(),
            stream_id: g.next() as u32,
            msg_seq: g.next() as u32,
            payload: Payload::Http(HttpMessage::RequestInit {
                method: g.text(),
                uri: g.text(),
                headers,
                has_body: g.next() % 2 == 0,
            }),
        };
        assert_eq!(decode_envelope(&encode_envelope(&e)), Some(e.clone()));
        assert_eq!(round_trip(&e), e);
        let chunk = envelope(Payload::Http(HttpMessage::RequestBodyChunk { data: g.bytes() }));
        assert_eq!(round_trip(&chunk), chunk);
    }
}

#[test]
fn size_limit_counts_the_packed_bytes() {
    let overhead = encode_envelope(&envelope(Payload::Http(HttpMessage::RequestBodyChunk { data: vec![] }))).len();
    let dense = envelope(Payload::Http(HttpMessage::RequestBodyChunk { data: vec![0xab; SIZE_LIMIT - overhead] }));
    assert_eq!(encode_envelope(&dense).len(), SIZE_LIMIT);
    match Message::build_with(&dense) {
        Err(MessageError::SizeLimit(n)) => assert!(n > SIZE_LIMIT),
        other => panic!("expected SizeLimit, got {:?}", other.map(|m| m.into_inner().len())),
    }
    let sparse = envelope(Payload::Http(HttpMessage::RequestBodyChunk { data: vec![0; SIZE_LIMIT - overhead] }));
    let m = Message::build_with(&sparse).unwrap();
    assert!(m.into_inner().len() <= SIZE_LIMIT);
}

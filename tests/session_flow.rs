use dotunnel::bridge::{local_frame, to_local, LocalWsMessage};
use dotunnel::envelope::{ControlMessage, Envelope, Header, HttpMessage, Payload, WsFrame, WsOpcode};
use dotunnel::forward::{prepare_forward, respond, upgrade_accepted, LocalResponse};
use dotunnel::response::{bad_gateway_frames, response_frames, SeqCounter};
use dotunnel::stream::{Action, PendingRequest, StreamTable};

fn header(name: &str, value: &str) -> Header {
    Header { name: name.to_string(), value: value.as_bytes().to_vec() }
}

fn http(stream_id: u32, h: HttpMessage) -> Envelope {
    Envelope { timestamp_ms: 0, connection_id: 5, stream_id, msg_seq: 1, payload: Payload::Http(h) }
}

fn ws(stream_id: u32, opcode: WsOpcode, payload: &[u8], close_code: u16) -> Envelope {
    Envelope {
        timestamp_ms: 0,
        connection_id: 5,
        stream_id,
        msg_seq: 1,
        payload: Payload::Ws(WsFrame {
            fin: true, rsv1: false, rsv2: false, rsv3: false, opcode,
            masked: false, mask_key: 0, payload: payload.to_vec(), close_code,
        }),
    }
}

fn init(method: &str, uri: &str, headers: Vec<Header>, has_body: bool) -> HttpMessage {
    HttpMessage::RequestInit { method: method.to_string(), uri: uri.to_string(), headers, has_body }
}

fn forwarded_request(a: Action) -> (u64, u32, PendingRequest) {
    match a {
        Action::Forward { connection_id, stream_id, request } => (connection_id, stream_id, request),
        other => panic!("expected a forward, got {:?}", other),
    }
}

#[test]
fn get_without_body_is_answered_with_three_frames() {
    let mut table: StreamTable<u8> = StreamTable::new();
    let a = table.handle(http(3, init("GET", "/health", vec![header("Accept", "*/*")], false)));
    assert!(matches!(a, Action::Nothing));
    let (conn, sid, req) = forwarded_request(table.handle(http(3, HttpMessage::RequestEnd)));
    assert_eq!((conn, sid), (5, 3));
    let local = prepare_forward("127.0.0.1:8080", &req).unwrap();
    assert_eq!(local.method, "GET");
    assert_eq!(local.url, "http://127.0.0.1:8080/health");
    assert!(local.body.is_empty());
    assert_eq!(local.headers, vec![header("Accept", "*/*"), header("accept-encoding", "identity")]);

    let mut seqs = SeqCounter::new();
    let resp = LocalResponse { status: 200, headers: vec![header("content-type", "text/plain")], body: b"ok".to_vec() };
    let frames = respond(conn, sid, &mut seqs, &Ok(resp)).unwrap();
    assert_eq!(frames.len(), 3);
    assert_eq!(
        frames[0].payload,
        Payload::Http(HttpMessage::ResponseInit {
            status: 200,
            headers: vec![header("content-type", "text/plain")],
            has_body: true,
            content_length: 0,
        })
    );
    assert_eq!(
        frames[1].payload,
        Payload::Http(HttpMessage::ResponseBodyChunk { data: b"ok".to_vec(), seq: 0, is_last: true })
    );
    assert_eq!(frames[2].payload, Payload::Http(HttpMessage::ResponseEnd));
    assert_eq!(frames.iter().map(|f| f.msg_seq).collect::<Vec<_>>(), vec![1, 2, 3]);
    assert!(frames.iter().all(|f| f.stream_id == 3 && f.connection_id == 5));
    table.remove(3);
    assert!(!table.contains(3));
}

#[test]
fn post_body_chunks_are_concatenated() {
    let mut table: StreamTable<u8> = StreamTable::new();
    table.handle(http(9, init("POST", "/submit", vec![header("Content-Type", "application/json")], true)));
    table.handle(http(9, HttpMessage::RequestBodyChunk { data: b"{\"a\":1".to_vec() }));
    table.handle(http(9, HttpMessage::RequestBodyChunk { data: b"}".to_vec() }));
    let (_, _, req) = forwarded_request(table.handle(http(9, HttpMessage::RequestEnd)));
    assert_eq!(req.body(), b"{\"a\":1}".to_vec());
    let local = prepare_forward("localhost:3000", &req).unwrap();
    assert_eq!(local.body, b"{\"a\":1}".to_vec());
    assert_eq!(local.method, "POST");
    assert_eq!(local.url, "http://localhost:3000/submit");
    // the request is taken once: a second end forwards nothing
    assert!(matches!(table.handle(http(9, HttpMessage::RequestEnd)), Action::Nothing));
}

#[test]
fn unreachable_origin_gives_bad_gateway() {
    let mut seqs = SeqCounter::new();
    let frames = respond(5, 4, &mut seqs, &Err("connection refused".to_string())).unwrap();
    assert_eq!(frames.len(), 3);
    assert_eq!(
        frames[0].payload,
        Payload::Http(HttpMessage::ResponseInit { status: 502, headers: vec![], has_body: true, content_length: 0 })
    );
    assert_eq!(
        frames[1].payload,
        Payload::Http(HttpMessage::ResponseBodyChunk {
            data: b"Bad Gateway: connection refused".to_vec(),
            seq: 0,
            is_last: true,
        })
    );
    assert_eq!(frames[2].payload, Payload::Http(HttpMessage::ResponseEnd));
}

#[test]
fn malformed_method_is_refused() {
    let mut table: StreamTable<u8> = StreamTable::new();
    table.handle(http(1, init("GE T", "/", vec![], false)));
    let (_, _, req) = forwarded_request(table.handle(http(1, HttpMessage::RequestEnd)));
    assert_eq!(prepare_forward("127.0.0.1:1", &req).unwrap_err(), "Invalid HTTP method");
    table.handle(http(2, init("", "/", vec![], false)));
    let (_, _, req) = forwarded_request(table.handle(http(2, HttpMessage::RequestEnd)));
    assert!(prepare_forward("127.0.0.1:1", &req).is_err());
}

#[test]
fn websocket_round_trip() {
    let mut table: StreamTable<u32> = StreamTable::new();
    let headers = vec![
        header("Host", "example.com"),
        header("upgrade", "WebSocket"),
        header("Sec-WebSocket-Protocol", "chat"),
        header("Origin", "https://example.com"),
    ];
    let (uri, dial_headers) = match table.handle(http(11, init("GET", "/ws", headers, false))) {
        Action::DialWebSocket { connection_id, stream_id, uri, headers } => {
            assert_eq!((connection_id, stream_id), (5, 11));
            (uri, headers)
        }
        other => panic!("expected a dial, got {:?}", other),
    };
    assert_eq!(uri, "/ws");
    assert_eq!(dial_headers, vec![header("Sec-WebSocket-Protocol", "chat"), header("Origin", "https://example.com")]);
    assert!(!table.contains(11));

    let mut seqs = SeqCounter::new();
    let accepted = upgrade_accepted(5, 11, &mut seqs, &vec![header("sec-websocket-accept", "abc")]).unwrap();
    assert_eq!(
        accepted.payload,
        Payload::Http(HttpMessage::ResponseInit {
            status: 101,
            headers: vec![header("sec-websocket-accept", "abc")],
            has_body: false,
            content_length: 0,
        })
    );
    assert!(table.register_websocket(11, 77));
    assert_eq!(table.websocket_sink(11), Some(&77));

    match table.handle(ws(11, WsOpcode::Text, b"hi", 0)) {
        Action::ToLocal { stream_id, message } => {
            assert_eq!(stream_id, 11);
            assert_eq!(message, LocalWsMessage::Text("hi".to_string()));
        }
        other => panic!("expected a local message, got {:?}", other),
    }
    let out = local_frame(5, 11, &mut seqs, &LocalWsMessage::Text("bye".to_string())).unwrap();
    assert_eq!(out.stream_id, 11);
    assert_eq!(out.msg_seq, 2);
    match out.payload {
        Payload::Ws(f) => {
            assert_eq!(f.opcode, WsOpcode::Text);
            assert_eq!(f.payload, b"bye".to_vec());
            assert!(f.fin && !f.rsv1 && !f.rsv2 && !f.rsv3 && !f.masked);
            assert_eq!(f.mask_key, 0);
        }
        other => panic!("expected a WebSocket frame, got {:?}", other),
    }
    // a WebSocket stream never turns into an HTTP one
    assert!(matches!(table.handle(http(11, init("GET", "/", vec![], false))), Action::Nothing));
    assert!(matches!(table.handle(http(11, HttpMessage::RequestEnd)), Action::Nothing));
    assert!(table.websocket_sink(11).is_some());
}

#[test]
fn inbound_frames_translate_by_opcode() {
    let frame = |opcode: WsOpcode, payload: &[u8], close_code: u16| WsFrame {
        fin: true, rsv1: false, rsv2: false, rsv3: false, opcode,
        masked: false, mask_key: 0, payload: payload.to_vec(), close_code,
    };
    assert_eq!(to_local(&frame(WsOpcode::Text, &[0xff, 0xfe], 0)), None);
    assert_eq!(to_local(&frame(WsOpcode::Binary, &[0xff], 0)), Some(LocalWsMessage::Binary(vec![0xff])));
    assert_eq!(to_local(&frame(WsOpcode::Close, b"ignored", 1001)), Some(LocalWsMessage::Close(Some(1001))));
    assert_eq!(to_local(&frame(WsOpcode::Ping, b"p", 0)), Some(LocalWsMessage::Ping(b"p".to_vec())));
    assert_eq!(to_local(&frame(WsOpcode::Pong, b"q", 0)), Some(LocalWsMessage::Pong(b"q".to_vec())));
    assert_eq!(to_local(&frame(WsOpcode::Continuation, b"c", 0)), None);
}

#[test]
fn local_close_without_code_is_normal_closure() {
    let mut seqs = SeqCounter::new();
    let out = local_frame(1, 2, &mut seqs, &LocalWsMessage::Close(None)).unwrap();
    match out.payload {
        Payload::Ws(f) => {
            assert_eq!(f.opcode, WsOpcode::Close);
            assert_eq!(f.close_code, 1000);
            assert!(f.payload.is_empty());
        }
        other => panic!("expected a close frame, got {:?}", other),
    }
    let out = local_frame(1, 2, &mut seqs, &LocalWsMessage::Binary(vec![9])).unwrap();
    assert_eq!(out.msg_seq, 2);
}

#[test]
fn frames_for_unknown_streams_are_dropped() {
    let mut table: StreamTable<u8> = StreamTable::new();
    assert!(matches!(table.handle(ws(4, WsOpcode::Text, b"x", 0)), Action::Nothing));
    assert!(matches!(table.handle(http(4, HttpMessage::RequestBodyChunk { data: vec![1] })), Action::Nothing));
    assert!(!table.contains(4));
    table.handle(http(4, init("GET", "/", vec![], false)));
    assert!(matches!(table.handle(ws(4, WsOpcode::Text, b"x", 0)), Action::Nothing));
    table.handle(http(4, HttpMessage::RequestAbort { reason: 1 }));
    assert!(!table.contains(4));
    assert!(matches!(
        table.handle(http(4, HttpMessage::ResponseEnd)),
        Action::Unsupported
    ));
}

#[test]
fn control_ping_is_answered_with_pong_on_stream_zero() {
    let mut table: StreamTable<u8> = StreamTable::new();
    let ping = Envelope {
        timestamp_ms: 3,
        connection_id: 77,
        stream_id: 0,
        msg_seq: 12,
        payload: Payload::Control(ControlMessage::Ping { data: b"x".to_vec() }),
    };
    match table.handle(ping) {
        Action::Reply(e) => {
            assert_eq!(e.stream_id, 0);
            assert_eq!(e.msg_seq, 0);
            assert_eq!(e.connection_id, 77);
            assert_eq!(e.payload, Payload::Control(ControlMessage::Pong { data: b"x".to_vec() }));
        }
        other => panic!("expected a reply, got {:?}", other),
    }
    let control = |c: ControlMessage| Envelope { timestamp_ms: 0, connection_id: 1, stream_id: 0, msg_seq: 0, payload: Payload::Control(c) };
    assert!(matches!(table.handle(control(ControlMessage::Pong { data: vec![] })), Action::Nothing));
    match table.handle(control(ControlMessage::Error { code: 4, message: "bad".to_string() })) {
        Action::ControlError { code, message } => assert_eq!((code, message.as_str()), (4, "bad")),
        other => panic!("expected an error report, got {:?}", other),
    }
    match table.handle(control(ControlMessage::GoAway { reason: "bye".to_string() })) {
        Action::GoAway { reason } => assert_eq!(reason, "bye"),
        other => panic!("expected go-away, got {:?}", other),
    }
    assert!(matches!(table.handle(control(ControlMessage::FlowWindowUpdate)), Action::Unsupported));
}

#[test]
fn msg_seq_strictly_increases_across_responses() {
    let mut seqs = SeqCounter::new();
    let a = response_frames(1, 1, &mut seqs, 204, &vec![], &[]).unwrap();
    let b = bad_gateway_frames(1, 2, &mut seqs, "x").unwrap();
    let c = response_frames(1, 3, &mut seqs, 200, &vec![], b"body").unwrap();
    assert_eq!(a.len(), 2);
    let all: Vec<u32> = a.iter().chain(b.iter()).chain(c.iter()).map(|f| f.msg_seq).collect();
    assert_eq!(all, vec![1, 2, 3, 4, 5, 6, 7, 8]);
    assert!(all.windows(2).all(|w| w[0] < w[1]));
    assert_eq!(a[0].payload, Payload::Http(HttpMessage::ResponseInit { status: 204, headers: vec![], has_body: false, content_length: 0 }));
    assert_eq!(a[1].payload, Payload::Http(HttpMessage::ResponseEnd));
    assert_eq!(seqs.available(), (1u64 << 32) - 9);
}

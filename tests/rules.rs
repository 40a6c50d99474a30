use dotunnel::command::{tunnel, Command};
use dotunnel::config::{config_dir_from, resolve_service_url, Config, ProfileConfig};
use dotunnel::envelope::Header;
use dotunnel::headers::{
    bearer_dial_headers, eq_ignore_case, forward_headers, hop_by_hop, is_websocket_upgrade,
    local_dial_headers, websocket_forward_headers,
};
use dotunnel::session::{
    bearer_authorization, bearer_host, bearer_url, connect_body, connect_outcome, connect_url,
    local_http_url, local_ws_url, on_bearer_event, same_text, starts_with, to_websocket_scheme,
    BearerEvent, ConnectResponse, Decision, LoopStep, Reconnect, TunnelError,
};
use dotunnel::message::{Message, MessageError};
use dotunnel::envelope::{Envelope, HttpMessage, Payload};

fn header(name: &str, value: &str) -> Header {
    Header { name: name.to_string(), value: value.as_bytes().to_vec() }
}

#[test]
fn hop_by_hop_headers_are_not_forwarded() {
    let hs = vec![
        header("Host", "a"),
        header("X-One", "1"),
        header("CONNECTION", "keep-alive"),
        header("Upgrade", "h2c"),
        header("Transfer-Encoding", "chunked"),
        header("Accept-Encoding", "gzip"),
        header("x-one", "2"),
        header("accept", "*/*"),
    ];
    let f = forward_headers(&hs);
    assert_eq!(
        f,
        vec![header("X-One", "1"), header("x-one", "2"), header("accept", "*/*"), header("accept-encoding", "identity")]
    );
    let n = f.iter().filter(|h| h.name.eq_ignore_ascii_case("accept-encoding")).count();
    assert_eq!(n, 1);
    assert_eq!(forward_headers(&vec![]), vec![header("accept-encoding", "identity")]);
}

#[test]
fn header_names_compare_without_ascii_case() {
    assert!(eq_ignore_case(b"Accept-Encoding", b"accept-encoding"));
    assert!(!eq_ignore_case(b"Accept-Encodin", b"accept-encoding"));
    assert!(!eq_ignore_case(b"[", b"{"));
    assert!(hop_by_hop("HoSt"));
    assert!(!hop_by_hop("hostname"));
}

#[test]
fn upgrade_detection_is_case_insensitive() {
    assert!(is_websocket_upgrade(&vec![header("UPGRADE", "websocket")]));
    assert!(is_websocket_upgrade(&vec![header("a", "b"), header("upgrade", "WebSocket")]));
    assert!(!is_websocket_upgrade(&vec![header("upgrade", "h2c")]));
    assert!(!is_websocket_upgrade(&vec![header("connection", "websocket")]));
    assert!(!is_websocket_upgrade(&vec![]));
    let picked = websocket_forward_headers(&vec![
        header("origin", "o"),
        header("Cookie", "c"),
        header("SEC-WEBSOCKET-EXTENSIONS", "e"),
        header("Sec-WebSocket-Key", "k"),
    ]);
    assert_eq!(picked, vec![header("origin", "o"), header("SEC-WEBSOCKET-EXTENSIONS", "e")]);
}

#[test]
fn backoff_doubles_up_to_a_minute_and_resets() {
    let mut r = Reconnect::new();
    let mut sleeps = vec![];
    for _ in 0..9 {
        match r.after_attempt(false) {
            Decision::RetryAfter(ms) => sleeps.push(ms),
            Decision::Stop => panic!("a failure never stops"),
        }
    }
    assert_eq!(sleeps, vec![1000, 2000, 4000, 8000, 16000, 32000, 60000, 60000, 60000]);
    r.on_established();
    assert_eq!(r.after_attempt(false), Decision::RetryAfter(1000));
    assert_eq!(r.after_attempt(true), Decision::Stop);
}

#[test]
fn reconnection_after_two_rejections() {
    let mut r = Reconnect::new();
    let first = connect_outcome(false, None, Some("quota".to_string()));
    assert_eq!(first, Err(TunnelError::ControlPlaneReject("Failed to create tunnel: quota".to_string())));
    assert_eq!(r.after_attempt(false), Decision::RetryAfter(1000));
    let second = connect_outcome(false, None, None);
    assert_eq!(second, Err(TunnelError::ControlPlaneReject("Failed to create tunnel: Unknown error".to_string())));
    assert_eq!(r.after_attempt(false), Decision::RetryAfter(2000));
    let info = ConnectResponse { tunnel_id: "t1".to_string(), tunnel_url: "https://t1.example".to_string(), subdomain: "t1".to_string() };
    assert_eq!(connect_outcome(true, Some(info.clone()), None), Ok(info));
    r.on_established();
    assert_eq!(r.after_attempt(true), Decision::Stop);
    assert_eq!(
        connect_outcome(true, None, None).unwrap_err().describe(),
        "Failed to parse tunnel response"
    );
}

#[test]
fn urls_of_the_handshake() {
    assert_eq!(connect_url("https://svc.example"), "https://svc.example/_api/tunnel/connect");
    assert_eq!(bearer_url("https://svc.example", "abc"), "wss://svc.example/_api/tunnel/connect?tunnelId=abc");
    assert_eq!(bearer_url("http://localhost:5173", "x"), "ws://localhost:5173/_api/tunnel/connect?tunnelId=x");
    assert_eq!(to_websocket_scheme("ftp://h/http://"), "ftp://h/http://");
    assert_eq!(bearer_authorization("tok"), "Bearer tok");
    assert_eq!(local_http_url("127.0.0.1:8080", "/a?b=1"), "http://127.0.0.1:8080/a?b=1");
    assert_eq!(local_ws_url("127.0.0.1:8080", "/ws"), "ws://127.0.0.1:8080/ws");
    assert!(starts_with("https://x", "https://"));
    assert!(!starts_with("http", "https://"));
    assert!(same_text("ab", "ab") && !same_text("ab", "abc"));
}

#[test]
fn host_of_the_bearer_handshake() {
    assert_eq!(bearer_host("https://svc.example:8443/base"), Ok("svc.example".to_string()));
    assert_eq!(bearer_host("unix:/run/sock"), Ok("localhost".to_string()));
    assert!(matches!(bearer_host("not a url"), Err(TunnelError::TransportFailure(_))));
}

#[test]
fn connect_request_body() {
    assert_eq!(connect_body(&None), Some("{}".to_string()));
    assert_eq!(connect_body(&Some("my-app".to_string())), Some("{\"subdomain\":\"my-app\"}".to_string()));
    assert_eq!(connect_body(&Some("a\"b".to_string())), Some("{\"subdomain\":\"a\\\"b\"}".to_string()));
}

#[test]
fn bearer_events_drive_the_loop() {
    assert!(matches!(on_bearer_event(BearerEvent::Text("tunnel_ready".to_string())), LoopStep::Continue));
    assert!(matches!(on_bearer_event(BearerEvent::Pong), LoopStep::Continue));
    assert!(matches!(on_bearer_event(BearerEvent::Raw), LoopStep::Continue));
    assert!(matches!(on_bearer_event(BearerEvent::Close), LoopStep::Finish));
    assert!(matches!(on_bearer_event(BearerEvent::Interrupt), LoopStep::Shutdown));
    match on_bearer_event(BearerEvent::Ping(vec![1, 2])) {
        LoopStep::SendPong(p) => assert_eq!(p, vec![1, 2]),
        _ => panic!("expected a pong"),
    }
    match on_bearer_event(BearerEvent::Error("reset".to_string())) {
        LoopStep::Fail(m) => assert_eq!(m, "WebSocket error: reset"),
        _ => panic!("expected a failure"),
    }
    match on_bearer_event(BearerEvent::Ended) {
        LoopStep::Fail(m) => assert_eq!(m, "WebSocket connection closed unexpectedly"),
        _ => panic!("expected a failure"),
    }
    assert!(matches!(on_bearer_event(BearerEvent::Binary(vec![1, 2, 3])), LoopStep::Drop(MessageError::Serialization(_))));
    let e = Envelope { timestamp_ms: 1, connection_id: 2, stream_id: 3, msg_seq: 4, payload: Payload::Http(HttpMessage::RequestEnd) };
    let bytes = Message::build_with(&e).unwrap().into_inner();
    match on_bearer_event(BearerEvent::Binary(bytes)) {
        LoopStep::Dispatch(d) => assert_eq!(d, e),
        _ => panic!("expected a dispatch"),
    }
}

#[test]
fn configuration_lookup() {
    assert_eq!(Config::user_path(), "dotunnel/config.toml");
    assert_eq!(Config::load(Some("/home/u/.config".to_string())), Some("/home/u/.config/dotunnel/config.toml".to_string()));
    assert_eq!(Config::load(Some("/cfg/".to_string())), Some("/cfg/dotunnel/config.toml".to_string()));
    assert_eq!(Config::load(None), None);
    let mut c = Config::new();
    assert!(c.get_profile("default").is_none());
    assert!(matches!(resolve_service_url(&None, &c, "default"), Err(TunnelError::ConfigMissing(_))));
    c.set_profile("default".to_string(), ProfileConfig { service_url: "https://a".to_string() });
    c.set_profile("other".to_string(), ProfileConfig { service_url: "https://b".to_string() });
    c.set_profile("default".to_string(), ProfileConfig { service_url: "https://c".to_string() });
    assert_eq!(c.get_profile("default").unwrap().service_url, "https://c");
    assert_eq!(resolve_service_url(&None, &c, "other"), Ok("https://b".to_string()));
    assert_eq!(resolve_service_url(&Some("https://z".to_string()), &c, "other"), Ok("https://z".to_string()));
}

#[test]
fn commands_carry_their_arguments() {
    let c = Command::Tunnel(tunnel::Args { port: 3000, host: "127.0.0.1".to_string(), subdomain: None, service_url: None });
    match c {
        Command::Tunnel(a) => assert_eq!(a.port, 3000),
        _ => panic!("expected tunnel"),
    }
}

#[test]
fn dial_headers_of_both_handshakes() {
    let local = local_dial_headers("k==", "127.0.0.1:3000", &vec![header("Origin", "https://o")]);
    assert_eq!(
        local,
        vec![
            header("Sec-WebSocket-Key", "k=="),
            header("Sec-WebSocket-Version", "13"),
            header("Connection", "Upgrade"),
            header("Upgrade", "websocket"),
            header("Host", "127.0.0.1:3000"),
            header("Origin", "https://o"),
        ]
    );
    let bearer = bearer_dial_headers("Bearer t", "k2", "svc.example");
    assert_eq!(bearer[0], header("Authorization", "Bearer t"));
    assert_eq!(bearer[1], header("Sec-WebSocket-Key", "k2"));
    assert_eq!(bearer[5], header("Host", "svc.example"));
    assert_eq!(bearer.len(), 6);
}

#[test]
fn configuration_directory_choice() {
    let s = |v: &str| Some(v.to_string());
    assert_eq!(config_dir_from(s("/xdg"), s("/home/u")), s("/xdg"));
    assert_eq!(config_dir_from(s("relative"), s("/home/u")), s("/home/u/.config"));
    assert_eq!(config_dir_from(None, s("/home/u/")), s("/home/u/.config"));
    assert_eq!(config_dir_from(None, None), None);
    assert_eq!(config_dir_from(s("rel"), None), None);
}

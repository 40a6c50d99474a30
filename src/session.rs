//! Decisions of the session supervisor: the reconnection backoff, the reaction
//! to each bearer event, and the strings of the control-plane handshake.

use vstd::prelude::*;
use crate::codec::envelope_of;
use crate::envelope::Envelope;
use crate::message::{packed_root_data, Message, MessageError};
use vstd::string::{StrSliceExecFns, StringExecFns};

verus! {

pub const INITIAL_BACKOFF_MS: u64 = 1000;

pub const MAX_BACKOFF_MS: u64 = 60000;

pub open spec fn pow2(n: nat) -> nat
    decreases n,
{
    if n == 0 {
        1
    } else {
        2 * pow2((n - 1) as nat)
    }
}

pub open spec fn min(a: nat, b: nat) -> nat {
    if a <= b {
        a
    } else {
        b
    }
}

/// The backoff after one more failure: doubled, capped at `MAX_BACKOFF_MS`.
pub open spec fn next_backoff(ms: nat) -> nat {
    min(2 * ms, MAX_BACKOFF_MS as nat)
}

/// The backoff after `k` consecutive failures.
pub open spec fn backoff_after(k: nat) -> nat
    decreases k,
{
    if k == 0 {
        INITIAL_BACKOFF_MS as nat
    } else {
        next_backoff(backoff_after((k - 1) as nat))
    }
}

/// What the supervisor does after an attempt.
#[derive(Debug, Clone, Copy, PartialEq, Eq, Structural)]
pub enum Decision {
    /// The session closed cleanly: stop.
    Stop,
    /// The attempt failed: sleep this many milliseconds, then try again.
    RetryAfter(u64),
}

/// The reconnection policy of the supervisor.
pub struct Reconnect {
    backoff_ms: u64,
    failures: Ghost<nat>,
}

impl Reconnect {
    /// The sleep before the next retry.
    pub closed spec fn backoff_ms(&self) -> nat {
        self.backoff_ms as nat
    }

    /// Failures since the last session that reached the event loop.
    pub closed spec fn failures(&self) -> nat {
        self.failures@
    }

    #[verifier::type_invariant]
    closed spec fn wf(&self) -> bool {
        self.backoff_ms as nat == backoff_after(self.failures@) && self.backoff_ms <= MAX_BACKOFF_MS
    }

    pub fn new() -> (r: Reconnect)
        ensures
            r.failures() == 0,
            r.backoff_ms() == INITIAL_BACKOFF_MS,
    {
        Reconnect { backoff_ms: INITIAL_BACKOFF_MS, failures: Ghost(0) }
    }

    /// A session reached its event loop: the backoff starts over.
    pub fn on_established(&mut self)
        ensures
            final(self).failures() == 0,
            final(self).backoff_ms() == INITIAL_BACKOFF_MS,
    {
        *self = Reconnect { backoff_ms: INITIAL_BACKOFF_MS, failures: Ghost(0) };
    }

    /// Decides after an attempt: stop on a clean close; otherwise sleep the
    /// current backoff and double it for the next failure, up to the cap.
    pub fn after_attempt(&mut self, clean: bool) -> (r: Decision)
        ensures
            final(self).backoff_ms() == backoff_after(final(self).failures()),
            clean ==> r == Decision::Stop && *final(self) == *old(self),
            !clean ==> r == Decision::RetryAfter(backoff_after(old(self).failures()) as u64)
                && old(self).backoff_ms() == backoff_after(old(self).failures())
                && final(self).backoff_ms() == next_backoff(old(self).backoff_ms())
                && final(self).failures() == old(self).failures() + 1,
    {
        proof {
            use_type_invariant(&*self);
        }
        if clean {
            return Decision::Stop;
        }
        let sleep = self.backoff_ms;
        let doubled = self.backoff_ms * 2;
        let next = if doubled > MAX_BACKOFF_MS {
            MAX_BACKOFF_MS
        } else {
            doubled
        };
        *self = Reconnect { backoff_ms: next, failures: Ghost(self.failures@ + 1) };
        Decision::RetryAfter(sleep)
    }
}

/// After `k` consecutive failures from the start, or from a session that
/// reached its event loop, the next sleep is `min(1000 * 2^k, 60000)` ms; so
/// the sleeps before the first `k` retries are `min(1000 * 2^i, 60000)` for
/// `i` in `0..k`.
pub proof fn lemma_backoff_schedule(k: nat)
    ensures
        backoff_after(k) == min(1000 * pow2(k), 60000),
    decreases k,
{
    if k > 0 {
        lemma_backoff_schedule((k - 1) as nat);
        let p = pow2((k - 1) as nat);
        assert(1000 * pow2(k) == 2 * (1000 * p)) by (nonlinear_arith)
            requires
                pow2(k) == 2 * p,
        ;
    }
}

/// An event of the bearer WebSocket, or the user's interrupt.
#[derive(Debug)]
pub enum BearerEvent {
    Text(String),
    Binary(Vec<u8>),
    Ping(Vec<u8>),
    Pong,
    Close,
    /// A raw frame, never delivered to a reader.
    Raw,
    /// The bearer failed to read.
    Error(String),
    /// The bearer ended without a close.
    Ended,
    /// The user asked to stop.
    Interrupt,
}

/// What the event loop does with a bearer event.
#[derive(Debug)]
pub enum LoopStep {
    /// Nothing to do (a text notice, a pong, a raw frame).
    Continue,
    /// Handle this envelope on a task of its own.
    Dispatch(Envelope),
    /// The binary message was no envelope: report it and go on.
    Drop(MessageError),
    /// Answer the transport ping with this payload.
    SendPong(Vec<u8>),
    /// The service closed the session: end it cleanly.
    Finish,
    /// Close the bearer, then end the session cleanly.
    Shutdown,
    /// The session failed: retry after the backoff.
    Fail(String),
}

/// Decides what the event loop does with `ev`.
pub fn on_bearer_event(ev: BearerEvent) -> (r: LoopStep)
    ensures
        match ev {
            BearerEvent::Binary(data) => match packed_root_data(data@) {
                None => r matches LoopStep::Drop(MessageError::Serialization(_)),
                Some(layout) => match envelope_of(layout) {
                    Some(v) => r matches LoopStep::Dispatch(e) && e@ == v,
                    None => r matches LoopStep::Drop(MessageError::Malformed),
                },
            },
            BearerEvent::Ping(data) => r matches LoopStep::SendPong(p) && p@ == data@,
            BearerEvent::Close => r is Finish,
            BearerEvent::Interrupt => r is Shutdown,
            BearerEvent::Error(msg) => r matches LoopStep::Fail(m) && m@ == "WebSocket error: "@ + msg@,
            BearerEvent::Ended => r matches LoopStep::Fail(m) && m@
                == "WebSocket connection closed unexpectedly"@,
            _ => r is Continue,
        },
{
    match ev {
        BearerEvent::Binary(data) => match Message::from(data).read_with() {
            Ok(e) => LoopStep::Dispatch(e),
            Err(err) => LoopStep::Drop(err),
        },
        BearerEvent::Ping(data) => LoopStep::SendPong(data),
        BearerEvent::Close => LoopStep::Finish,
        BearerEvent::Interrupt => LoopStep::Shutdown,
        BearerEvent::Error(msg) => LoopStep::Fail(
            String::from_str("WebSocket error: ").concat(msg.as_str()),
        ),
        BearerEvent::Ended => LoopStep::Fail(
            String::from_str("WebSocket connection closed unexpectedly"),
        ),
        _ => LoopStep::Continue,
    }
}

pub open spec fn has_prefix(s: Seq<char>, p: Seq<char>) -> bool {
    p.len() <= s.len() && s.take(p.len() as int) == p
}

/// `url` with the scheme `http` rewritten to `ws` and `https` to `wss`.
pub open spec fn websocket_scheme(url: Seq<char>) -> Seq<char> {
    if has_prefix(url, "http://"@) {
        "ws://"@ + url.skip("http://"@.len() as int)
    } else if has_prefix(url, "https://"@) {
        "wss://"@ + url.skip("https://"@.len() as int)
    } else {
        url
    }
}

/// Whether `s` starts with `p`.
pub fn starts_with(s: &str, p: &str) -> (r: bool)
    ensures
        r == has_prefix(s@, p@),
{
    let n = p.unicode_len();
    let m = s.unicode_len();
    if n > m {
        return false;
    }
    let mut i: usize = 0;
    while i < n
        invariant
            n == p@.len(),
            m == s@.len(),
            n <= m,
            i <= n,
            forall|j: int| 0 <= j < i ==> s@[j] == p@[j],
        decreases n - i,
    {
        if s.get_char(i) != p.get_char(i) {
            assert(s@.take(n as int)[i as int] != p@[i as int]);
            return false;
        }
        i = i + 1;
    }
    assert(s@.take(n as int) =~= p@);
    true
}

/// Whether `a` and `b` are the same text.
pub fn same_text(a: &str, b: &str) -> (r: bool)
    ensures
        r == (a@ == b@),
{
    if a.unicode_len() != b.unicode_len() {
        return false;
    }
    let r = starts_with(a, b);
    assert(a@.take(a@.len() as int) =~= a@);
    r
}

/// Rewrites the scheme of `url` to its WebSocket counterpart.
pub fn to_websocket_scheme(url: &str) -> (r: String)
    ensures
        r@ == websocket_scheme(url@),
{
    if starts_with(url, "http://") {
        let n = "http://".unicode_len();
        let rest = url.substring_char(n, url.unicode_len());
        assert(rest@ =~= url@.skip("http://"@.len() as int));
        String::from_str("ws://").concat(rest)
    } else if starts_with(url, "https://") {
        let n = "https://".unicode_len();
        let rest = url.substring_char(n, url.unicode_len());
        assert(rest@ =~= url@.skip("https://"@.len() as int));
        String::from_str("wss://").concat(rest)
    } else {
        String::from_str(url)
    }
}

/// The control-plane endpoint that creates or re-attaches a tunnel.
pub fn connect_url(service_url: &str) -> (r: String)
    ensures
        r@ == service_url@ + "/_api/tunnel/connect"@,
{
    String::from_str(service_url).concat("/_api/tunnel/connect")
}

/// The bearer WebSocket endpoint of tunnel `tunnel_id`.
pub fn bearer_url(service_url: &str, tunnel_id: &str) -> (r: String)
    ensures
        r@ == websocket_scheme(service_url@) + "/_api/tunnel/connect?tunnelId="@ + tunnel_id@,
{
    to_websocket_scheme(service_url).concat("/_api/tunnel/connect?tunnelId=").concat(tunnel_id)
}

/// The value of the `Authorization` header that carries `token`.
pub fn bearer_authorization(token: &str) -> (r: String)
    ensures
        r@ == "Bearer "@ + token@,
{
    String::from_str("Bearer ").concat(token)
}

/// Where a request for `uri` goes on the local HTTP server at `addr`.
pub fn local_http_url(addr: &str, uri: &str) -> (r: String)
    ensures
        r@ == "http://"@ + addr@ + uri@,
{
    String::from_str("http://").concat(addr).concat(uri)
}

/// Where an upgrade for `uri` goes on the local WebSocket server at `addr`.
pub fn local_ws_url(addr: &str, uri: &str) -> (r: String)
    ensures
        r@ == "ws://"@ + addr@ + uri@,
{
    String::from_str("ws://").concat(addr).concat(uri)
}

/// The JSON string literal that stands for `s`.
pub uninterp spec fn json_string_of(s: Seq<char>) -> Seq<char>;

/// Relies on `serde_json::to_string` on a `str`: the quoted, escaped JSON
/// string, which depends on `s` alone; serialising a `str` into a `Vec` never
/// fails.
#[verifier::external_body]
fn json_string(s: &str) -> (r: Option<String>)
    ensures
        r is Some,
        r.unwrap()@ == json_string_of(s@),
{
    serde_json::to_string(s).ok()
}

/// The body of the connect request: the requested subdomain, if any.
pub fn connect_body(subdomain: &Option<String>) -> (r: Option<String>)
    ensures
        subdomain is None ==> r is Some && r.unwrap()@ == "{}"@,
        subdomain is Some ==> r is Some && r.unwrap()@ == "{\"subdomain\":"@ + json_string_of(
            subdomain.unwrap()@,
        ) + "}"@,
{
    match subdomain {
        None => Some(String::from_str("{}")),
        Some(name) => match json_string(name.as_str()) {
            Some(q) => Some(String::from_str("{\"subdomain\":").concat(q.as_str()).concat("}")),
            None => None,
        },
    }
}

/// The answer of the control plane to a connect request.
#[derive(Debug, Clone, PartialEq, Eq)]
pub struct ConnectResponse {
    pub tunnel_id: String,
    pub tunnel_url: String,
    pub subdomain: String,
}

/// Failures of the session, as the supervisor sees them.
#[derive(Debug, Clone, PartialEq, Eq)]
pub enum TunnelError {
    /// No service URL or token before the session starts.
    ConfigMissing(String),
    /// The control plane refused the connect request.
    ControlPlaneReject(String),
    /// The bearer could not be dialled, or failed.
    TransportFailure(String),
}

impl TunnelError {
    pub fn describe(&self) -> (r: String)
        ensures
            match self {
                TunnelError::ConfigMissing(m) => r@ == m@,
                TunnelError::ControlPlaneReject(m) => r@ == m@,
                TunnelError::TransportFailure(m) => r@ == m@,
            },
    {
        match self {
            TunnelError::ConfigMissing(m) => m.clone(),
            TunnelError::ControlPlaneReject(m) => m.clone(),
            TunnelError::TransportFailure(m) => m.clone(),
        }
    }
}

/// Judges the control plane's answer: a success status with a parsed body
/// gives the tunnel; a failure status gives its error message (or
/// `Unknown error` when it had none).
pub fn connect_outcome(
    success: bool,
    parsed: Option<ConnectResponse>,
    error: Option<String>,
) -> (r: Result<ConnectResponse, TunnelError>)
    ensures
        !success ==> (r matches Err(TunnelError::ControlPlaneReject(m)) && m@
            == "Failed to create tunnel: "@ + match error {
            Some(e) => e@,
            None => "Unknown error"@,
        }),
        success && parsed is Some ==> r == Ok::<ConnectResponse, TunnelError>(parsed.unwrap()),
        success && parsed is None ==> (r matches Err(TunnelError::ControlPlaneReject(m)) && m@
            == "Failed to parse tunnel response"@),
{
    if !success {
        let reason = match error {
            Some(e) => e,
            None => String::from_str("Unknown error"),
        };
        return Err(
            TunnelError::ControlPlaneReject(
                String::from_str("Failed to create tunnel: ").concat(reason.as_str()),
            ),
        );
    }
    match parsed {
        Some(info) => Ok(info),
        None => Err(TunnelError::ControlPlaneReject(String::from_str("Failed to parse tunnel response"))),
    }
}

/// `url::ParseError`, the failure of `url::Url::parse`, carried opaque.
#[verifier::external_type_specification]
#[verifier::external_body]
pub struct ExUrlParseError(url::ParseError);

/// The host of `url` as the URL standard parses it: `None` when it does not
/// parse, `Some(None)` when it has no host.
pub uninterp spec fn url_host_of(url: Seq<char>) -> Option<Option<Seq<char>>>;

/// Relies on `url::Url::parse` and `url::Url::host_str`.
#[verifier::external_body]
fn url_host(s: &str) -> (r: Result<Option<String>, url::ParseError>)
    ensures
        r is Ok <==> url_host_of(s@) is Some,
        r is Ok ==> match r.unwrap() {
            Some(h) => url_host_of(s@).unwrap() == Some(h@),
            None => url_host_of(s@).unwrap() is None,
        },
{
    let url = url::Url::parse(s)?;
    Ok(url.host_str().map(|h| h.to_string()))
}

/// The `Host` of the bearer handshake: the service's host, or `localhost`
/// when its URL has none; an error when the URL does not parse.
pub fn bearer_host(service_url: &str) -> (r: Result<String, TunnelError>)
    ensures
        match url_host_of(service_url@) {
            None => r matches Err(TunnelError::TransportFailure(_)),
            Some(None) => r matches Ok(h) && h@ == "localhost"@,
            Some(Some(h)) => r matches Ok(x) && x@ == h,
        },
{
    match url_host(service_url) {
        Ok(Some(h)) => Ok(h),
        Ok(None) => Ok(String::from_str("localhost")),
        Err(_) => Err(TunnelError::TransportFailure(String::from_str("Invalid service URL"))),
    }
}

} // verus!

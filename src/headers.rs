//! Header rules: ASCII case-insensitive names, the hop-by-hop filter applied
//! before forwarding to the local server, upgrade detection, and the headers
//! copied onto a local WebSocket dial.

use vstd::prelude::*;
use vstd::string::StringSliceAdditionalSpecFns;
use vstd::slice::slice_to_vec;
use crate::envelope::{headers_view, Header, HeaderView};

verus! {

pub open spec fn ascii_lower(b: u8) -> u8 {
    if 65 <= b && b <= 90 {
        (b + 32) as u8
    } else {
        b
    }
}

/// `a` and `b` are equal once ASCII letters are folded to lower case.
pub open spec fn ascii_eq_ic(a: Seq<u8>, b: Seq<u8>) -> bool {
    a.len() == b.len() && forall|i: int| 0 <= i < a.len() ==> ascii_lower(#[trigger] a[i])
        == ascii_lower(b[i])
}

/// The UTF-8 bytes of a header's name.
pub open spec fn name_bytes(h: HeaderView) -> Seq<u8> {
    vstd::utf8::encode_utf8(h.0)
}

/// The headers never forwarded to the local server.
pub open spec fn is_hop_by_hop(n: Seq<u8>) -> bool {
    ascii_eq_ic(n, "host".spec_bytes()) || ascii_eq_ic(n, "connection".spec_bytes())
        || ascii_eq_ic(n, "upgrade".spec_bytes()) || ascii_eq_ic(
        n,
        "transfer-encoding".spec_bytes(),
    ) || ascii_eq_ic(n, "accept-encoding".spec_bytes())
}

/// The inbound headers that a local WebSocket dial carries over.
pub open spec fn is_ws_negotiation(n: Seq<u8>) -> bool {
    ascii_eq_ic(n, "sec-websocket-protocol".spec_bytes()) || ascii_eq_ic(
        n,
        "sec-websocket-extensions".spec_bytes(),
    ) || ascii_eq_ic(n, "origin".spec_bytes())
}

/// The headers of `hs` that are not hop-by-hop, in order.
pub open spec fn end_to_end(hs: Seq<HeaderView>) -> Seq<HeaderView>
    decreases hs.len(),
{
    if hs.len() == 0 {
        seq![]
    } else {
        let last = hs.last();
        if is_hop_by_hop(name_bytes(last)) {
            end_to_end(hs.drop_last())
        } else {
            end_to_end(hs.drop_last()).push(last)
        }
    }
}

/// The header that asks the local server for no content coding.
pub open spec fn identity_encoding() -> HeaderView {
    ("accept-encoding"@, "identity".spec_bytes())
}

/// What is sent to the local server: the end-to-end headers, then `identity_encoding`.
pub open spec fn forwarded(hs: Seq<HeaderView>) -> Seq<HeaderView> {
    end_to_end(hs).push(identity_encoding())
}

/// The negotiation headers of `hs`, in order.
pub open spec fn negotiation(hs: Seq<HeaderView>) -> Seq<HeaderView>
    decreases hs.len(),
{
    if hs.len() == 0 {
        seq![]
    } else {
        let last = hs.last();
        if is_ws_negotiation(name_bytes(last)) {
            negotiation(hs.drop_last()).push(last)
        } else {
            negotiation(hs.drop_last())
        }
    }
}

/// Some header is `Upgrade: websocket`, compared without regard to ASCII case.
pub open spec fn asks_websocket(hs: Seq<HeaderView>) -> bool {
    exists|i: int|
        0 <= i < hs.len() && ascii_eq_ic(name_bytes(#[trigger] hs[i]), "upgrade".spec_bytes())
            && ascii_eq_ic(hs[i].1, "websocket".spec_bytes())
}

fn lower(b: u8) -> (r: u8)
    ensures
        r == ascii_lower(b),
{
    if 65 <= b && b <= 90 {
        b + 32
    } else {
        b
    }
}

/// Compares two byte strings without regard to ASCII case.
pub fn eq_ignore_case(a: &[u8], b: &[u8]) -> (r: bool)
    ensures
        r == ascii_eq_ic(a@, b@),
{
    if a.len() != b.len() {
        return false;
    }
    let mut i: usize = 0;
    while i < a.len()
        invariant
            a@.len() == b@.len(),
            i <= a@.len(),
            forall|j: int| 0 <= j < i ==> ascii_lower(#[trigger] a@[j]) == ascii_lower(b@[j]),
        decreases a@.len() - i,
    {
        if lower(a[i]) != lower(b[i]) {
            return false;
        }
        i = i + 1;
    }
    true
}

/// Whether the name is one of `host`, `connection`, `upgrade`,
/// `transfer-encoding` or `accept-encoding`, in any ASCII case.
pub fn hop_by_hop(name: &str) -> (r: bool)
    ensures
        r == is_hop_by_hop(name.spec_bytes()),
{
    let n = name.as_bytes();
    eq_ignore_case(n, "host".as_bytes()) || eq_ignore_case(n, "connection".as_bytes())
        || eq_ignore_case(n, "upgrade".as_bytes()) || eq_ignore_case(
        n,
        "transfer-encoding".as_bytes(),
    ) || eq_ignore_case(n, "accept-encoding".as_bytes())
}

fn ws_negotiation(name: &str) -> (r: bool)
    ensures
        r == is_ws_negotiation(name.spec_bytes()),
{
    let n = name.as_bytes();
    eq_ignore_case(n, "sec-websocket-protocol".as_bytes()) || eq_ignore_case(
        n,
        "sec-websocket-extensions".as_bytes(),
    ) || eq_ignore_case(n, "origin".as_bytes())
}

pub(crate) fn clone_header(h: &Header) -> (r: Header)
    ensures
        r@ == h@,
{
    Header { name: h.name.clone(), value: h.value.clone() }
}

/// The header list sent to the local server: every header but the hop-by-hop
/// ones, in order and with duplicates kept, then `accept-encoding: identity`.
pub fn forward_headers(hs: &Vec<Header>) -> (r: Vec<Header>)
    ensures
        headers_view(r@) == forwarded(headers_view(hs@)),
{
    let ghost hv = headers_view(hs@);
    let mut out: Vec<Header> = Vec::new();
    let mut i: usize = 0;
    while i < hs.len()
        invariant
            i <= hs@.len(),
            hv == headers_view(hs@),
            headers_view(out@) == end_to_end(hv.take(i as int)),
        decreases hs@.len() - i,
    {
        let h = &hs[i];
        assert(hv.take(i + 1).drop_last() =~= hv.take(i as int));
        assert(hv.take(i + 1).last() == h@);
        if !hop_by_hop(h.name.as_str()) {
            let c = clone_header(h);
            let ghost before = out@;
            out.push(c);
            assert(headers_view(out@) =~= headers_view(before).push(c@));
        }
        i = i + 1;
    }
    assert(hv.take(hs@.len() as int) =~= hv);
    let ghost before = out@;
    let id = Header { name: "accept-encoding".to_string(), value: slice_to_vec("identity".as_bytes()) };
    out.push(id);
    assert(headers_view(out@) =~= headers_view(before).push(id@));
    out
}

/// The inbound headers a local WebSocket dial carries over:
/// `Sec-WebSocket-Protocol`, `Sec-WebSocket-Extensions` and `Origin`, in order.
pub fn websocket_forward_headers(hs: &Vec<Header>) -> (r: Vec<Header>)
    ensures
        headers_view(r@) == negotiation(headers_view(hs@)),
{
    let ghost hv = headers_view(hs@);
    let mut out: Vec<Header> = Vec::new();
    let mut i: usize = 0;
    while i < hs.len()
        invariant
            i <= hs@.len(),
            hv == headers_view(hs@),
            headers_view(out@) == negotiation(hv.take(i as int)),
        decreases hs@.len() - i,
    {
        let h = &hs[i];
        assert(hv.take(i + 1).drop_last() =~= hv.take(i as int));
        assert(hv.take(i + 1).last() == h@);
        if ws_negotiation(h.name.as_str()) {
            let c = clone_header(h);
            let ghost before = out@;
            out.push(c);
            assert(headers_view(out@) =~= headers_view(before).push(c@));
        }
        i = i + 1;
    }
    assert(hv.take(hs@.len() as int) =~= hv);
    out
}

/// Whether the request asks for a WebSocket upgrade.
pub fn is_websocket_upgrade(hs: &Vec<Header>) -> (r: bool)
    ensures
        r == asks_websocket(headers_view(hs@)),
{
    let ghost hv = headers_view(hs@);
    let mut i: usize = 0;
    while i < hs.len()
        invariant
            i <= hs@.len(),
            hv == headers_view(hs@),
            forall|j: int|
                0 <= j < i ==> !(ascii_eq_ic(name_bytes(#[trigger] hv[j]), "upgrade".spec_bytes())
                    && ascii_eq_ic(hv[j].1, "websocket".spec_bytes())),
        decreases hs@.len() - i,
    {
        let h = &hs[i];
        assert(hv[i as int] == h@);
        if eq_ignore_case(h.name.as_str().as_bytes(), "upgrade".as_bytes()) && eq_ignore_case(
            h.value.as_slice(),
            "websocket".as_bytes(),
        ) {
            return true;
        }
        i = i + 1;
    }
    false
}

proof fn lemma_end_to_end_clean(hs: Seq<HeaderView>)
    ensures
        forall|j: int|
            0 <= j < end_to_end(hs).len() ==> !is_hop_by_hop(name_bytes(#[trigger] end_to_end(hs)[j])),
    decreases hs.len(),
{
    if hs.len() > 0 {
        let prev = end_to_end(hs.drop_last());
        lemma_end_to_end_clean(hs.drop_last());
        if !is_hop_by_hop(name_bytes(hs.last())) {
            assert forall|j: int| 0 <= j < prev.push(hs.last()).len() implies !is_hop_by_hop(
                name_bytes(#[trigger] prev.push(hs.last())[j]),
            ) by {
                if j < prev.len() {
                    assert(prev.push(hs.last())[j] == prev[j]);
                }
            }
        }
    }
}

/// What reaches the local server holds no header named `host`, `connection`,
/// `upgrade`, `transfer-encoding` or `accept-encoding` (in any ASCII case) but
/// one: the `accept-encoding: identity` that ends the list.
pub proof fn lemma_forward_filter(hs: Seq<HeaderView>)
    ensures
        forwarded(hs).last() == identity_encoding(),
        forall|j: int|
            0 <= j < forwarded(hs).len() - 1 ==> !is_hop_by_hop(
                name_bytes(#[trigger] forwarded(hs)[j]),
            ),
        forall|j: int|
            0 <= j < forwarded(hs).len() ==> (ascii_eq_ic(
                name_bytes(#[trigger] forwarded(hs)[j]),
                "accept-encoding".spec_bytes(),
            ) <==> j == forwarded(hs).len() - 1),
{
    lemma_end_to_end_clean(hs);
    let f = forwarded(hs);
    let e = end_to_end(hs);
    assert forall|j: int| 0 <= j < f.len() implies (ascii_eq_ic(
        name_bytes(#[trigger] f[j]),
        "accept-encoding".spec_bytes(),
    ) <==> j == f.len() - 1) by {
        if j < f.len() - 1 {
            assert(f[j] == e[j]);
            assert(!is_hop_by_hop(name_bytes(e[j])));
        } else {
            assert(name_bytes(f[j]) == "accept-encoding".spec_bytes());
        }
    }
    assert forall|j: int| 0 <= j < f.len() - 1 implies !is_hop_by_hop(name_bytes(#[trigger] f[j])) by {
        assert(f[j] == e[j]);
    }
}

fn text_header(name: &str, value: &str) -> (r: Header)
    ensures
        r@ == (name@, value.spec_bytes()),
{
    Header { name: name.to_string(), value: slice_to_vec(value.as_bytes()) }
}

/// The handshake headers of a WebSocket dial with key `key` to `host`.
pub open spec fn handshake_headers(key: Seq<char>, host: Seq<char>) -> Seq<HeaderView> {
    seq![
        ("Sec-WebSocket-Key"@, vstd::utf8::encode_utf8(key)),
        ("Sec-WebSocket-Version"@, "13".spec_bytes()),
        ("Connection"@, "Upgrade".spec_bytes()),
        ("Upgrade"@, "websocket".spec_bytes()),
        ("Host"@, vstd::utf8::encode_utf8(host)),
    ]
}

/// The headers of a dial to the local WebSocket server: the handshake with
/// the freshly generated `key` and the local `host`, then the negotiation
/// headers carried over from the inbound request.
pub fn local_dial_headers(key: &str, host: &str, negotiated: &Vec<Header>) -> (r: Vec<Header>)
    ensures
        headers_view(r@) == handshake_headers(key@, host@) + headers_view(negotiated@),
{
    let mut out: Vec<Header> = Vec::new();
    out.push(text_header("Sec-WebSocket-Key", key));
    out.push(text_header("Sec-WebSocket-Version", "13"));
    out.push(text_header("Connection", "Upgrade"));
    out.push(text_header("Upgrade", "websocket"));
    out.push(text_header("Host", host));
    let ghost head = out@;
    assert(headers_view(head) =~= handshake_headers(key@, host@));
    let mut i: usize = 0;
    while i < negotiated.len()
        invariant
            i <= negotiated@.len(),
            headers_view(head) == handshake_headers(key@, host@),
            headers_view(out@) == headers_view(head) + headers_view(negotiated@).take(i as int),
        decreases negotiated@.len() - i,
    {
        let ghost before = out@;
        let h = clone_header(&negotiated[i]);
        out.push(h);
        assert(headers_view(out@) =~= headers_view(before).push(h@));
        assert(headers_view(negotiated@).take(i + 1) =~= headers_view(negotiated@).take(i as int).push(
            negotiated@[i as int]@,
        ));
        i = i + 1;
    }
    assert(headers_view(negotiated@).take(negotiated@.len() as int) =~= headers_view(negotiated@));
    out
}

/// The headers of the bearer handshake: the bearer token, then the
/// WebSocket handshake with `key` to the service's `host`.
pub fn bearer_dial_headers(authorization: &str, key: &str, host: &str) -> (r: Vec<Header>)
    ensures
        headers_view(r@) == seq![("Authorization"@, authorization.spec_bytes())] + handshake_headers(
            key@,
            host@,
        ),
{
    let mut out: Vec<Header> = Vec::new();
    out.push(text_header("Authorization", authorization));
    out.push(text_header("Sec-WebSocket-Key", key));
    out.push(text_header("Sec-WebSocket-Version", "13"));
    out.push(text_header("Connection", "Upgrade"));
    out.push(text_header("Upgrade", "websocket"));
    out.push(text_header("Host", host));
    assert(headers_view(out@) =~= seq![("Authorization"@, authorization.spec_bytes())]
        + handshake_headers(key@, host@));
    out
}

} // verus!

//! Forwarding: the request handed to the local HTTP server for a completed
//! stream, and the frames that answer each outcome of a forward or a dial.

use vstd::prelude::*;
use vstd::string::StringSliceAdditionalSpecFns;
use vstd::utf8::encode_utf8;
use crate::envelope::{headers_view, Envelope, Header, PayloadView};
use crate::headers::{forward_headers, forwarded};
use crate::response::{
    bad_gateway_body, bad_gateway_frames, response_frame, response_frames, response_init,
    response_init_view, response_payloads, routed, strictly_increasing, SeqCounter,
};
use crate::session::local_http_url;
use crate::stream::{concat_chunks, PendingRequest};

verus! {

/// What the local HTTP server is asked.
#[derive(Debug)]
pub struct LocalRequest {
    pub method: String,
    pub url: String,
    pub headers: Vec<Header>,
    pub body: Vec<u8>,
}

/// What the local HTTP server answered.
#[derive(Debug)]
pub struct LocalResponse {
    pub status: u16,
    pub headers: Vec<Header>,
    pub body: Vec<u8>,
}

/// Whether `m` is a method the HTTP stack accepts.
pub uninterp spec fn http_method_valid(m: Seq<u8>) -> bool;

/// Relies on `http::Method::from_bytes`: it accepts a method by its bytes
/// alone, and never an empty one.
#[verifier::external_body]
fn method_valid(m: &str) -> (r: bool)
    ensures
        r == http_method_valid(m.spec_bytes()),
        m@.len() == 0 ==> !r,
{
    http::Method::from_bytes(m.as_bytes()).is_ok()
}

/// The request for the local server at `addr`: same method, the URI appended
/// verbatim, the forwarded headers and the whole body; `Err` with the cause
/// when the method is malformed.
pub fn prepare_forward(addr: &str, p: &PendingRequest) -> (r: Result<LocalRequest, String>)
    ensures
        http_method_valid(encode_utf8(p.method@)) ==> (r matches Ok(q) && q.method@ == p.method@
            && q.url@ == "http://"@ + addr@ + p.uri@ && headers_view(q.headers@) == forwarded(
            headers_view(p.headers@),
        ) && q.body@ == concat_chunks(p@.chunks)),
        !http_method_valid(encode_utf8(p.method@)) ==> (r matches Err(m) && m@
            == "Invalid HTTP method"@),
{
    if !method_valid(p.method.as_str()) {
        return Err("Invalid HTTP method".to_string());
    }
    Ok(
        LocalRequest {
            method: p.method.clone(),
            url: local_http_url(addr, p.uri.as_str()),
            headers: forward_headers(&p.headers),
            body: p.body(),
        },
    )
}

/// The frames that answer a forward: the local response relayed as is, or a
/// `502` naming the cause of the failure. `None` once `seqs` runs out.
pub fn respond(
    connection_id: u64,
    stream_id: u32,
    seqs: &mut SeqCounter,
    outcome: &Result<LocalResponse, String>,
) -> (r: Option<Vec<Envelope>>)
    ensures
        strictly_increasing(final(seqs).issued()),
        ({
            let ps = match outcome {
                Ok(resp) => response_payloads(resp.status, headers_view(resp.headers@), resp.body@),
                Err(cause) => response_payloads(502, Seq::empty(), bad_gateway_body(cause@)),
            };
            let first = old(seqs).next_value();
            if first + ps.len() <= 0x1_0000_0000 {
                &&& r is Some
                &&& r.unwrap()@.len() == ps.len()
                &&& forall|k: int|
                    0 <= k < ps.len() ==> (#[trigger] r.unwrap()@[k])@ == response_frame(
                        connection_id,
                        stream_id,
                        first,
                        ps,
                        k,
                    )
                &&& final(seqs).next_value() == first + ps.len()
                &&& final(seqs).issued() == old(seqs).issued() + Seq::new(
                    ps.len(),
                    |k: int| (first + k) as u32,
                )
            } else {
                r is None && *final(seqs) == *old(seqs)
            }
        }),
{
    match outcome {
        Ok(resp) => response_frames(
            connection_id,
            stream_id,
            seqs,
            resp.status,
            &resp.headers,
            resp.body.as_slice(),
        ),
        Err(cause) => {
            proof {
                reveal_strlit("Bad Gateway: ");
            }
            assert(bad_gateway_body(cause@).len() > 0);
            bad_gateway_frames(connection_id, stream_id, seqs, cause.as_str())
        },
    }
}

/// The head that accepts a WebSocket upgrade once the local dial succeeded:
/// status `101` with the local server's headers and no body.
pub fn upgrade_accepted(
    connection_id: u64,
    stream_id: u32,
    seqs: &mut SeqCounter,
    headers: &Vec<Header>,
) -> (r: Option<Envelope>)
    ensures
        old(seqs).next_value() <= u32::MAX ==> r is Some && r.unwrap()@ == routed(
            connection_id,
            stream_id,
            old(seqs).next_value() as u32,
            PayloadView::Http(response_init_view(101, headers_view(headers@), false)),
        ) && final(seqs).next_value() == old(seqs).next_value() + 1 && final(seqs).issued()
            == old(seqs).issued().push(old(seqs).next_value() as u32),
        old(seqs).next_value() > u32::MAX ==> r is None && *final(seqs) == *old(seqs),
        strictly_increasing(final(seqs).issued()),
{
    match seqs.take() {
        Some(seq) => Some(response_init(connection_id, stream_id, seq, 101, headers, false)),
        None => None,
    }
}

} // verus!

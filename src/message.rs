//! A bearer message: the envelope layout carried as the root data blob of a
//! Cap'n Proto message in packed encoding.

use vstd::prelude::*;
use crate::codec::{
    decode_envelope, encode_envelope, envelope_bytes, envelope_fits, envelope_of,
    lemma_envelope_round_trip,
};
use crate::envelope::{Envelope, EnvelopeView};

verus! {

/// Each bearer message must stay within 1 MiB.
pub const SIZE_LIMIT: usize = 1_048_576;

/// `capnp::Error`, carried opaque by `MessageError::Serialization`.
#[verifier::external_type_specification]
#[verifier::external_body]
pub struct ExCapnpError(capnp::Error);

/// The packed message whose root is the data blob `data`.
pub uninterp spec fn packed_message(data: Seq<u8>) -> Seq<u8>;

/// The root data blob of the packed message `bytes`, if it holds one.
pub uninterp spec fn packed_root_data(bytes: Seq<u8>) -> Option<Seq<u8>>;

/// Relies on `capnp::message::Builder::set_root` with a `capnp::data` root and
/// `capnp::serialize_packed::write_message`: what is written depends on `data`
/// alone; setting a data root on a fresh builder and writing into a `Vec` never
/// fail; and `read_packed` gives the data back. A data list must stay below
/// 2^29 bytes (capnp asserts it), hence the bound.
#[verifier::external_body]
fn write_packed(data: &[u8]) -> (r: Result<Vec<u8>, capnp::Error>)
    requires
        data@.len() <= SIZE_LIMIT,
    ensures
        r is Ok,
        r.unwrap()@ == packed_message(data@),
        packed_root_data(r.unwrap()@) == Some(data@),
{
    let mut message = capnp::message::Builder::new_default();
    message.set_root::<capnp::data::Owned>(data)?;
    let mut buf: Vec<u8> = Vec::new();
    capnp::serialize_packed::write_message(&mut buf, &message)?;
    Ok(buf)
}

/// Relies on `capnp::serialize_packed::read_message` with default reader options
/// and `get_root` as `capnp::data`: it succeeds exactly when `bytes` is a packed
/// message with a data root, and yields that data.
#[verifier::external_body]
fn read_packed(bytes: &[u8]) -> (r: Result<Vec<u8>, capnp::Error>)
    ensures
        r is Ok <==> packed_root_data(bytes@) is Some,
        r is Ok ==> r.unwrap()@ == packed_root_data(bytes@).unwrap(),
{
    let reader = capnp::serialize_packed::read_message(bytes, capnp::message::ReaderOptions::new())?;
    let data: capnp::data::Reader = reader.get_root()?;
    Ok(data.to_vec())
}

/// Relies on `std::time::SystemTime::now`: milliseconds since the Unix epoch,
/// or `0` for a clock set before it.
#[verifier::external_body]
fn now_ms() -> (r: u64) {
    match std::time::SystemTime::now().duration_since(std::time::UNIX_EPOCH) {
        Ok(d) => d.as_millis() as u64,
        Err(_) => 0,
    }
}

#[derive(Debug)]
pub enum MessageError {
    /// The packed framing could not be written or read.
    Serialization(capnp::Error),
    /// The framing held bytes that are not one envelope.
    Malformed,
    /// The envelope's layout is larger than `SIZE_LIMIT`; carries its size.
    SizeLimit(usize),
}

impl MessageError {
    pub fn describe(&self) -> (r: String)
        ensures
            match self {
                MessageError::Serialization(_) => r@ == "Failed to (de)serialize message"@,
                MessageError::Malformed => r@ == "Malformed envelope"@,
                MessageError::SizeLimit(_) => r@ == "Each message size should be less than 1 MiB"@,
            },
    {
        match self {
            MessageError::Serialization(_) => "Failed to (de)serialize message".to_string(),
            MessageError::Malformed => "Malformed envelope".to_string(),
            MessageError::SizeLimit(_) => "Each message size should be less than 1 MiB".to_string(),
        }
    }
}

/// The bytes of one bearer message.
#[derive(Debug)]
pub struct Message {
    inner: Vec<u8>,
}

impl View for Message {
    type V = Seq<u8>;

    closed spec fn view(&self) -> Seq<u8> {
        self.inner@
    }
}

/// The envelope `e` stamped with the time `ts`.
pub open spec fn stamped(e: EnvelopeView, ts: u64) -> EnvelopeView {
    EnvelopeView { timestamp_ms: ts, ..e }
}

/// `r` is what packing `e` gives: `SizeLimit` with the offending size when
/// the layout, or else the packed message, exceeds `SIZE_LIMIT`; otherwise
/// the packed layout, whose root data is that layout.
pub open spec fn built(r: &Result<Message, MessageError>, e: EnvelopeView) -> bool {
    let l = envelope_bytes(e);
    let p = packed_message(l);
    &&& l.len() > SIZE_LIMIT ==> (*r matches Err(MessageError::SizeLimit(n)) && n == l.len())
    &&& l.len() <= SIZE_LIMIT && p.len() > SIZE_LIMIT ==> (*r matches Err(
        MessageError::SizeLimit(n),
    ) && n == p.len())
    &&& l.len() <= SIZE_LIMIT && p.len() <= SIZE_LIMIT ==> (*r matches Ok(m) && m@ == p
        && packed_root_data(m@) == Some(l))
    &&& *r matches Ok(m) ==> m@.len() <= SIZE_LIMIT
}

/// `r` is what packing `e` gives once stamped with some time.
pub open spec fn built_stamped(r: &Result<Message, MessageError>, e: EnvelopeView) -> bool {
    exists|ts: u64| built(r, #[trigger] stamped(e, ts))
}

impl Message {
    /// Wraps bytes received from the bearer.
    pub fn from(value: Vec<u8>) -> (r: Message)
        ensures
            r@ == value@,
    {
        Message { inner: value }
    }

    /// The bytes to send on the bearer.
    pub fn into_inner(&self) -> (r: Vec<u8>)
        ensures
            r@ == self@,
    {
        self.inner.clone()
    }

    /// Packs `e`, failing with `SizeLimit` when its layout or its packed
    /// message exceeds `SIZE_LIMIT`.
    pub fn build_with(e: &Envelope) -> (r: Result<Message, MessageError>)
        ensures
            built(&r, e@),
    {
        let layout = encode_envelope(e);
        if layout.len() > SIZE_LIMIT {
            return Err(MessageError::SizeLimit(layout.len()));
        }
        match write_packed(layout.as_slice()) {
            Ok(bytes) => if bytes.len() > SIZE_LIMIT {
                Err(MessageError::SizeLimit(bytes.len()))
            } else {
                Ok(Message { inner: bytes })
            },
            Err(err) => Err(MessageError::Serialization(err)),
        }
    }

    /// Stamps `e` with the current time, then packs it as `build_with` does.
    pub fn build_stamped(e: Envelope) -> (r: Result<Message, MessageError>)
        ensures
            built_stamped(&r, e@),
    {
        let ts = now_ms();
        let ghost orig = e@;
        let mut s = e;
        s.timestamp_ms = ts;
        assert(s@ == stamped(orig, ts));
        Message::build_with(&s)
    }

    /// Unpacks the envelope; `Serialization` when the framing is not a packed
    /// message with a data root, `Malformed` when that data is not one envelope.
    pub fn read_with(&self) -> (r: Result<Envelope, MessageError>)
        ensures
            match packed_root_data(self@) {
                None => r matches Err(MessageError::Serialization(_)),
                Some(data) => match envelope_of(data) {
                    Some(v) => r matches Ok(e) && e@ == v,
                    None => r matches Err(MessageError::Malformed),
                },
            },
    {
        let data = match read_packed(self.inner.as_slice()) {
            Ok(d) => d,
            Err(err) => return Err(MessageError::Serialization(err)),
        };
        match decode_envelope(data.as_slice()) {
            Some(e) => Ok(e),
            None => Err(MessageError::Malformed),
        }
    }
}

/// What `build_with` packs from an envelope whose layout and packed message
/// stay within `SIZE_LIMIT` and whose lengths fit their fields, `read_with`
/// reads back as that envelope.
pub proof fn lemma_message_round_trip(r: &Result<Message, MessageError>, e: EnvelopeView)
    requires
        built(r, e),
        envelope_fits(e),
        envelope_bytes(e).len() <= SIZE_LIMIT,
        packed_message(envelope_bytes(e)).len() <= SIZE_LIMIT,
    ensures
        *r matches Ok(m) && packed_root_data(m@) == Some(envelope_bytes(e)) && envelope_of(
            envelope_bytes(e),
        ) == Some(e),
{
    lemma_envelope_round_trip(e);
}

} // verus!

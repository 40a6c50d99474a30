//! Byte-level building blocks of the envelope layout: little-endian unsigned
//! integers, booleans, length-prefixed byte strings and UTF-8 text.

use vstd::prelude::*;
use vstd::utf8::*;
use vstd::slice::slice_to_vec;

verus! {

/// `256` raised to the power `n`.
pub open spec fn pow256(n: nat) -> nat
    decreases n,
{
    if n == 0 {
        1
    } else {
        256 * pow256((n - 1) as nat)
    }
}

/// The low `n` bytes of `v`, least significant first.
pub open spec fn le_bytes(v: nat, n: nat) -> Seq<u8>
    decreases n,
{
    if n == 0 {
        seq![]
    } else {
        seq![(v % 256) as u8] + le_bytes(v / 256, (n - 1) as nat)
    }
}

/// The number whose little-endian bytes are `s`.
pub open spec fn le_value(s: Seq<u8>) -> nat
    decreases s.len(),
{
    if s.len() == 0 {
        0
    } else {
        s[0] as nat + 256 * le_value(s.drop_first())
    }
}

/// A boolean is one byte, `0` or `1`.
pub open spec fn bool_bytes(b: bool) -> Seq<u8> {
    if b {
        seq![1u8]
    } else {
        seq![0u8]
    }
}

/// A byte string is its length in four bytes, then its bytes.
pub open spec fn bytes_field(b: Seq<u8>) -> Seq<u8> {
    le_bytes(b.len(), 4) + b
}

/// Text is the byte string of its UTF-8 encoding.
pub open spec fn text_field(t: Seq<char>) -> Seq<u8> {
    bytes_field(encode_utf8(t))
}

/// Reads an `n`-byte little-endian integer; yields the value and the rest.
#[verifier::opaque]
pub open spec fn parse_uint(s: Seq<u8>, n: nat) -> Option<(nat, Seq<u8>)> {
    if s.len() >= n {
        Some((le_value(s.take(n as int)), s.skip(n as int)))
    } else {
        None
    }
}

#[verifier::opaque]
pub open spec fn parse_bool(s: Seq<u8>) -> Option<(bool, Seq<u8>)> {
    if s.len() >= 1 && s[0] <= 1 {
        Some((s[0] == 1, s.skip(1)))
    } else {
        None
    }
}

#[verifier::opaque]
pub open spec fn parse_bytes(s: Seq<u8>) -> Option<(Seq<u8>, Seq<u8>)> {
    match parse_uint(s, 4) {
        Some((n, r)) => if r.len() >= n {
            Some((r.take(n as int), r.skip(n as int)))
        } else {
            None
        },
        None => None,
    }
}

/// Text must be valid UTF-8.
#[verifier::opaque]
pub open spec fn parse_text(s: Seq<u8>) -> Option<(Seq<char>, Seq<u8>)> {
    match parse_bytes(s) {
        Some((b, r)) => if valid_utf8(b) {
            Some((decode_utf8(b), r))
        } else {
            None
        },
        None => None,
    }
}

pub proof fn lemma_pow256_mono(a: nat, b: nat)
    requires
        a <= b,
    ensures
        pow256(a) <= pow256(b),
        pow256(a) >= 1,
    decreases b,
{
    if b > a {
        lemma_pow256_mono(a, (b - 1) as nat);
    } else if a > 0 {
        lemma_pow256_mono((a - 1) as nat, (a - 1) as nat);
    }
}

pub proof fn lemma_pow256_facts()
    ensures
        pow256(1) == 0x100,
        pow256(2) == 0x1_0000,
        pow256(4) == 0x1_0000_0000,
        pow256(8) == 0x1_0000_0000_0000_0000,
{
    reveal_with_fuel(pow256, 9);
}

pub proof fn lemma_le_bytes_len(v: nat, n: nat)
    ensures
        le_bytes(v, n).len() == n,
    decreases n,
{
    if n > 0 {
        lemma_le_bytes_len(v / 256, (n - 1) as nat);
    }
}

pub proof fn lemma_le_value_bound(s: Seq<u8>)
    ensures
        le_value(s) < pow256(s.len()),
    decreases s.len(),
{
    if s.len() > 0 {
        let r = s.drop_first();
        lemma_le_value_bound(r);
        let a = s[0] as nat;
        let v = le_value(r);
        let p = pow256(r.len());
        assert(a + 256 * v < 256 * p) by (nonlinear_arith)
            requires
                a < 256,
                v < p,
        ;
    }
}

pub proof fn lemma_le_round_trip(v: nat, n: nat)
    requires
        v < pow256(n),
    ensures
        le_value(le_bytes(v, n)) == v,
        le_bytes(v, n).len() == n,
    decreases n,
{
    lemma_le_bytes_len(v, n);
    if n > 0 {
        let p = pow256((n - 1) as nat);
        assert(v / 256 < p) by (nonlinear_arith)
            requires
                v < 256 * p,
        ;
        lemma_le_round_trip(v / 256, (n - 1) as nat);
        assert(le_bytes(v, n).drop_first() =~= le_bytes(v / 256, (n - 1) as nat));
    }
}

pub proof fn lemma_uint_round_trip(v: nat, n: nat, rest: Seq<u8>)
    requires
        v < pow256(n),
    ensures
        parse_uint(le_bytes(v, n) + rest, n) == Some((v, rest)),
{
    reveal(parse_uint);
    lemma_le_round_trip(v, n);
    let s = le_bytes(v, n) + rest;
    assert(s.take(n as int) =~= le_bytes(v, n));
    assert(s.skip(n as int) =~= rest);
}

pub proof fn lemma_bool_round_trip(b: bool, rest: Seq<u8>)
    ensures
        parse_bool(bool_bytes(b) + rest) == Some((b, rest)),
{
    reveal(parse_bool);
    assert((bool_bytes(b) + rest).skip(1) =~= rest);
}

pub proof fn lemma_bytes_round_trip(b: Seq<u8>, rest: Seq<u8>)
    requires
        b.len() < pow256(4),
    ensures
        parse_bytes(bytes_field(b) + rest) == Some((b, rest)),
{
    reveal(parse_bytes);
    reveal(parse_uint);
    lemma_uint_round_trip(b.len(), 4, b + rest);
    assert(bytes_field(b) + rest =~= le_bytes(b.len(), 4) + (b + rest));
    assert((b + rest).take(b.len() as int) =~= b);
    assert((b + rest).skip(b.len() as int) =~= rest);
}

pub proof fn lemma_text_round_trip(t: Seq<char>, rest: Seq<u8>)
    requires
        encode_utf8(t).len() < pow256(4),
    ensures
        parse_text(text_field(t) + rest) == Some((t, rest)),
{
    reveal(parse_text);
    lemma_bytes_round_trip(encode_utf8(t), rest);
    encode_utf8_valid_utf8(t);
    encode_utf8_decode_utf8(t);
}

/// Appends the low `n` bytes of `v`, least significant first.
pub fn put_uint(out: &mut Vec<u8>, v: u64, n: usize)
    requires
        n <= 8,
    ensures
        final(out)@ == old(out)@ + le_bytes(v as nat, n as nat),
{
    let ghost start = out@;
    let mut x: u64 = v;
    let mut i: usize = 0;
    while i < n
        invariant
            i <= n,
            start + le_bytes(v as nat, n as nat) == out@ + le_bytes(x as nat, (n - i) as nat),
        decreases n - i,
    {
        let ghost prev = out@;
        let b = (x % 256) as u8;
        out.push(b);
        assert(le_bytes(x as nat, (n - i) as nat) == seq![b] + le_bytes(
            (x / 256) as nat,
            (n - i - 1) as nat,
        ));
        assert(prev + (seq![b] + le_bytes((x / 256) as nat, (n - i - 1) as nat)) =~= out@
            + le_bytes((x / 256) as nat, (n - i - 1) as nat));
        x = x / 256;
        i = i + 1;
    }
    assert(out@ + le_bytes(x as nat, 0) =~= out@);
}

pub fn put_bool(out: &mut Vec<u8>, b: bool)
    ensures
        final(out)@ == old(out)@ + bool_bytes(b),
{
    let ghost start = out@;
    if b {
        out.push(1u8);
    } else {
        out.push(0u8);
    }
    assert(out@ =~= start + bool_bytes(b));
}

pub fn put_bytes(out: &mut Vec<u8>, b: &[u8])
    ensures
        final(out)@ == old(out)@ + bytes_field(b@),
{
    let ghost start = out@;
    put_uint(out, b.len() as u64, 4);
    out.extend_from_slice(b);
    assert(out@ =~= start + bytes_field(b@));
}

pub fn put_text(out: &mut Vec<u8>, t: &str)
    ensures
        final(out)@ == old(out)@ + text_field(t@),
{
    put_bytes(out, t.as_bytes());
}

/// Reads an `n`-byte little-endian integer at `pos`; yields it and the position after it.
pub fn read_uint(buf: &[u8], pos: usize, n: usize) -> (r: Option<(u64, usize)>)
    requires
        pos <= buf@.len(),
        n <= 8,
    ensures
        match parse_uint(buf@.skip(pos as int), n as nat) {
            Some((v, rest)) => r is Some && r.unwrap().0 as nat == v && r.unwrap().1 <= buf@.len()
                && buf@.skip(r.unwrap().1 as int) == rest,
            None => r is None,
        },
{
    reveal(parse_uint);
    if buf.len() - pos < n {
        return None;
    }
    proof {
        lemma_pow256_facts();
    }
    let len = buf.len();
    let mut acc: u64 = 0;
    let mut i: usize = n;
    while i > 0
        invariant
            i <= n <= 8,
            len == buf@.len(),
            pos + n <= buf@.len(),
            acc as nat == le_value(buf@.subrange(pos + i, pos + n)),
            pow256(8) == 0x1_0000_0000_0000_0000,
        decreases i,
    {
        i = i - 1;
        let ghost tail = buf@.subrange(pos + i + 1, pos + n);
        let ghost cur = buf@.subrange(pos + i, pos + n);
        assert(cur.drop_first() =~= tail);
        proof {
            lemma_le_value_bound(tail);
            lemma_pow256_mono(tail.len(), 7);
            assert(pow256(8) == 256 * pow256(7));
        }
        let b = buf[pos + i];
        assert(acc * 256 + b < pow256(8)) by (nonlinear_arith)
            requires
                acc < pow256(7),
                b < 256,
                pow256(8) == 256 * pow256(7),
        ;
        acc = b as u64 + 256 * acc;
    }
    assert(buf@.skip(pos as int).take(n as int) =~= buf@.subrange(pos as int, pos + n));
    assert(buf@.skip(pos as int).skip(n as int) =~= buf@.skip(pos + n));
    Some((acc, pos + n))
}

pub fn read_bool(buf: &[u8], pos: usize) -> (r: Option<(bool, usize)>)
    requires
        pos <= buf@.len(),
    ensures
        match parse_bool(buf@.skip(pos as int)) {
            Some((v, rest)) => r is Some && r.unwrap().0 == v && r.unwrap().1 <= buf@.len() && buf@.skip(
                r.unwrap().1 as int,
            ) == rest,
            None => r is None,
        },
{
    reveal(parse_bool);
    if pos < buf.len() && buf[pos] <= 1 {
        assert(buf@.skip(pos as int).skip(1) =~= buf@.skip(pos + 1));
        Some((buf[pos] == 1, pos + 1))
    } else {
        None
    }
}

/// Reads a byte string at `pos`.
pub fn read_bytes(buf: &[u8], pos: usize) -> (r: Option<(Vec<u8>, usize)>)
    requires
        pos <= buf@.len(),
    ensures
        match parse_bytes(buf@.skip(pos as int)) {
            Some((v, rest)) => r is Some && r.unwrap().0@ == v && r.unwrap().1 <= buf@.len() && buf@.skip(
                r.unwrap().1 as int,
            ) == rest,
            None => r is None,
        },
{
    reveal(parse_bytes);
    let (n, p) = match read_uint(buf, pos, 4) {
        Some(x) => x,
        None => return None,
    };
    if ((buf.len() - p) as u64) < n {
        return None;
    }
    let end = p + n as usize;
    let v = slice_to_vec(&buf[p..end]);
    assert(buf@.skip(p as int).take(n as int) =~= buf@.subrange(p as int, end as int));
    assert(buf@.skip(p as int).skip(n as int) =~= buf@.skip(end as int));
    Some((v, end))
}

/// Relies on `String::from_utf8`: it succeeds exactly on valid UTF-8 and then
/// holds the characters those bytes encode.
#[verifier::external_body]
pub(crate) fn string_from_utf8(b: Vec<u8>) -> (r: Option<String>)
    ensures
        r is Some <==> valid_utf8(b@),
        r is Some ==> r.unwrap()@ == decode_utf8(b@),
{
    String::from_utf8(b).ok()
}

/// Reads UTF-8 text at `pos`.
pub fn read_text(buf: &[u8], pos: usize) -> (r: Option<(String, usize)>)
    requires
        pos <= buf@.len(),
    ensures
        match parse_text(buf@.skip(pos as int)) {
            Some((v, rest)) => r is Some && r.unwrap().0@ == v && r.unwrap().1 <= buf@.len() && buf@.skip(
                r.unwrap().1 as int,
            ) == rest,
            None => r is None,
        },
{
    reveal(parse_text);
    let (b, p) = match read_bytes(buf, pos) {
        Some(x) => x,
        None => return None,
    };
    match string_from_utf8(b) {
        Some(s) => Some((s, p)),
        None => None,
    }
}

} // verus!

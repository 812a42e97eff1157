//! Framing of the byte stream: every message body goes out behind a 4-byte
//! big-endian length.
use vstd::prelude::*;

verus! {

/// The 4 big-endian bytes of `n`.
pub open spec fn be_bytes(n: u32) -> Seq<u8> {
    seq![
        (n / 0x100_0000) as u8,
        ((n / 0x1_0000) % 0x100) as u8,
        ((n / 0x100) % 0x100) as u8,
        (n % 0x100) as u8,
    ]
}

/// The number that 4 big-endian bytes stand for.
pub open spec fn be_value(b: Seq<u8>) -> int
    recommends
        b.len() >= 4,
{
    b[0] * 0x100_0000 + b[1] * 0x1_0000 + b[2] * 0x100 + b[3]
}

/// The length a header announces for a body of `len` bytes: the length
/// modulo 2^32, as `as u32` gives it.
pub open spec fn announced_len(len: nat) -> u32 {
    (len % 0x1_0000_0000) as u32
}

/// The frame of a body: its announced length, then the body.
pub open spec fn frame(body: Seq<u8>) -> Seq<u8> {
    be_bytes(announced_len(body.len())) + body
}

/// What a buffer starts with: `None` while it holds no whole frame, else the
/// body of its first frame and the number of bytes that frame takes.
pub open spec fn first_frame(buf: Seq<u8>) -> Option<(Seq<u8>, nat)> {
    if buf.len() < 4 {
        None
    } else if buf.len() < 4 + be_value(buf) {
        None
    } else {
        let n = be_value(buf);
        Some((buf.subrange(4, 4 + n), (4 + n) as nat))
    }
}

proof fn lemma_be_value_of_bytes(n: u32)
    ensures
        be_value(be_bytes(n)) == n,
        be_bytes(n).len() == 4,
{
    let b = be_bytes(n);
    assert(b[0] == n / 0x100_0000);
    assert(b[1] == (n / 0x1_0000) % 0x100);
    assert(b[2] == (n / 0x100) % 0x100);
    assert(b[3] == n % 0x100);
    assert((n / 0x100_0000) * 0x100_0000 + ((n / 0x1_0000) % 0x100) * 0x1_0000 + ((n / 0x100)
        % 0x100) * 0x100 + n % 0x100 == n) by (nonlinear_arith);
}

/// The header announcing a body of `len` bytes.
pub fn frame_header(len: u32) -> (r: Vec<u8>)
    ensures
        r@ == be_bytes(len),
{
    let mut r: Vec<u8> = Vec::new();
    r.push((len / 0x100_0000) as u8);
    r.push(((len / 0x1_0000) % 0x100) as u8);
    r.push(((len / 0x100) % 0x100) as u8);
    r.push((len % 0x100) as u8);
    assert(r@ =~= be_bytes(len));
    r
}

/// The body length a 4-byte header announces.
pub fn frame_body_len(header: &[u8]) -> (n: u32)
    requires
        header@.len() == 4,
    ensures
        n == be_value(header@),
{
    (header[0] as u32) * 0x100_0000 + (header[1] as u32) * 0x1_0000 + (header[2] as u32) * 0x100
        + (header[3] as u32)
}

/// The frame of a body: a header announcing its length, then the body.
pub fn encode_frame(body: &[u8]) -> (r: Vec<u8>)
    ensures
        r@ == frame(body@),
{
    let blen = body.len();
    let len = #[verifier::truncate] (blen as u32);
    assert(len == ((blen as u64) % 0x1_0000_0000u64) as u32) by (bit_vector)
        requires
            len == #[verifier::truncate] (blen as u32),
    ;
    let mut r = frame_header(len);
    let n = body.len();
    for i in 0..n
        invariant
            n == body@.len(),
            r@ == be_bytes(len) + body@.take(i as int),
    {
        r.push(body[i]);
        assert(be_bytes(len) + body@.take(i + 1) =~= (be_bytes(len) + body@.take(i as int)).push(
            body@[i as int],
        ));
    }
    assert(body@.take(n as int) =~= body@);
    r
}

/// Takes the first frame off a buffer: its body and the bytes it takes, or
/// `None` while the buffer holds no whole frame.
pub fn decode_frame(buf: &[u8]) -> (r: Option<(Vec<u8>, usize)>)
    ensures
        match r {
            Some((body, used)) => first_frame(buf@) == Some((body@, used as nat)),
            None => first_frame(buf@) is None,
        },
{
    if buf.len() < 4 {
        return None;
    }
    let n = (buf[0] as u32) * 0x100_0000 + (buf[1] as u32) * 0x1_0000 + (buf[2] as u32) * 0x100
        + (buf[3] as u32);
    let avail = buf.len() - 4;
    if avail < n as usize {
        return None;
    }
    let n = n as usize;
    let mut body: Vec<u8> = Vec::new();
    for i in 0..n
        invariant
            n + 4 <= buf.len(),
            body@ == buf@.subrange(4, 4 + i as int),
    {
        body.push(buf[4 + i]);
        assert(buf@.subrange(4, 4 + i + 1) =~= buf@.subrange(4, 4 + i as int).push(buf@[4 + i]));
    }
    Some((body, n + 4))
}

/// Frames come apart as they were put together: the first frame of a buffer
/// that starts with the frame of a body is that body, whatever follows, for
/// every body shorter than 2^32 bytes.
pub proof fn lemma_decode_encoded(body: Seq<u8>, rest: Seq<u8>)
    requires
        body.len() < 0x1_0000_0000,
    ensures
        first_frame(frame(body) + rest) == Some((body, (body.len() + 4) as nat)),
{
    let len = announced_len(body.len());
    lemma_be_value_of_bytes(len);
    let buf = frame(body) + rest;
    assert(buf.subrange(0, 4) =~= be_bytes(len));
    assert(be_value(buf) == be_value(be_bytes(len))) by {
        assert(buf[0] == be_bytes(len)[0]);
        assert(buf[1] == be_bytes(len)[1]);
        assert(buf[2] == be_bytes(len)[2]);
        assert(buf[3] == be_bytes(len)[3]);
    }
    assert(len == body.len());
    assert(buf.subrange(4, 4 + body.len() as int) =~= body);
}

} // verus!

//! The wire format: a fixed-width header followed by the body it announces.
//!
//! A header is two magic bytes, one byte of message type and the body length
//! as eight bytes, most significant first.

use vstd::prelude::*;
use vstd::slice::slice_subrange;
use crate::error::Error;

verus! {

/// Number of bytes of an encoded header.
pub const HEADER_LEN: usize = 11;

/// First byte of every header.
pub const MAGIC_0: u8 = 0x1e;

/// Second byte of every header.
pub const MAGIC_1: u8 = 0xc5;

/// The tag that tells the peer how to read a body. Its meaning belongs to the
/// application.
#[derive(Clone, Copy, Debug, PartialEq, Eq, Structural)]
pub struct MsgType(pub u8);

/// What precedes every body on the wire.
#[derive(Clone, Copy, Debug, PartialEq, Eq, Structural)]
pub struct MsgHeader {
    /// Type of the message that follows.
    pub msg_type: MsgType,
    /// Number of body bytes that follow the header.
    pub msg_len: u64,
}

/// The eight bytes of `x`, most significant first: each byte is what is left
/// of `x` after the bytes behind it have been divided away.
pub open spec fn be_bytes(x: u64) -> Seq<u8> {
    let q6 = x / 256;
    let q5 = q6 / 256;
    let q4 = q5 / 256;
    let q3 = q4 / 256;
    let q2 = q3 / 256;
    let q1 = q2 / 256;
    let q0 = q1 / 256;
    seq![
        q0 as u8,
        (q1 % 256) as u8,
        (q2 % 256) as u8,
        (q3 % 256) as u8,
        (q4 % 256) as u8,
        (q5 % 256) as u8,
        (q6 % 256) as u8,
        (x % 256) as u8,
    ]
}

/// The number that eight bytes spell, most significant first.
pub open spec fn be_value(s: Seq<u8>) -> int
    recommends
        s.len() == 8,
{
    ((((((s[0] * 256 + s[1]) * 256 + s[2]) * 256 + s[3]) * 256 + s[4]) * 256 + s[5]) * 256
        + s[6]) * 256 + s[7]
}

/// The bytes of a header on the wire.
pub open spec fn header_bytes(h: MsgHeader) -> Seq<u8> {
    seq![MAGIC_0, MAGIC_1, h.msg_type.0] + be_bytes(h.msg_len)
}

/// The header that `s` spells, if it is exactly one well-formed header.
pub open spec fn parse_header(s: Seq<u8>) -> Option<MsgHeader> {
    if s.len() == HEADER_LEN && s[0] == MAGIC_0 && s[1] == MAGIC_1 {
        Some(MsgHeader { msg_type: MsgType(s[2]), msg_len: be_value(s.subrange(3, 11)) as u64 })
    } else {
        None
    }
}

/// The bytes of a whole frame: the header that announces `body`, then `body`.
pub open spec fn frame_bytes(msg_type: MsgType, body: Seq<u8>) -> Seq<u8> {
    header_bytes(MsgHeader { msg_type, msg_len: body.len() as u64 }) + body
}

/// The header and body that `s` spells, if it is exactly one frame.
pub open spec fn parse_frame(s: Seq<u8>) -> Option<(MsgHeader, Seq<u8>)> {
    if s.len() >= HEADER_LEN {
        match parse_header(s.subrange(0, HEADER_LEN as int)) {
            Some(h) => if s.len() - HEADER_LEN == h.msg_len {
                Some((h, s.subrange(HEADER_LEN as int, s.len() as int)))
            } else {
                None
            },
            None => None,
        }
    } else {
        None
    }
}

/// Number of bytes that a frame with this header takes on the wire.
pub open spec fn frame_len(h: MsgHeader) -> nat {
    (HEADER_LEN + h.msg_len) as nat
}

/// Eight bytes spell a number that fits in 64 bits, and writing that number
/// out gives the same bytes back.
pub proof fn lemma_be_bytes_of_value(s: Seq<u8>)
    requires
        s.len() == 8,
    ensures
        0 <= be_value(s) <= u64::MAX,
        be_bytes(be_value(s) as u64) == s,
{
    let h0: int = s[0] as int;
    let h1: int = h0 * 256 + s[1];
    let h2: int = h1 * 256 + s[2];
    let h3: int = h2 * 256 + s[3];
    let h4: int = h3 * 256 + s[4];
    let h5: int = h4 * 256 + s[5];
    let h6: int = h5 * 256 + s[6];
    let h7: int = h6 * 256 + s[7];
    assert(0 <= h0 < 0x100);
    assert(0 <= h1 < 0x1_0000);
    assert(0 <= h2 < 0x100_0000);
    assert(0 <= h3 < 0x1_0000_0000);
    assert(0 <= h4 < 0x100_0000_0000);
    assert(0 <= h5 < 0x1_0000_0000_0000);
    assert(0 <= h6 < 0x100_0000_0000_0000);
    assert(0 <= h7 <= u64::MAX);
    assert(h7 == be_value(s));
    assert(h7 / 256 == h6 && h7 % 256 == s[7]);
    assert(h6 / 256 == h5 && h6 % 256 == s[6]);
    assert(h5 / 256 == h4 && h5 % 256 == s[5]);
    assert(h4 / 256 == h3 && h4 % 256 == s[4]);
    assert(h3 / 256 == h2 && h3 % 256 == s[3]);
    assert(h2 / 256 == h1 && h2 % 256 == s[2]);
    assert(h1 / 256 == h0 && h1 % 256 == s[1]);
    let x: u64 = h7 as u64;
    assert(x / 256 == h6);
    assert(x / 256 / 256 == h5);
    assert(x / 256 / 256 / 256 == h4);
    assert(x / 256 / 256 / 256 / 256 == h3);
    assert(x / 256 / 256 / 256 / 256 / 256 == h2);
    assert(x / 256 / 256 / 256 / 256 / 256 / 256 == h1);
    assert(x / 256 / 256 / 256 / 256 / 256 / 256 / 256 == h0);
    assert(be_bytes(x) =~= s);
}

/// Reading the bytes of a number gives the number back.
pub proof fn lemma_be_value_of_bytes(x: u64)
    ensures
        be_bytes(x).len() == 8,
        be_value(be_bytes(x)) == x,
{
    let q6 = x / 256;
    let q5 = q6 / 256;
    let q4 = q5 / 256;
    let q3 = q4 / 256;
    let q2 = q3 / 256;
    let q1 = q2 / 256;
    let q0 = q1 / 256;
    assert(q0 < 256);
    assert(q0 * 256 + q1 % 256 == q1);
    assert(q1 * 256 + q2 % 256 == q2);
    assert(q2 * 256 + q3 % 256 == q3);
    assert(q3 * 256 + q4 % 256 == q4);
    assert(q4 * 256 + q5 % 256 == q5);
    assert(q5 * 256 + q6 % 256 == q6);
    assert(q6 * 256 + x % 256 == x);
    let s = be_bytes(x);
    assert(s[0] == q0 && s[1] == q1 % 256 && s[2] == q2 % 256 && s[3] == q3 % 256);
    assert(s[4] == q4 % 256 && s[5] == q5 % 256 && s[6] == q6 % 256 && s[7] == x % 256);
}

/// Decoding an encoded header gives the header back.
pub proof fn lemma_header_round_trip(h: MsgHeader)
    ensures
        header_bytes(h).len() == HEADER_LEN,
        parse_header(header_bytes(h)) == Some(h),
{
    lemma_be_value_of_bytes(h.msg_len);
    assert(header_bytes(h).subrange(3, 11) =~= be_bytes(h.msg_len));
}

/// Decoding an encoded frame gives back the type, the length and the body.
pub proof fn lemma_frame_round_trip(msg_type: MsgType, body: Seq<u8>)
    requires
        body.len() <= u64::MAX,
    ensures
        frame_bytes(msg_type, body).len() == HEADER_LEN + body.len(),
        parse_frame(frame_bytes(msg_type, body)) == Some(
            (MsgHeader { msg_type, msg_len: body.len() as u64 }, body),
        ),
{
    let h = MsgHeader { msg_type, msg_len: body.len() as u64 };
    let f = frame_bytes(msg_type, body);
    lemma_header_round_trip(h);
    assert(f.subrange(0, HEADER_LEN as int) =~= header_bytes(h));
    assert(f.subrange(HEADER_LEN as int, f.len() as int) =~= body);
}

/// Whatever parses as a frame is the encoding of what it parsed to: no two
/// byte strings stand for the same frame.
pub proof fn lemma_frame_parse_is_inverse(s: Seq<u8>)
    requires
        parse_frame(s) is Some,
    ensures
        frame_bytes(parse_frame(s)->Some_0.0.msg_type, parse_frame(s)->Some_0.1) == s,
{
    let (h, body) = parse_frame(s)->Some_0;
    let head = s.subrange(0, HEADER_LEN as int);
    lemma_be_bytes_of_value(head.subrange(3, 11));
    assert(header_bytes(h) =~= head);
    assert(frame_bytes(h.msg_type, body) =~= s);
}

impl MsgHeader {
    /// A header for a body of `msg_len` bytes.
    pub fn new(msg_type: MsgType, msg_len: u64) -> (h: MsgHeader)
        ensures
            h == (MsgHeader { msg_type, msg_len }),
    {
        MsgHeader { msg_type, msg_len }
    }

    /// Writes the header out.
    pub fn encode(&self) -> (out: Vec<u8>)
        ensures
            out@ == header_bytes(*self),
            out@.len() == HEADER_LEN,
    {
        let q7: u64 = self.msg_len;
        let q6: u64 = q7 / 256;
        let q5: u64 = q6 / 256;
        let q4: u64 = q5 / 256;
        let q3: u64 = q4 / 256;
        let q2: u64 = q3 / 256;
        let q1: u64 = q2 / 256;
        let q0: u64 = q1 / 256;
        let mut out: Vec<u8> = Vec::with_capacity(HEADER_LEN);
        out.push(MAGIC_0);
        out.push(MAGIC_1);
        out.push(self.msg_type.0);
        out.push(q0 as u8);
        out.push((q1 % 256) as u8);
        out.push((q2 % 256) as u8);
        out.push((q3 % 256) as u8);
        out.push((q4 % 256) as u8);
        out.push((q5 % 256) as u8);
        out.push((q6 % 256) as u8);
        out.push((q7 % 256) as u8);
        assert(out@ =~= header_bytes(*self));
        out
    }

    /// Reads a header from exactly `HEADER_LEN` bytes. Anything else, and a
    /// header without the magic bytes, is malformed.
    pub fn decode(bytes: &[u8]) -> (r: Result<MsgHeader, Error>)
        ensures
            r == match parse_header(bytes@) {
                Some(h) => Ok::<MsgHeader, Error>(h),
                None => Err(Error::Serialization),
            },
    {
        if bytes.len() != HEADER_LEN || bytes[0] != MAGIC_0 || bytes[1] != MAGIC_1 {
            return Err(Error::Serialization);
        }
        let h0: u64 = bytes[3] as u64;
        let h1: u64 = h0 * 256 + bytes[4] as u64;
        let h2: u64 = h1 * 256 + bytes[5] as u64;
        let h3: u64 = h2 * 256 + bytes[6] as u64;
        let h4: u64 = h3 * 256 + bytes[7] as u64;
        let h5: u64 = h4 * 256 + bytes[8] as u64;
        let h6: u64 = h5 * 256 + bytes[9] as u64;
        assert(h6 < 0x100_0000_0000_0000);
        let msg_len: u64 = h6 * 256 + bytes[10] as u64;
        Ok(MsgHeader { msg_type: MsgType(bytes[2]), msg_len })
    }
}

/// Encodes one frame: the header for `body`, then `body`, in one buffer.
pub fn encode(msg_type: MsgType, body: &[u8]) -> (frame: Vec<u8>)
    ensures
        frame@ == frame_bytes(msg_type, body@),
        frame@.len() == HEADER_LEN + body@.len(),
{
    let header = MsgHeader { msg_type, msg_len: body.len() as u64 };
    let mut frame = header.encode();
    let n: usize = body.len();
    let mut i: usize = 0;
    while i < n
        invariant
            n == body@.len(),
            i <= n,
            frame@ == header_bytes(header) + body@.subrange(0, i as int),
            header_bytes(header).len() == HEADER_LEN,
        decreases n - i,
    {
        frame.push(body[i]);
        assert(body@.subrange(0, i + 1) =~= body@.subrange(0, i as int).push(body@[i as int]));
        i += 1;
    }
    assert(body@.subrange(0, n as int) =~= body@);
    frame
}

/// Splits one frame into its header and body. The bytes must be one whole
/// frame: a well-formed header and as many body bytes as it announces.
pub fn decode(frame: &[u8]) -> (r: Result<(MsgHeader, Vec<u8>), Error>)
    ensures
        match parse_frame(frame@) {
            Some((h, body)) => r is Ok && r->Ok_0.0 == h && r->Ok_0.1@ == body,
            None => r == Err::<(MsgHeader, Vec<u8>), Error>(Error::Serialization),
        },
{
    if frame.len() < HEADER_LEN {
        return Err(Error::Serialization);
    }
    let header = match MsgHeader::decode(slice_subrange(frame, 0, HEADER_LEN)) {
        Ok(h) => h,
        Err(e) => {
            return Err(Error::Serialization);
        },
    };
    let n: usize = frame.len() - HEADER_LEN;
    if n as u64 != header.msg_len {
        return Err(Error::Serialization);
    }
    let mut body: Vec<u8> = Vec::with_capacity(n);
    let mut i: usize = 0;
    while i < n
        invariant
            frame@.len() == HEADER_LEN + n,
            frame@.len() <= usize::MAX,
            i <= n,
            body@ == frame@.subrange(HEADER_LEN as int, HEADER_LEN + i),
        decreases n - i,
    {
        body.push(frame[HEADER_LEN + i]);
        assert(frame@.subrange(HEADER_LEN as int, HEADER_LEN + i + 1) =~= frame@.subrange(
            HEADER_LEN as int,
            HEADER_LEN + i,
        ).push(frame@[HEADER_LEN + i]));
        i += 1;
    }
    Ok((header, body))
}

} // verus!

//! The frame codec: length-prefixed framing over a byte stream.
//!
//! Each frame on the wire is a four-byte big-endian length followed by
//! exactly that many payload bytes.  Decoding works on the recorded bytes of
//! a stream: a read at a frame boundary with nothing left is the peer's
//! normal disconnect signal, while a stream that ends inside a prefix or
//! inside a payload is a transport error.

use vstd::prelude::*;

verus! {

/// Largest payload one frame can carry: the length prefix is four bytes wide.
pub const MAX_PAYLOAD_LEN: u64 = 0xFFFF_FFFF;

/// The four big-endian bytes of a 32-bit length.
pub open spec fn be32_of(n: u32) -> Seq<u8> {
    seq![(n >> 24) as u8, (n >> 16) as u8, (n >> 8) as u8, n as u8]
}

/// The 32-bit value carried by four big-endian bytes.
pub open spec fn be32_value(b: Seq<u8>) -> u32
    recommends
        b.len() == 4,
{
    ((b[0] as u32) << 24) | ((b[1] as u32) << 16) | ((b[2] as u32) << 8) | (b[3] as u32)
}

/// A payload as it travels on the wire: its length, then its bytes.
pub open spec fn spec_encode(p: Seq<u8>) -> Seq<u8>
    recommends
        p.len() <= MAX_PAYLOAD_LEN,
{
    be32_of(p.len() as u32) + p
}

/// Reading four big-endian bytes undoes writing them.
pub proof fn lemma_be32_roundtrip(n: u32)
    ensures
        be32_value(be32_of(n)) == n,
{
    assert(((((n >> 24) as u8) as u32) << 24) | ((((n >> 16) as u8) as u32) << 16) | ((((n >> 8)
        as u8) as u32) << 8) | ((n as u8) as u32) == n) by (bit_vector);
}

/// Writing the value of four big-endian bytes reproduces those bytes.
pub proof fn lemma_be32_bytes_roundtrip(b: Seq<u8>)
    requires
        b.len() == 4,
    ensures
        be32_of(be32_value(b)) == b,
{
    let b0 = b[0];
    let b1 = b[1];
    let b2 = b[2];
    let b3 = b[3];
    let x = be32_value(b);
    assert((x >> 24) as u8 == b0 && (x >> 16) as u8 == b1 && (x >> 8) as u8 == b2 && x as u8 == b3)
        by (bit_vector)
        requires
            x == ((b0 as u32) << 24) | ((b1 as u32) << 16) | ((b2 as u32) << 8) | (b3 as u32),
    ;
    assert(be32_of(x) =~= b);
}

/// A failure that terminates a single connection.
#[derive(PartialEq, Eq, Structural, Clone, Copy, Debug)]
pub enum TransportError {
    /// The stream ended inside a length prefix.
    TruncatedPrefix,
    /// The stream ended inside a frame's payload.
    TruncatedPayload,
    /// Reading from or writing to the socket failed.
    Io,
}

/// One successful read from the peer's byte stream.
pub enum Decoded {
    /// A complete frame, its payload fully materialized.
    Frame(Vec<u8>),
    /// The peer closed the stream at a frame boundary: the normal disconnect
    /// signal, not an error.
    EndOfStream,
}

/// The payload length announced by the prefix at position `start` of `s`.
pub open spec fn frame_len_at(s: Seq<u8>, start: int) -> int
    recommends
        0 <= start,
        start + 4 <= s.len(),
{
    be32_value(s.subrange(start, start + 4)) as int
}

/// Serializes one frame for the wire: four length bytes, then the payload.
pub fn encode(payload: &Vec<u8>) -> (out: Vec<u8>)
    requires
        payload@.len() <= MAX_PAYLOAD_LEN,
    ensures
        out@ == spec_encode(payload@),
{
    let n = payload.len() as u32;
    let mut out: Vec<u8> = Vec::new();
    out.push((n >> 24) as u8);
    out.push((n >> 16) as u8);
    out.push((n >> 8) as u8);
    out.push(n as u8);
    assert(out@ =~= be32_of(payload@.len() as u32));
    let mut i: usize = 0;
    while i < payload.len()
        invariant
            i <= payload@.len(),
            payload@.len() <= MAX_PAYLOAD_LEN,
            out@ == be32_of(payload@.len() as u32) + payload@.take(i as int),
        decreases payload@.len() - i,
    {
        out.push(payload[i]);
        assert(be32_of(payload@.len() as u32) + payload@.take(i as int + 1) =~= (be32_of(
            payload@.len() as u32,
        ) + payload@.take(i as int)).push(payload@[i as int]));
        i = i + 1;
    }
    assert(payload@.take(payload@.len() as int) =~= payload@);
    out
}

/// Reads the length prefix of a frame.
pub fn frame_len(header: &Vec<u8>) -> (n: usize)
    requires
        header@.len() == 4,
    ensures
        n == be32_value(header@),
{
    let b0 = header[0];
    let b1 = header[1];
    let b2 = header[2];
    let b3 = header[3];
    let v: u32 = ((b0 as u32) << 24) | ((b1 as u32) << 16) | ((b2 as u32) << 8) | (b3 as u32);
    assert(header@.subrange(0, 4) =~= header@);
    v as usize
}

/// Reads the next frame from `buf` at position `start`, where `buf` holds
/// every byte the peer sent before closing its side of the stream.
///
/// Nothing left at a frame boundary is the clean disconnect signal; a stream
/// that ends inside a prefix or inside a payload is a transport error.
pub fn decode_next(buf: &Vec<u8>, start: usize) -> (r: Result<Decoded, TransportError>)
    requires
        start <= buf@.len(),
    ensures
        match r {
            Ok(Decoded::EndOfStream) => start == buf@.len(),
            Ok(Decoded::Frame(p)) => {
                &&& start + 4 <= buf@.len()
                &&& p@.len() == frame_len_at(buf@, start as int)
                &&& start + 4 + p@.len() <= buf@.len()
                &&& p@ == buf@.subrange(start as int + 4, start as int + 4 + frame_len_at(buf@, start as int))
            },
            Err(TransportError::TruncatedPrefix) => start < buf@.len() && buf@.len() < start + 4,
            Err(TransportError::TruncatedPayload) => start + 4 <= buf@.len() && buf@.len() < start
                + 4 + frame_len_at(buf@, start as int),
            Err(TransportError::Io) => false,
        },
{
    if start == buf.len() {
        return Ok(Decoded::EndOfStream);
    }
    if buf.len() - start < 4 {
        return Err(TransportError::TruncatedPrefix);
    }
    let b0 = buf[start];
    let b1 = buf[start + 1];
    let b2 = buf[start + 2];
    let b3 = buf[start + 3];
    let v: u32 = ((b0 as u32) << 24) | ((b1 as u32) << 16) | ((b2 as u32) << 8) | (b3 as u32);
    assert(buf@.subrange(start as int, start as int + 4) =~= seq![b0, b1, b2, b3]);
    assert(v == frame_len_at(buf@, start as int));
    let flen = v as usize;
    if buf.len() - start - 4 < flen {
        return Err(TransportError::TruncatedPayload);
    }
    let total = buf.len();
    let mut p: Vec<u8> = Vec::new();
    let mut i: usize = 0;
    while i < flen
        invariant
            i <= flen,
            total == buf@.len(),
            start + 4 + flen <= total,
            flen == frame_len_at(buf@, start as int),
            p@ == buf@.subrange(start as int + 4, start as int + 4 + i),
        decreases flen - i,
    {
        p.push(buf[start + 4 + i]);
        assert(buf@.subrange(start as int + 4, start as int + 4 + (i as int + 1)) =~= buf@.subrange(
            start as int + 4,
            start as int + 4 + i,
        ).push(buf@[start as int + 4 + i]));
        i = i + 1;
    }
    Ok(Decoded::Frame(p))
}

/// The frames carried by a complete stream, in order, if the stream parses
/// cleanly; `None` when the stream ends inside a prefix or a payload.
pub open spec fn frames_of(s: Seq<u8>) -> Option<Seq<Seq<u8>>>
    decreases s.len(),
{
    if s.len() == 0 {
        Some(Seq::empty())
    } else if s.len() < 4 {
        None
    } else if s.len() < 4 + frame_len_at(s, 0) {
        None
    } else {
        match frames_of(s.skip(4 + frame_len_at(s, 0))) {
            Some(rest) => Some(seq![s.subrange(4, 4 + frame_len_at(s, 0))] + rest),
            None => None,
        }
    }
}

/// How many bytes at the front of `s` belong to complete frames.
pub open spec fn complete_prefix_len(s: Seq<u8>) -> int
    decreases s.len(),
{
    if s.len() >= 4 && s.len() >= 4 + frame_len_at(s, 0) {
        4 + frame_len_at(s, 0) + complete_prefix_len(s.skip(4 + frame_len_at(s, 0)))
    } else {
        0
    }
}

/// Unfolds a parse one frame at a time, from an arbitrary position: when a
/// complete frame starts at `pos`, the bytes from `pos` on parse cleanly
/// exactly when the bytes after that frame do, and the complete prefix grows
/// by the frame's size on the wire.
pub proof fn lemma_stream_step(s: Seq<u8>, pos: int)
    requires
        0 <= pos,
        pos + 4 <= s.len(),
        pos + 4 + frame_len_at(s, pos) <= s.len(),
    ensures
        complete_prefix_len(s.skip(pos)) == 4 + frame_len_at(s, pos) + complete_prefix_len(
            s.skip(pos + 4 + frame_len_at(s, pos)),
        ),
        frames_of(s.skip(pos)) is Some <==> frames_of(s.skip(pos + 4 + frame_len_at(s, pos)))
            is Some,
{
    let t = s.skip(pos);
    let flen = frame_len_at(s, pos);
    assert(t.subrange(0, 4) =~= s.subrange(pos, pos + 4));
    assert(frame_len_at(t, 0) == flen);
    assert(t.skip(4 + flen) =~= s.skip(pos + 4 + flen));
}

/// A stream that ends inside a prefix or inside a payload does not parse
/// cleanly from `pos` on, and no complete frame starts there.
pub proof fn lemma_stream_truncated(s: Seq<u8>, pos: int)
    requires
        0 <= pos,
        pos < s.len(),
        s.len() < pos + 4 || s.len() < pos + 4 + frame_len_at(s, pos),
    ensures
        frames_of(s.skip(pos)) is None,
        complete_prefix_len(s.skip(pos)) == 0,
{
    let t = s.skip(pos);
    if pos + 4 <= s.len() {
        assert(t.subrange(0, 4) =~= s.subrange(pos, pos + 4));
        assert(frame_len_at(t, 0) == frame_len_at(s, pos));
    }
}

/// Round trip with a remainder: a stream that starts with the encoding of a
/// payload parses to that payload followed by whatever the rest parses to.
pub proof fn lemma_frames_of_prepend(p: Seq<u8>, rest: Seq<u8>)
    requires
        p.len() <= MAX_PAYLOAD_LEN,
    ensures
        frames_of(spec_encode(p) + rest) == match frames_of(rest) {
            Some(fs) => Some(seq![p] + fs),
            None => None::<Seq<Seq<u8>>>,
        },
{
    let s = spec_encode(p) + rest;
    lemma_be32_roundtrip(p.len() as u32);
    assert(s.subrange(0, 4) =~= be32_of(p.len() as u32));
    assert(frame_len_at(s, 0) == p.len());
    assert(s.subrange(4, 4 + p.len() as int) =~= p);
    assert(s.skip(4 + p.len() as int) =~= rest);
}

/// Round trip: decoding the encoding of a payload yields exactly that payload
/// and nothing else.
pub proof fn lemma_encode_decode_roundtrip(p: Seq<u8>)
    requires
        p.len() <= MAX_PAYLOAD_LEN,
    ensures
        frames_of(spec_encode(p)) == Some(seq![p]),
{
    lemma_frames_of_prepend(p, Seq::empty());
    assert(spec_encode(p) + Seq::<u8>::empty() =~= spec_encode(p));
    assert(seq![p] + Seq::<Seq<u8>>::empty() =~= seq![p]);
}

/// A whole conversation's worth of frames, one after the other on the wire.
pub open spec fn spec_encode_all(fs: Seq<Seq<u8>>) -> Seq<u8>
    decreases fs.len(),
{
    if fs.len() == 0 {
        Seq::empty()
    } else {
        spec_encode(fs[0]) + spec_encode_all(fs.skip(1))
    }
}

/// Round trip for any number of frames sent in order: the stream made of
/// their encodings parses back to exactly those frames, in the same order,
/// unmodified.
pub proof fn lemma_encode_all_round_trips(fs: Seq<Seq<u8>>)
    requires
        forall|i: int| 0 <= i < fs.len() ==> #[trigger] fs[i].len() <= MAX_PAYLOAD_LEN,
    ensures
        frames_of(spec_encode_all(fs)) == Some(fs),
    decreases fs.len(),
{
    if fs.len() == 0 {
        assert(spec_encode_all(fs) =~= Seq::<u8>::empty());
        assert(fs =~= Seq::<Seq<u8>>::empty());
    } else {
        let rest = fs.skip(1);
        assert forall|i: int| 0 <= i < rest.len() implies #[trigger] rest[i].len()
            <= MAX_PAYLOAD_LEN by {
            assert(rest[i] == fs[i + 1]);
        }
        lemma_encode_all_round_trips(rest);
        assert(fs[0].len() <= MAX_PAYLOAD_LEN);
        lemma_frames_of_prepend(fs[0], spec_encode_all(rest));
        assert(seq![fs[0]] + rest =~= fs);
    }
}

} // verus!

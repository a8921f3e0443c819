//! Framing between the daemon and the UI client: a 4-byte little-endian
//! length prefix followed by that many bytes of message body. Bodies larger
//! than [`MAX_FRAME_BYTES`] are refused in both directions.

use vstd::prelude::*;

verus! {

/// Anything above this is rejected as garbage. 8 MiB is far above a maxed-out
/// terminal's serialized frame.
pub const MAX_FRAME_BYTES: usize = 8388608;

/// Why a frame could not be written or read.
#[derive(Debug, Clone, Copy, PartialEq, Eq)]
pub enum FrameError {
    /// The body, or the length a prefix announces, exceeds [`MAX_FRAME_BYTES`].
    TooLarge,
    /// The bytes end before the prefix or the announced body does.
    Truncated,
}

/// The 4-byte little-endian encoding of `n < 2^32`.
pub open spec fn le32(n: nat) -> Seq<u8> {
    seq![
        (n % 256) as u8,
        ((n / 256) % 256) as u8,
        ((n / 65536) % 256) as u8,
        ((n / 16777216) % 256) as u8,
    ]
}

/// The number a 4-byte little-endian prefix encodes.
pub open spec fn le32_value(b: Seq<u8>) -> nat {
    (b[0] + 256 * b[1] + 65536 * b[2] + 16777216 * b[3]) as nat
}

/// The frame carrying `body`.
pub open spec fn frame_spec(body: Seq<u8>) -> Seq<u8> {
    le32(body.len()) + body
}

/// What reading one frame from the front of `buf` gives: the body and the
/// number of bytes the frame took.
pub open spec fn decode_frame_spec(buf: Seq<u8>) -> Result<(Seq<u8>, nat), FrameError> {
    if buf.len() < 4 {
        Err(FrameError::Truncated)
    } else if le32_value(buf) > MAX_FRAME_BYTES {
        Err(FrameError::TooLarge)
    } else if buf.len() < 4 + le32_value(buf) {
        Err(FrameError::Truncated)
    } else {
        Ok((buf.subrange(4, 4 + le32_value(buf) as int), 4 + le32_value(buf)))
    }
}

proof fn lemma_le32_roundtrip(n: u32)
    ensures
        le32_value(le32(n as nat)) == n,
{
    assert((n % 256) + 256 * ((n / 256) % 256) + 65536 * ((n / 65536) % 256) + 16777216 * ((n
        / 16777216) % 256) == n) by (bit_vector);
}

/// Frame `body`: its length as 4 little-endian bytes, then the body itself.
/// Bodies above [`MAX_FRAME_BYTES`] are refused.
pub fn encode_frame(body: &[u8]) -> (r: Result<Vec<u8>, FrameError>)
    ensures
        r is Ok <==> body@.len() <= MAX_FRAME_BYTES,
        r matches Ok(v) ==> v@ == frame_spec(body@),
        r matches Err(e) ==> e == FrameError::TooLarge,
{
    if body.len() > MAX_FRAME_BYTES {
        return Err(FrameError::TooLarge);
    }
    let n = body.len() as u32;
    let mut out: Vec<u8> = Vec::new();
    out.push((n % 256) as u8);
    out.push(((n / 256) % 256) as u8);
    out.push(((n / 65536) % 256) as u8);
    out.push(((n / 16777216) % 256) as u8);
    let mut i: usize = 0;
    while i < body.len()
        invariant
            i <= body@.len(),
            n == body@.len(),
            out@ == le32(n as nat) + body@.take(i as int),
        decreases body@.len() - i,
    {
        out.push(body[i]);
        assert(le32(n as nat) + body@.take(i + 1) =~= (le32(n as nat) + body@.take(i as int)).push(
            body@[i as int],
        ));
        i += 1;
    }
    assert(body@.take(body@.len() as int) =~= body@);
    Ok(out)
}

/// The body length a 4-byte prefix announces, refused above [`MAX_FRAME_BYTES`].
pub fn frame_body_len(header: [u8; 4]) -> (r: Result<usize, FrameError>)
    ensures
        r is Ok <==> le32_value(header@) <= MAX_FRAME_BYTES,
        r matches Ok(n) ==> n == le32_value(header@),
        r matches Err(e) ==> e == FrameError::TooLarge,
{
    let len: u64 = header[0] as u64 + 256 * header[1] as u64 + 65536 * header[2] as u64 + 16777216
        * header[3] as u64;
    if len > MAX_FRAME_BYTES as u64 {
        Err(FrameError::TooLarge)
    } else {
        Ok(len as usize)
    }
}

/// Read one frame from the front of `buf`: the body and how many bytes the
/// frame took. Fails on a prefix announcing more than [`MAX_FRAME_BYTES`]
/// (before looking for the body) or when `buf` ends early.
pub fn decode_frame(buf: &[u8]) -> (r: Result<(Vec<u8>, usize), FrameError>)
    ensures
        match decode_frame_spec(buf@) {
            Ok((body, used)) => r matches Ok((b, u)) && b@ == body && u == used,
            Err(e) => r == Err::<(Vec<u8>, usize), FrameError>(e),
        },
{
    if buf.len() < 4 {
        return Err(FrameError::Truncated);
    }
    let header: [u8; 4] = [buf[0], buf[1], buf[2], buf[3]];
    assert(header@ =~= buf@.take(4));
    let len = match frame_body_len(header) {
        Ok(n) => n,
        Err(e) => return Err(e),
    };
    if buf.len() - 4 < len {
        return Err(FrameError::Truncated);
    }
    let bl = buf.len();
    let mut body: Vec<u8> = Vec::new();
    let mut i: usize = 0;
    while i < len
        invariant
            bl == buf@.len(),
            i <= len,
            4 + len <= buf@.len(),
            body@ == buf@.subrange(4, 4 + i),
        decreases len - i,
    {
        body.push(buf[4 + i]);
        assert(buf@.subrange(4, 4 + i + 1) =~= buf@.subrange(4, 4 + i).push(buf@[4 + i]));
        i += 1;
    }
    Ok((body, 4 + len))
}

/// Law: a frame reads back as the body it was written from, whatever bytes
/// follow it — so frames written one after another read back in order.
pub proof fn lemma_frame_roundtrip(body: Seq<u8>, rest: Seq<u8>)
    requires
        body.len() <= MAX_FRAME_BYTES,
    ensures
        decode_frame_spec(frame_spec(body) + rest) == Ok::<(Seq<u8>, nat), FrameError>((body, 4 + body.len())),
        (frame_spec(body) + rest).skip(4 + body.len() as int) == rest,
{
    lemma_le32_roundtrip(body.len() as u32);
    let buf = frame_spec(body) + rest;
    assert(buf.subrange(0, 4) =~= le32(body.len()));
    assert(le32_value(buf) == le32_value(le32(body.len())));
    assert(buf.subrange(4, 4 + body.len() as int) =~= body);
    assert(buf.skip(4 + body.len() as int) =~= rest);
}

} // verus!

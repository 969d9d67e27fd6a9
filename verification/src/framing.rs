//! Length-delimited framing: each frame travels as a big-endian 32-bit
//! length prefix followed by its payload, bounded by a configured maximum
//! frame length.

use vstd::prelude::*;
use vstd::slice::{slice_subrange, slice_to_vec};

use crate::error::SecioError;

verus! {

/// The default bound on a frame: 8 MiB.
pub const DEFAULT_MAX_FRAME_LENGTH: usize = 8 * 1024 * 1024;

/// The four prefix bytes that announce a payload of length `n`.
pub open spec fn be_bytes_of(n: int) -> Seq<u8> {
    seq![
        (n / 0x1000000 % 0x100) as u8,
        (n / 0x10000 % 0x100) as u8,
        (n / 0x100 % 0x100) as u8,
        (n % 0x100) as u8,
    ]
}

/// The length a four-byte big-endian prefix announces.
pub open spec fn be32_val(b: Seq<u8>) -> int {
    b[0] * 0x1000000 + b[1] * 0x10000 + b[2] * 0x100 + b[3]
}

/// A payload as it travels: its length prefix, then its bytes.
pub open spec fn framed(payload: Seq<u8>) -> Seq<u8> {
    be_bytes_of(payload.len() as int) + payload
}

/// The prefix announces exactly the length it was built from.
pub proof fn lemma_be32_round_trip(n: int)
    requires
        0 <= n < 0x100000000,
    ensures
        be32_val(be_bytes_of(n)) == n,
{
    let x = n as u32;
    assert((x / 0x1000000 % 0x100) as u64 * 0x1000000 + (x / 0x10000 % 0x100) as u64 * 0x10000 + (
    x / 0x100 % 0x100) as u64 * 0x100 + (x % 0x100) as u64 == x as u64) by (bit_vector);
}

/// Splits a byte stream into length-prefixed frames and prepends the prefix
/// on the way out, refusing frames over `max_frame_length`.
#[derive(Clone, Copy, Debug)]
pub struct LengthFramer {
    /// No frame, inbound or outbound, may carry more payload than this.
    pub max_frame_length: usize,
}

impl LengthFramer {
    /// The bound fits the 32-bit length prefix.
    pub open spec fn wf(self) -> bool {
        self.max_frame_length < 0x100000000
    }

    /// A framer with the given bound on payload length.
    pub fn new(max_frame_length: usize) -> (r: LengthFramer)
        requires
            max_frame_length < 0x100000000,
        ensures
            r.max_frame_length == max_frame_length,
            r.wf(),
    {
        LengthFramer { max_frame_length }
    }

    /// Prefix `payload` with its big-endian length; a payload over the bound
    /// is refused as `FrameTooLong`.
    pub fn encode(&self, payload: &[u8]) -> (r: Result<Vec<u8>, SecioError>)
        requires
            self.wf(),
        ensures
            payload@.len() <= self.max_frame_length ==> (r matches Ok(v) && v@ == framed(payload@)),
            payload@.len() > self.max_frame_length ==> r == Err::<Vec<u8>, SecioError>(
                SecioError::FrameTooLong,
            ),
    {
        if payload.len() > self.max_frame_length {
            return Err(SecioError::FrameTooLong);
        }
        let n = payload.len();
        let mut out: Vec<u8> = Vec::new();
        out.push((n / 0x1000000 % 0x100) as u8);
        out.push((n / 0x10000 % 0x100) as u8);
        out.push((n / 0x100 % 0x100) as u8);
        out.push((n % 0x100) as u8);
        let mut body = slice_to_vec(payload);
        out.append(&mut body);
        assert(out@ =~= framed(payload@));
        Ok(out)
    }

    /// Try to take one frame off the front of `buf`. Not enough bytes yet is
    /// `Ok(None)`; an announced length over the bound is fatal; otherwise the
    /// payload comes back with how many bytes of `buf` it consumed.
    pub fn split(&self, buf: &[u8]) -> (r: Result<Option<(Vec<u8>, usize)>, SecioError>)
        requires
            self.wf(),
        ensures
            buf@.len() < 4 ==> (r matches Ok(o) && o is None),
            (buf@.len() >= 4 && be32_val(buf@) > self.max_frame_length) ==> r == Err::<
                Option<(Vec<u8>, usize)>,
                SecioError,
            >(SecioError::FrameTooLong),
            (buf@.len() >= 4 && be32_val(buf@) <= self.max_frame_length && buf@.len() - 4 < be32_val(
                buf@,
            )) ==> (r matches Ok(o) && o is None),
            (buf@.len() >= 4 && be32_val(buf@) <= self.max_frame_length && buf@.len() - 4
                >= be32_val(buf@)) ==> (r matches Ok(o) && o matches Some(f) && f.0@ == buf@.subrange(
                4,
                4 + be32_val(buf@),
            ) && f.1 as int == 4 + be32_val(buf@)),
    {
        if buf.len() < 4 {
            return Ok(None);
        }
        let n: usize = buf[0] as usize * 0x1000000 + buf[1] as usize * 0x10000 + buf[2] as usize
            * 0x100 + buf[3] as usize;
        assert(n == be32_val(buf@));
        if n > self.max_frame_length {
            return Err(SecioError::FrameTooLong);
        }
        if buf.len() - 4 < n {
            return Ok(None);
        }
        let payload = slice_to_vec(slice_subrange(buf, 4, 4 + n));
        Ok(Some((payload, 4 + n)))
    }
}

/// Framing round trip: a frame encoded under the bound splits back off the
/// stream, whatever follows it, yielding the payload and consuming exactly
/// the frame.
pub proof fn lemma_framing_round_trip(max: int, payload: Seq<u8>, rest: Seq<u8>)
    requires
        0 <= payload.len() <= max < 0x100000000,
    ensures
        be32_val(framed(payload) + rest) == payload.len(),
        (framed(payload) + rest).subrange(4, 4 + payload.len() as int) == payload,
        (framed(payload) + rest).len() - 4 >= payload.len(),
{
    let n = payload.len() as int;
    lemma_be32_round_trip(n);
    let whole = framed(payload) + rest;
    assert(whole[0] == be_bytes_of(n)[0]);
    assert(whole[1] == be_bytes_of(n)[1]);
    assert(whole[2] == be_bytes_of(n)[2]);
    assert(whole[3] == be_bytes_of(n)[3]);
    assert(be32_val(whole) == be32_val(be_bytes_of(n)));
    assert(whole.subrange(4, 4 + n) =~= payload);
}

} // verus!

//! The frame engine of the secure channel. Outbound frames are encrypted and
//! authenticated (cipher, then MAC); inbound frames are verified, decrypted
//! and, while the session is young, checked against the nonce the peer
//! promised to echo. The engine is a state machine: the driver around the
//! library feeds it socket frames and handle commands and carries its queues
//! to the socket and the handle.

use vstd::prelude::*;
use vstd::slice::{slice_subrange, slice_to_vec};

use crate::error::SecioError;
use crate::mac::{hmac_of, Hmac};
use crate::stream_cipher::{lemma_xor_seq_involutive, xor_seq, StreamCipher};
use crate::stream_handle::StreamHandle;

verus! {

/// A command a handle sends to its secure stream.
pub enum StreamEvent {
    /// One frame of plaintext to encrypt, authenticate and send.
    Frame(Vec<u8>),
    /// Push everything pending to the socket and acknowledge.
    Flush,
    /// Close the session.
    Close,
}

/// What the driver must do after the stream handled a command.
#[derive(Clone, Copy, Debug, PartialEq, Eq, Structural)]
pub enum DriverAction {
    /// Flush the outbound queue to the socket as far as it will go.
    SendPending,
    /// Poll the socket to completion, then acknowledge the flush.
    FlushAck,
    /// Close the socket; the session is over.
    CloseSocket,
}

/// The frame a stream in cipher state `c` with MAC `h` puts on the wire for
/// plaintext `p`: the ciphertext, then its tag.
pub open spec fn encoded_frame(c: StreamCipher, h: Hmac, p: Seq<u8>) -> Seq<u8> {
    xor_seq(p, c.stream_at(p.len() as int)) + hmac_of(
        h.digest,
        h.key@,
        xor_seq(p, c.stream_at(p.len() as int)),
    )
}

/// What decoding `frame` does in cipher state `c` with MAC `h` and pending
/// nonce `nonce`: either the plaintext delivered to the handle together with
/// the nonce bytes still owed, or the error that kills the session.
pub open spec fn decode_spec(c: StreamCipher, h: Hmac, nonce: Seq<u8>, frame: Seq<u8>) -> Result<
    (Seq<u8>, Seq<u8>),
    SecioError,
> {
    let tag_len = h.digest.spec_tag_size();
    if frame.len() < tag_len {
        Err(SecioError::FrameTooShort)
    } else {
        let ct = frame.subrange(0, frame.len() - tag_len);
        let tag = frame.subrange(frame.len() - tag_len, frame.len() as int);
        if tag != hmac_of(h.digest, h.key@, ct) {
            Err(SecioError::HmacNotMatching)
        } else {
            let pt = xor_seq(ct, c.stream_at(ct.len() as int));
            if nonce.len() > 0 {
                let n = vstd::math::min(pt.len() as int, nonce.len() as int);
                if pt.subrange(0, n) != nonce.subrange(0, n) {
                    Err(SecioError::NonceVerificationFailed)
                } else {
                    Ok((pt.skip(n), nonce.skip(n)))
                }
            } else {
                Ok((pt, nonce))
            }
        }
    }
}

/// One encrypted channel: per-direction cipher and MAC state, the nonce still
/// expected from the peer, and the two frame queues the driver drains.
pub struct SecureStream {
    /// Decrypts inbound ciphertext.
    pub cipher_in: StreamCipher,
    /// Encrypts outbound plaintext.
    pub cipher_out: StreamCipher,
    /// Verifies inbound tags.
    pub hmac_in: Hmac,
    /// Signs outbound ciphertext.
    pub hmac_out: Hmac,
    /// Bytes the peer promised to send first; shrinks from the front as
    /// matching plaintext arrives. Empty means verified.
    pub nonce: Vec<u8>,
    /// Encoded frames not yet accepted by the socket.
    pub pending_out: Vec<Vec<u8>>,
    /// Decoded plaintexts not yet delivered to the handle.
    pub pending_in: Vec<Vec<u8>>,
    /// A handle to this stream has been created.
    pub handle_attached: bool,
    /// Terminal flag: no further frames are produced or consumed.
    pub dead: bool,
}

/// Everything of the stream is unchanged but possibly the inbound cipher, the
/// nonce and the inbound queue.
pub open spec fn same_but_inbound(pre: SecureStream, post: SecureStream) -> bool {
    &&& post.cipher_out == pre.cipher_out
    &&& post.hmac_out == pre.hmac_out
    &&& post.hmac_in == pre.hmac_in
    &&& post.pending_out == pre.pending_out
    &&& post.handle_attached == pre.handle_attached
    &&& post.dead == pre.dead
}

/// Everything of the stream is unchanged but possibly the outbound cipher and
/// the outbound queue.
pub open spec fn same_but_outbound(pre: SecureStream, post: SecureStream) -> bool {
    &&& post.cipher_in == pre.cipher_in
    &&& post.hmac_in == pre.hmac_in
    &&& post.hmac_out == pre.hmac_out
    &&& post.nonce == pre.nonce
    &&& post.pending_in == pre.pending_in
    &&& post.handle_attached == pre.handle_attached
    &&& post.dead == pre.dead
}

impl SecureStream {
    /// Both cipher directions carry keys and IVs of the right length.
    pub open spec fn wf(self) -> bool {
        &&& self.cipher_in.wf()
        &&& self.cipher_out.wf()
    }

    /// Build a stream from the material the handshake delivered: one cipher
    /// and one MAC per direction, and the nonce the peer must echo first.
    pub fn new(
        cipher_in: StreamCipher,
        cipher_out: StreamCipher,
        hmac_in: Hmac,
        hmac_out: Hmac,
        nonce: Vec<u8>,
    ) -> (r: SecureStream)
        requires
            cipher_in.wf(),
            cipher_out.wf(),
        ensures
            r.cipher_in == cipher_in,
            r.cipher_out == cipher_out,
            r.hmac_in == hmac_in,
            r.hmac_out == hmac_out,
            r.nonce == nonce,
            r.pending_out@.len() == 0,
            r.pending_in@.len() == 0,
            !r.handle_attached,
            !r.dead,
            r.wf(),
    {
        SecureStream {
            cipher_in,
            cipher_out,
            hmac_in,
            hmac_out,
            nonce,
            pending_out: Vec::new(),
            pending_in: Vec::new(),
            handle_attached: false,
            dead: false,
        }
    }

    /// Create the unique handle to this stream. A second call fails with
    /// `HandleAlreadyTaken` and changes nothing.
    pub fn create_handle(&mut self) -> (r: Result<StreamHandle, SecioError>)
        ensures
            old(self).handle_attached ==> (r matches Err(e) && e == SecioError::HandleAlreadyTaken
                && *final(self) == *old(self)),
            !old(self).handle_attached ==> (r matches Ok(h) && h.recv_buf@.len() == 0
                && h.write_buf@.len() == 0 && !h.closed),
            final(self).handle_attached,
            final(self).cipher_in == old(self).cipher_in,
            final(self).cipher_out == old(self).cipher_out,
            final(self).hmac_in == old(self).hmac_in,
            final(self).hmac_out == old(self).hmac_out,
            final(self).nonce == old(self).nonce,
            final(self).pending_out == old(self).pending_out,
            final(self).pending_in == old(self).pending_in,
            final(self).dead == old(self).dead,
    {
        if self.handle_attached {
            return Err(SecioError::HandleAlreadyTaken);
        }
        self.handle_attached = true;
        Ok(StreamHandle::new())
    }

    /// Encrypt `data` in place and append its MAC tag: afterwards `data` is
    /// exactly the wire frame, and the outbound cipher has advanced by the
    /// plaintext length.
    pub fn encode(&mut self, data: &mut Vec<u8>)
        requires
            old(self).wf(),
            old(self).cipher_out.pos + old(data)@.len() <= u64::MAX,
        ensures
            final(data)@ == encoded_frame(old(self).cipher_out, old(self).hmac_out, old(data)@),
            same_but_outbound(*old(self), *final(self)),
            final(self).pending_out == old(self).pending_out,
            final(self).cipher_out == old(self).cipher_out.advanced(old(data)@.len() as int),
            final(self).wf(),
    {
        self.cipher_out.encrypt(data);
        let mut tag = self.hmac_out.sign(data.as_slice());
        data.append(&mut tag);
    }

    /// Verify, decrypt and nonce-check one inbound frame. On success the
    /// returned plaintext is what the handle must see (the nonce prefix
    /// already stripped); any error is fatal to the session. The inbound
    /// cipher advances exactly when the tag verified.
    pub fn decode(&mut self, frame: &Vec<u8>) -> (r: Result<Vec<u8>, SecioError>)
        requires
            old(self).wf(),
            old(self).cipher_in.pos + frame@.len() <= u64::MAX,
        ensures
            same_but_inbound(*old(self), *final(self)),
            final(self).pending_in == old(self).pending_in,
            final(self).wf(),
            ({
                let d = decode_spec(old(self).cipher_in, old(self).hmac_in, old(self).nonce@, frame@);
                let ct_len = frame@.len() - old(self).hmac_in.digest.spec_tag_size();
                match d {
                    Ok((pt, nn)) => {
                        &&& r matches Ok(v) && v@ == pt
                        &&& final(self).nonce@ == nn
                        &&& final(self).cipher_in == old(self).cipher_in.advanced(ct_len)
                    },
                    Err(e) => {
                        &&& r matches Err(e2) && e2 == e
                        &&& final(self).nonce == old(self).nonce
                        &&& if e == SecioError::NonceVerificationFailed {
                            final(self).cipher_in == old(self).cipher_in.advanced(ct_len)
                        } else {
                            final(self).cipher_in == old(self).cipher_in
                        }
                    },
                }
            }),
    {
        let tag_len = self.hmac_in.num_bytes();
        if frame.len() < tag_len {
            return Err(SecioError::FrameTooShort);
        }
        let content_length = frame.len() - tag_len;
        let crypted = slice_subrange(frame.as_slice(), 0, content_length);
        let tag = slice_subrange(frame.as_slice(), content_length, frame.len());
        if !self.hmac_in.verify(crypted, tag) {
            return Err(SecioError::HmacNotMatching);
        }
        let mut data_buf = slice_to_vec(crypted);
        self.cipher_in.decrypt(&mut data_buf);
        if self.nonce.len() > 0 {
            let n = if data_buf.len() < self.nonce.len() {
                data_buf.len()
            } else {
                self.nonce.len()
            };
            if !prefix_eq(data_buf.as_slice(), self.nonce.as_slice(), n) {
                return Err(SecioError::NonceVerificationFailed);
            }
            let rest_nonce = slice_to_vec(slice_subrange(self.nonce.as_slice(), n, self.nonce.len()));
            let rest_data = slice_to_vec(slice_subrange(data_buf.as_slice(), n, data_buf.len()));
            assert(rest_nonce@ =~= self.nonce@.skip(n as int));
            assert(rest_data@ =~= data_buf@.skip(n as int));
            self.nonce = rest_nonce;
            return Ok(rest_data);
        }
        Ok(data_buf)
    }
}

/// Everything of the stream is unchanged but possibly the terminal flag.
pub open spec fn same_but_dead(pre: SecureStream, post: SecureStream) -> bool {
    &&& post.cipher_in == pre.cipher_in
    &&& post.cipher_out == pre.cipher_out
    &&& post.hmac_in == pre.hmac_in
    &&& post.hmac_out == pre.hmac_out
    &&& post.nonce == pre.nonce
    &&& post.pending_out == pre.pending_out
    &&& post.pending_in == pre.pending_in
    &&& post.handle_attached == pre.handle_attached
}

impl SecureStream {
    /// Handle one command from the handle. A `Frame` is encoded and queued;
    /// the returned action tells the driver what to do with the socket. A
    /// dead stream takes no commands: the driver drops them silently.
    pub fn handle_event(&mut self, event: StreamEvent) -> (a: DriverAction)
        requires
            old(self).wf(),
            !old(self).dead,
            (event matches StreamEvent::Frame(d) ==> old(self).cipher_out.pos + d@.len()
                <= u64::MAX),
        ensures
            final(self).wf(),
            (event matches StreamEvent::Frame(d) ==> {
                &&& a == DriverAction::SendPending
                &&& same_but_outbound(*old(self), *final(self))
                &&& final(self).cipher_out == old(self).cipher_out.advanced(d@.len() as int)
                &&& final(self).pending_out@.len() == old(self).pending_out@.len() + 1
                &&& (forall|i: int|
                    0 <= i < old(self).pending_out@.len() ==> final(self).pending_out@[i]
                        == old(self).pending_out@[i])
                &&& final(self).pending_out@.last()@ == encoded_frame(
                    old(self).cipher_out,
                    old(self).hmac_out,
                    d@,
                )
            }),
            (event matches StreamEvent::Flush ==> a == DriverAction::FlushAck && *final(self)
                == *old(self)),
            (event matches StreamEvent::Close ==> a == DriverAction::CloseSocket && final(self).dead
                && same_but_dead(*old(self), *final(self))),
    {
        match event {
            StreamEvent::Frame(frame) => {
                let mut frame = frame;
                self.encode(&mut frame);
                self.pending_out.push(frame);
                DriverAction::SendPending
            },
            StreamEvent::Flush => DriverAction::FlushAck,
            StreamEvent::Close => {
                self.dead = true;
                DriverAction::CloseSocket
            },
        }
    }

    /// Handle one frame pulled from the socket: decode it and queue the
    /// plaintext for the handle. Any error is fatal: the stream goes dead,
    /// and the driver must close the socket and hand EOF to the handle. A
    /// dead stream consumes no further frames.
    pub fn on_frame(&mut self, frame: &Vec<u8>) -> (r: Result<(), SecioError>)
        requires
            old(self).wf(),
            !old(self).dead,
            old(self).cipher_in.pos + frame@.len() <= u64::MAX,
        ensures
            final(self).wf(),
            final(self).cipher_out == old(self).cipher_out,
            final(self).hmac_out == old(self).hmac_out,
            final(self).hmac_in == old(self).hmac_in,
            final(self).pending_out == old(self).pending_out,
            final(self).handle_attached == old(self).handle_attached,
            ({
                let d = decode_spec(old(self).cipher_in, old(self).hmac_in, old(self).nonce@, frame@);
                let ct_len = frame@.len() - old(self).hmac_in.digest.spec_tag_size();
                match d {
                    Ok((pt, nn)) => {
                        &&& r matches Ok(u)
                        &&& !final(self).dead
                        &&& final(self).nonce@ == nn
                        &&& final(self).cipher_in == old(self).cipher_in.advanced(ct_len)
                        &&& final(self).pending_in@.len() == old(self).pending_in@.len() + 1
                        &&& (forall|i: int|
                            0 <= i < old(self).pending_in@.len() ==> final(self).pending_in@[i]
                                == old(self).pending_in@[i])
                        &&& final(self).pending_in@.last()@ == pt
                    },
                    Err(e) => {
                        &&& r matches Err(e2) && e2 == e
                        &&& final(self).dead
                        &&& final(self).nonce == old(self).nonce
                        &&& final(self).pending_in == old(self).pending_in
                        &&& if e == SecioError::NonceVerificationFailed {
                            final(self).cipher_in == old(self).cipher_in.advanced(ct_len)
                        } else {
                            final(self).cipher_in == old(self).cipher_in
                        }
                    },
                }
            }),
    {
        match self.decode(frame) {
            Ok(plain) => {
                self.pending_in.push(plain);
                Ok(())
            },
            Err(e) => {
                self.dead = true;
                Err(e)
            },
        }
    }

    /// End the session: the peer reached EOF, every handle was dropped, or a
    /// fatal error surfaced. Terminal; nothing else changes.
    pub fn terminate(&mut self)
        ensures
            final(self).dead,
            same_but_dead(*old(self), *final(self)),
    {
        self.dead = true;
    }

    /// The stream is finished: no frame may be produced or consumed anymore.
    pub fn is_dead(&self) -> (r: bool)
        ensures
            r == self.dead,
    {
        self.dead
    }

    /// The next encoded frame owed to the socket, oldest first.
    pub fn next_outbound(&mut self) -> (r: Option<Vec<u8>>)
        ensures
            old(self).pending_out@.len() == 0 ==> (r matches None && *final(self) == *old(self)),
            old(self).pending_out@.len() > 0 ==> (r matches Some(v) && v == old(self).pending_out@[0]
                && final(self).pending_out@ == old(self).pending_out@.skip(1)
                && same_but_outbound(*old(self), *final(self))
                && final(self).cipher_out == old(self).cipher_out),
    {
        if self.pending_out.len() == 0 {
            return None;
        }
        let v = self.pending_out.remove(0);
        assert(self.pending_out@ =~= old(self).pending_out@.skip(1));
        Some(v)
    }

    /// Put a frame the socket was not ready for back at the head of the
    /// outbound queue; it stays next in line.
    pub fn requeue_outbound(&mut self, frame: Vec<u8>)
        ensures
            final(self).pending_out@.len() == old(self).pending_out@.len() + 1,
            final(self).pending_out@[0] == frame,
            forall|i: int|
                0 <= i < old(self).pending_out@.len() ==> final(self).pending_out@[i + 1]
                    == old(self).pending_out@[i],
            same_but_outbound(*old(self), *final(self)),
            final(self).cipher_out == old(self).cipher_out,
    {
        self.pending_out.insert(0, frame);
    }

    /// Hand out up to `max` decoded plaintexts, oldest first, for delivery to
    /// the handle. `max` is how much room the data channel has: what does not
    /// fit stays queued, and nothing is ever dropped.
    pub fn take_inbound(&mut self, max: usize) -> (r: Vec<Vec<u8>>)
        ensures
            r@.len() == vstd::math::min(max as int, old(self).pending_in@.len() as int),
            forall|i: int| 0 <= i < r@.len() ==> r@[i] == old(self).pending_in@[i],
            final(self).pending_in@ == old(self).pending_in@.skip(r@.len() as int),
            same_but_inbound(*old(self), *final(self)),
            final(self).cipher_in == old(self).cipher_in,
            final(self).nonce == old(self).nonce,
    {
        let mut out: Vec<Vec<u8>> = Vec::new();
        while out.len() < max && self.pending_in.len() > 0
            invariant
                out@.len() <= max,
                out@.len() + self.pending_in@.len() == old(self).pending_in@.len(),
                out@.len() < max || out@.len() == max,
                forall|i: int| 0 <= i < out@.len() ==> out@[i] == old(self).pending_in@[i],
                self.pending_in@ == old(self).pending_in@.skip(out@.len() as int),
                same_but_inbound(*old(self), *self),
                self.cipher_in == old(self).cipher_in,
                self.nonce == old(self).nonce,
                self.pending_out == old(self).pending_out,
            decreases self.pending_in@.len(),
        {
            let v = self.pending_in.remove(0);
            assert(self.pending_in@ =~= old(self).pending_in@.skip(out@.len() as int + 1));
            out.push(v);
        }
        out
    }
}

/// How an encoded frame splits: its length, its ciphertext and tag parts, and
/// that decrypting the ciphertext part gives the plaintext back.
pub proof fn lemma_encoded_frame_parts(c: StreamCipher, h: Hmac, p: Seq<u8>)
    ensures
        encoded_frame(c, h, p).len() == p.len() + h.digest.spec_tag_size(),
        encoded_frame(c, h, p).subrange(0, p.len() as int) == xor_seq(
            p,
            c.stream_at(p.len() as int),
        ),
        encoded_frame(c, h, p).subrange(
            p.len() as int,
            encoded_frame(c, h, p).len() as int,
        ) == hmac_of(h.digest, h.key@, encoded_frame(c, h, p).subrange(0, p.len() as int)),
        xor_seq(encoded_frame(c, h, p).subrange(0, p.len() as int), c.stream_at(p.len() as int))
            == p,
{
    let ks = c.stream_at(p.len() as int);
    let ct = xor_seq(p, ks);
    let tag = hmac_of(h.digest, h.key@, ct);
    let frame = encoded_frame(c, h, p);
    assert(tag.len() == h.digest.spec_tag_size());
    assert(frame.subrange(0, p.len() as int) =~= ct);
    assert(frame.subrange(p.len() as int, frame.len() as int) =~= tag);
    lemma_xor_seq_involutive(p, ks);
}

/// Round trip: a frame encoded in cipher state `c` with MAC `h` decodes, in
/// the same state with nothing left to expect, to exactly the plaintext that
/// went in; both counters have then advanced by the plaintext length.
pub proof fn lemma_encode_decode_round_trip(c: StreamCipher, h: Hmac, p: Seq<u8>)
    ensures
        decode_spec(c, h, Seq::<u8>::empty(), encoded_frame(c, h, p)) == Ok::<
            (Seq<u8>, Seq<u8>),
            SecioError,
        >((p, Seq::<u8>::empty())),
        encoded_frame(c, h, p).len() - h.digest.spec_tag_size() == p.len(),
{
    lemma_encoded_frame_parts(c, h, p);
}

/// Any frame whose trailing tag bytes are not the MAC of its leading
/// ciphertext bytes is rejected as `HmacNotMatching`, whatever the cipher
/// state and the pending nonce.
pub proof fn lemma_mac_rejection(c: StreamCipher, h: Hmac, nonce: Seq<u8>, frame: Seq<u8>)
    requires
        frame.len() >= h.digest.spec_tag_size(),
        frame.subrange(frame.len() - h.digest.spec_tag_size(), frame.len() as int) != hmac_of(
            h.digest,
            h.key@,
            frame.subrange(0, frame.len() - h.digest.spec_tag_size()),
        ),
    ensures
        decode_spec(c, h, nonce, frame) == Err::<(Seq<u8>, Seq<u8>), SecioError>(
            SecioError::HmacNotMatching,
        ),
{
}

/// Altering any byte of the tag region of an encoded frame makes decoding
/// fail with `HmacNotMatching`.
pub proof fn lemma_tag_tamper_rejected(
    c: StreamCipher,
    h: Hmac,
    nonce: Seq<u8>,
    p: Seq<u8>,
    tampered: Seq<u8>,
    i: int,
)
    requires
        tampered.len() == encoded_frame(c, h, p).len(),
        p.len() <= i < tampered.len(),
        tampered[i] != encoded_frame(c, h, p)[i],
        forall|j: int|
            0 <= j < tampered.len() && j != i ==> tampered[j] == encoded_frame(c, h, p)[j],
    ensures
        decode_spec(c, h, nonce, tampered) == Err::<(Seq<u8>, Seq<u8>), SecioError>(
            SecioError::HmacNotMatching,
        ),
{
    let frame = encoded_frame(c, h, p);
    lemma_encoded_frame_parts(c, h, p);
    let tag_len = h.digest.spec_tag_size();
    let ct = frame.subrange(0, p.len() as int);
    assert(tampered.subrange(0, tampered.len() - tag_len) =~= ct);
    let tag2 = tampered.subrange(tampered.len() - tag_len, tampered.len() as int);
    let tag = frame.subrange(p.len() as int, frame.len() as int);
    assert(tag2[i - p.len()] != tag[i - p.len()]);
    assert(tag2 != hmac_of(h.digest, h.key@, ct));
    lemma_mac_rejection(c, h, nonce, tampered);
}

/// Altering ciphertext bytes of an encoded frame makes decoding fail with
/// `HmacNotMatching`, given that the altered ciphertext does not collide with
/// the original under the MAC — which is the point of a MAC, but a fact about
/// HMAC itself that this development does not model.
pub proof fn lemma_ciphertext_tamper_rejected(
    c: StreamCipher,
    h: Hmac,
    nonce: Seq<u8>,
    p: Seq<u8>,
    tampered: Seq<u8>,
)
    requires
        tampered.len() == encoded_frame(c, h, p).len(),
        tampered.subrange(tampered.len() - h.digest.spec_tag_size(), tampered.len() as int)
            == encoded_frame(c, h, p).subrange(
            p.len() as int,
            encoded_frame(c, h, p).len() as int,
        ),
        hmac_of(
            h.digest,
            h.key@,
            tampered.subrange(0, tampered.len() - h.digest.spec_tag_size()),
        ) != hmac_of(h.digest, h.key@, encoded_frame(c, h, p).subrange(0, p.len() as int)),
    ensures
        decode_spec(c, h, nonce, tampered) == Err::<(Seq<u8>, Seq<u8>), SecioError>(
            SecioError::HmacNotMatching,
        ),
{
    lemma_encoded_frame_parts(c, h, p);
    lemma_mac_rejection(c, h, nonce, tampered);
}

/// A frame shorter than the tag is rejected as `FrameTooShort`, whatever its
/// bytes.
pub proof fn lemma_truncation_below_tag(c: StreamCipher, h: Hmac, nonce: Seq<u8>, frame: Seq<u8>)
    requires
        frame.len() < h.digest.spec_tag_size(),
    ensures
        decode_spec(c, h, nonce, frame) == Err::<(Seq<u8>, Seq<u8>), SecioError>(
            SecioError::FrameTooShort,
        ),
{
}

/// Truncating an encoded frame while keeping at least a tag's worth of bytes
/// is rejected as `HmacNotMatching`, given that the bytes now sitting in the
/// tag position are not the MAC of the bytes before them — true of HMAC up to
/// a forgery, which this development does not model.
pub proof fn lemma_truncated_frame_rejected(
    c: StreamCipher,
    h: Hmac,
    nonce: Seq<u8>,
    p: Seq<u8>,
    m: int,
)
    requires
        h.digest.spec_tag_size() <= m < encoded_frame(c, h, p).len(),
        encoded_frame(c, h, p).take(m).subrange(m - h.digest.spec_tag_size(), m) != hmac_of(
            h.digest,
            h.key@,
            encoded_frame(c, h, p).take(m).subrange(0, m - h.digest.spec_tag_size()),
        ),
    ensures
        decode_spec(c, h, nonce, encoded_frame(c, h, p).take(m)) == Err::<
            (Seq<u8>, Seq<u8>),
            SecioError,
        >(SecioError::HmacNotMatching),
{
    lemma_mac_rejection(c, h, nonce, encoded_frame(c, h, p).take(m));
}

/// Nonce discipline, accepting side: when the peer's first frame carries the
/// promised nonce followed by payload, a receiver expecting that nonce
/// delivers exactly the payload, and nothing more is owed.
pub proof fn lemma_nonce_echo_accepted(c: StreamCipher, h: Hmac, expect: Seq<u8>, payload: Seq<u8>)
    ensures
        decode_spec(c, h, expect, encoded_frame(c, h, expect + payload)) == Ok::<
            (Seq<u8>, Seq<u8>),
            SecioError,
        >((payload, Seq::<u8>::empty())),
{
    let p = expect + payload;
    lemma_encoded_frame_parts(c, h, p);
    let frame = encoded_frame(c, h, p);
    let ct = frame.subrange(0, p.len() as int);
    let pt = xor_seq(ct, c.stream_at(ct.len() as int));
    assert(pt == p);
    if expect.len() > 0 {
        let n = vstd::math::min(pt.len() as int, expect.len() as int);
        assert(n == expect.len());
        assert(pt.subrange(0, n) =~= expect.subrange(0, n));
        assert(pt.skip(n) =~= payload);
        assert(expect.skip(n) =~= Seq::<u8>::empty());
    } else {
        assert(expect =~= Seq::<u8>::empty());
        assert(pt =~= payload);
    }
}

/// Nonce discipline across frames: while bytes of the nonce are still owed,
/// a frame carrying only part of them delivers nothing, and exactly the
/// unmatched tail stays owed.
pub proof fn lemma_nonce_partial_echo(c: StreamCipher, h: Hmac, expect: Seq<u8>, p: Seq<u8>)
    requires
        p.len() < expect.len(),
        p == expect.take(p.len() as int),
    ensures
        decode_spec(c, h, expect, encoded_frame(c, h, p)) == Ok::<(Seq<u8>, Seq<u8>), SecioError>(
            (Seq::<u8>::empty(), expect.skip(p.len() as int)),
        ),
{
    lemma_encoded_frame_parts(c, h, p);
    let frame = encoded_frame(c, h, p);
    let ct = frame.subrange(0, p.len() as int);
    let pt = xor_seq(ct, c.stream_at(ct.len() as int));
    assert(pt == p);
    let n = vstd::math::min(pt.len() as int, expect.len() as int);
    assert(n == p.len());
    assert(pt.subrange(0, n) =~= expect.subrange(0, n));
    assert(pt.skip(n) =~= Seq::<u8>::empty());
}

/// Nonce discipline, rejecting side: a receiver constructed with a wrong
/// expectation of the same length as the nonce actually sent fails with
/// `NonceVerificationFailed`; no bytes are delivered.
pub proof fn lemma_nonce_mismatch_rejected(
    c: StreamCipher,
    h: Hmac,
    expect: Seq<u8>,
    sent: Seq<u8>,
    payload: Seq<u8>,
)
    requires
        expect.len() == sent.len(),
        expect != sent,
        expect.len() > 0,
    ensures
        decode_spec(c, h, expect, encoded_frame(c, h, sent + payload)) == Err::<
            (Seq<u8>, Seq<u8>),
            SecioError,
        >(SecioError::NonceVerificationFailed),
{
    let p = sent + payload;
    lemma_encoded_frame_parts(c, h, p);
    let frame = encoded_frame(c, h, p);
    let ct = frame.subrange(0, p.len() as int);
    let pt = xor_seq(ct, c.stream_at(ct.len() as int));
    assert(pt == p);
    let n = vstd::math::min(pt.len() as int, expect.len() as int);
    assert(n == expect.len());
    assert(pt.subrange(0, n) =~= sent);
    assert(expect.subrange(0, n) =~= expect);
    assert(pt.subrange(0, n) != expect.subrange(0, n));
}

/// The frames a sender in state `(c, h)` produces for the plaintexts `ps`,
/// in order, each advancing the cipher past the previous one.
pub open spec fn encode_all(c: StreamCipher, h: Hmac, ps: Seq<Seq<u8>>) -> Seq<Seq<u8>>
    decreases ps.len(),
{
    if ps.len() == 0 {
        Seq::empty()
    } else {
        seq![encoded_frame(c, h, ps[0])] + encode_all(c.advanced(ps[0].len() as int), h, ps.skip(1))
    }
}

/// The plaintexts a receiver in state `(c, h)` with nothing left to expect
/// recovers from `frames`, in order — or nothing, if any frame fails.
pub open spec fn decode_all(c: StreamCipher, h: Hmac, frames: Seq<Seq<u8>>) -> Option<Seq<Seq<u8>>>
    decreases frames.len(),
{
    if frames.len() == 0 {
        Some(Seq::empty())
    } else {
        match decode_spec(c, h, Seq::<u8>::empty(), frames[0]) {
            Ok((pt, nn)) => match decode_all(c.advanced(pt.len() as int), h, frames.skip(1)) {
                Some(rest) => Some(seq![pt] + rest),
                None => None,
            },
            Err(e) => None,
        }
    }
}

/// Ordering and integrity over a whole session: a receiver whose cipher
/// starts where the sender's started recovers every plaintext, in the order
/// it was written, whatever the chunk sizes.
pub proof fn lemma_stream_round_trip(c: StreamCipher, h: Hmac, ps: Seq<Seq<u8>>)
    ensures
        decode_all(c, h, encode_all(c, h, ps)) == Some(ps),
    decreases ps.len(),
{
    if ps.len() == 0 {
        assert(encode_all(c, h, ps).len() == 0);
        assert(decode_all(c, h, encode_all(c, h, ps)) == Some(Seq::<Seq<u8>>::empty()));
        assert(ps =~= Seq::<Seq<u8>>::empty());
    } else {
        let frames = encode_all(c, h, ps);
        let c2 = c.advanced(ps[0].len() as int);
        lemma_encode_decode_round_trip(c, h, ps[0]);
        lemma_stream_round_trip(c2, h, ps.skip(1));
        assert(frames[0] == encoded_frame(c, h, ps[0]));
        assert(frames.skip(1) =~= encode_all(c2, h, ps.skip(1)));
        assert(decode_all(c, h, frames) matches Some(r) && r =~= ps);
    }
}

/// The bytes of a sequence of chunks, in order.
pub open spec fn concat_all(chunks: Seq<Seq<u8>>) -> Seq<u8>
    decreases chunks.len(),
{
    if chunks.len() == 0 {
        Seq::empty()
    } else {
        chunks[0] + concat_all(chunks.skip(1))
    }
}

/// Bytes read equal bytes written: over a whole session the receiver's
/// plaintext stream is, byte for byte, the sender's, whatever the chunking.
pub proof fn lemma_bytes_arrive_in_order(c: StreamCipher, h: Hmac, ps: Seq<Seq<u8>>)
    ensures
        decode_all(c, h, encode_all(c, h, ps)) matches Some(r) && concat_all(r) == concat_all(ps),
{
    lemma_stream_round_trip(c, h, ps);
}

/// The first `n` bytes of `a` and `b` are equal.
fn prefix_eq(a: &[u8], b: &[u8], n: usize) -> (r: bool)
    requires
        n <= a@.len(),
        n <= b@.len(),
    ensures
        r == (a@.subrange(0, n as int) == b@.subrange(0, n as int)),
{
    let mut i: usize = 0;
    while i < n
        invariant
            i <= n,
            n <= a@.len(),
            n <= b@.len(),
            forall|j: int| 0 <= j < i ==> a@[j] == b@[j],
        decreases n - i,
    {
        if a[i] != b[i] {
            assert(a@.subrange(0, n as int)[i as int] != b@.subrange(0, n as int)[i as int]);
            return false;
        }
        i = i + 1;
    }
    assert(a@.subrange(0, n as int) =~= b@.subrange(0, n as int));
    true
}

} // verus!

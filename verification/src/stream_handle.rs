//! The caller-facing duplex endpoint of a secure stream. The handle owns two
//! scratch buffers: inbound plaintext waiting to be read, and outbound bytes
//! waiting to be packaged into a frame. The channels that carry frames and
//! commands between handle and stream belong to the driver around the
//! library; the buffer discipline is verified here.

use vstd::prelude::*;
use vstd::slice::{slice_subrange, slice_to_vec};

use crate::secure_stream::StreamEvent;

verus! {

/// The bound of the command and data channels between handle and stream.
pub const CHANNEL_CAPACITY: usize = 1024;

/// The bounded command channel from the handle to its stream. A full queue
/// hands the command back to the writer — a cooperative suspension point —
/// and never drops it.
pub struct CommandQueue {
    /// Queued commands, oldest first.
    pub items: Vec<StreamEvent>,
    /// No more than this many commands may wait.
    pub cap: usize,
}

impl CommandQueue {
    /// An empty queue bounded by `cap`.
    pub fn new(cap: usize) -> (r: CommandQueue)
        ensures
            r.items@.len() == 0,
            r.cap == cap,
    {
        CommandQueue { items: Vec::new(), cap }
    }

    /// Try to queue a command: a full queue returns it to the sender
    /// unchanged rather than dropping it.
    pub fn try_send(&mut self, event: StreamEvent) -> (r: Option<StreamEvent>)
        ensures
            old(self).items@.len() < old(self).cap ==> (r is None && final(self).items@ == old(
                self,
            ).items@.push(event) && final(self).cap == old(self).cap),
            old(self).items@.len() >= old(self).cap ==> (*final(self) == *old(self) && (r matches
            Some(e) && e == event)),
    {
        if self.items.len() < self.cap {
            self.items.push(event);
            None
        } else {
            Some(event)
        }
    }

    /// Take the oldest queued command.
    pub fn pop(&mut self) -> (r: Option<StreamEvent>)
        ensures
            old(self).items@.len() == 0 ==> (r is None && *final(self) == *old(self)),
            old(self).items@.len() > 0 ==> (r matches Some(e) && e == old(self).items@[0]
                && final(self).items@ == old(self).items@.skip(1) && final(self).cap == old(
                self,
            ).cap),
    {
        if self.items.len() == 0 {
            return None;
        }
        let e = self.items.remove(0);
        assert(self.items@ =~= old(self).items@.skip(1));
        Some(e)
    }

    /// How many commands wait.
    pub fn len(&self) -> (r: usize)
        ensures
            r == self.items@.len(),
    {
        self.items.len()
    }
}

/// A byte-oriented duplex endpoint backed by a secure stream.
pub struct StreamHandle {
    /// Decoded plaintext delivered by the stream and not yet read.
    pub recv_buf: Vec<u8>,
    /// Bytes written by the caller and not yet packaged as a frame.
    pub write_buf: Vec<u8>,
    /// The stream has closed; reads drain `recv_buf` and then report EOF.
    pub closed: bool,
}

impl StreamHandle {
    /// A fresh handle with empty buffers.
    pub fn new() -> (r: StreamHandle)
        ensures
            r.recv_buf@.len() == 0,
            r.write_buf@.len() == 0,
            !r.closed,
    {
        StreamHandle { recv_buf: Vec::new(), write_buf: Vec::new(), closed: false }
    }

    /// Accept one decoded plaintext frame from the stream: its bytes queue
    /// behind whatever is already buffered, in wire order.
    pub fn on_frame(&mut self, data: &[u8])
        ensures
            final(self).recv_buf@ == old(self).recv_buf@ + data@,
            final(self).write_buf == old(self).write_buf,
            final(self).closed == old(self).closed,
    {
        let mut incoming = slice_to_vec(data);
        self.recv_buf.append(&mut incoming);
    }

    /// Observe the stream's close: later reads end with EOF once drained.
    pub fn on_close(&mut self)
        ensures
            final(self).closed,
            final(self).recv_buf == old(self).recv_buf,
            final(self).write_buf == old(self).write_buf,
    {
        self.closed = true;
    }

    /// Take up to `n` buffered bytes, in order. An empty result with
    /// `is_eof()` true means the peer is done.
    pub fn read(&mut self, n: usize) -> (r: Vec<u8>)
        ensures
            r@ == old(self).recv_buf@.take(vstd::math::min(n as int, old(self).recv_buf@.len() as int)),
            final(self).recv_buf@ == old(self).recv_buf@.skip(
                vstd::math::min(n as int, old(self).recv_buf@.len() as int),
            ),
            final(self).write_buf == old(self).write_buf,
            final(self).closed == old(self).closed,
    {
        let k = if n < self.recv_buf.len() {
            n
        } else {
            self.recv_buf.len()
        };
        let head = slice_to_vec(slice_subrange(self.recv_buf.as_slice(), 0, k));
        let tail = slice_to_vec(slice_subrange(self.recv_buf.as_slice(), k, self.recv_buf.len()));
        assert(head@ =~= self.recv_buf@.take(k as int));
        assert(tail@ =~= self.recv_buf@.skip(k as int));
        self.recv_buf = tail;
        head
    }

    /// The stream has closed and every delivered byte has been read.
    pub fn is_eof(&self) -> (r: bool)
        ensures
            r == (self.closed && self.recv_buf@.len() == 0),
    {
        self.closed && self.recv_buf.len() == 0
    }

    /// Buffer bytes for the wire; they leave as a frame on the next flush.
    pub fn write(&mut self, buf: &[u8])
        ensures
            final(self).write_buf@ == old(self).write_buf@ + buf@,
            final(self).recv_buf == old(self).recv_buf,
            final(self).closed == old(self).closed,
    {
        let mut outgoing = slice_to_vec(buf);
        self.write_buf.append(&mut outgoing);
    }

    /// Buffer bytes for the wire and, once the buffer has reached the
    /// framing limit, hand everything buffered back as one frame payload;
    /// below the limit the bytes wait for a flush.
    pub fn write_with_limit(&mut self, buf: &[u8], limit: usize) -> (r: Option<Vec<u8>>)
        ensures
            old(self).write_buf@.len() + buf@.len() >= limit ==> (r matches Some(v) && v@ == old(
                self,
            ).write_buf@ + buf@ && final(self).write_buf@.len() == 0),
            old(self).write_buf@.len() + buf@.len() < limit ==> (r is None && final(self).write_buf@
                == old(self).write_buf@ + buf@),
            final(self).recv_buf == old(self).recv_buf,
            final(self).closed == old(self).closed,
    {
        self.write(buf);
        if self.write_buf.len() >= limit {
            Some(self.flush_payload())
        } else {
            None
        }
    }

    /// Take everything buffered for the wire as one frame payload; the
    /// caller sends it to the stream as a `Frame` command.
    pub fn flush_payload(&mut self) -> (r: Vec<u8>)
        ensures
            r@ == old(self).write_buf@,
            final(self).write_buf@.len() == 0,
            final(self).recv_buf == old(self).recv_buf,
            final(self).closed == old(self).closed,
    {
        let mut out: Vec<u8> = Vec::new();
        core::mem::swap(&mut out, &mut self.write_buf);
        out
    }
}

} // verus!

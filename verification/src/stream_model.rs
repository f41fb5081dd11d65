//! Models of the abstract full-duplex stream, as plain data.
//!
//! A real transport is asynchronous: every operation is a `poll_*` that may
//! suspend. The forwarder's behaviour, though, is a function of the values
//! those polls eventually produce. `SourceStream` scripts the receive side
//! (the chunks a peer will emit before EOF or failure) and `SinkStream`
//! records what the transmit side is given, so the forwarders can be
//! specified and verified over every script.

use vstd::prelude::*;

use crate::flow::{FlowError, SizeHint};

verus! {

/// Bytes of `chunks[i..]`, concatenated in order.
pub open spec fn bytes_from(chunks: Seq<Seq<u8>>, i: int) -> Seq<u8>
    decreases chunks.len() - i,
    when 0 <= i
{
    if i >= chunks.len() {
        Seq::empty()
    } else {
        chunks[i] + bytes_from(chunks, i + 1)
    }
}

/// A buffer committed to a receive side for filling, together with the
/// reserved prefix length it arrived with.
pub struct PendingBuf {
    pub buf: Vec<u8>,
    pub offset: usize,
}

/// The receive half of a stream, scripted: it will fill committed buffers
/// with `chunks[next..]` one per poll, then signal EOF (or a transport
/// failure when `fails` is set). When `rejects_commits` is set, every
/// `commit_rx_buffer` is refused and the buffer handed back.
pub struct SourceStream {
    pub chunks: Vec<Vec<u8>>,
    pub next: usize,
    pub fails: bool,
    pub rejects_commits: bool,
    pub pending: Option<PendingBuf>,
}

impl SourceStream {
    /// The chunk payloads still to be emitted.
    pub open spec fn remaining(self) -> Seq<Seq<u8>> {
        self.chunks.deep_view().skip(self.next as int)
    }

    /// All bytes still to be emitted, in order.
    pub open spec fn remaining_bytes(self) -> Seq<u8> {
        bytes_from(self.chunks.deep_view(), self.next as int)
    }

    pub open spec fn wf(self) -> bool {
        self.next <= self.chunks.len()
    }

    /// A fresh source that will emit `chunks` then EOF (or fail, when
    /// `fails` is set).
    pub fn new(chunks: Vec<Vec<u8>>, fails: bool, rejects_commits: bool) -> (s: SourceStream)
        ensures
            s.wf(),
            s.chunks == chunks,
            s.next == 0,
            s.fails == fails,
            s.rejects_commits == rejects_commits,
            s.pending is None,
    {
        SourceStream { chunks, next: 0, fails, rejects_commits, pending: None }
    }

    /// Ask how much the peer wants to send next: the model advertises the
    /// exact length of the next chunk, or no estimate once drained.
    pub fn poll_request_size(&mut self) -> (r: SizeHint)
        requires
            old(self).wf(),
            old(self).pending is None,
        ensures
            *final(self) == *old(self),
            old(self).next < old(self).chunks.len() ==> r.bound == Some(
                old(self).chunks[old(self).next as int]@.len() as usize,
            ),
            old(self).next >= old(self).chunks.len() ==> r.bound is None,
    {
        if self.next < self.chunks.len() {
            SizeHint { bound: Some(self.chunks[self.next].len()) }
        } else {
            SizeHint { bound: None }
        }
    }

    /// Submit a buffer to be filled behind its reserved prefix. On refusal
    /// the very buffer comes back with the error.
    pub fn commit_rx_buffer(&mut self, buf: Vec<u8>, offset: usize) -> (r: Result<
        (),
        (Vec<u8>, FlowError),
    >)
        requires
            old(self).wf(),
            old(self).pending is None,
            buf@.len() == offset,
        ensures
            final(self).wf(),
            final(self).chunks == old(self).chunks,
            final(self).next == old(self).next,
            final(self).fails == old(self).fails,
            final(self).rejects_commits == old(self).rejects_commits,
            old(self).rejects_commits ==> (r matches Err(e) && e.0 == buf && e.1
                == FlowError::Other) && final(self).pending is None,
            !old(self).rejects_commits ==> r is Ok && (final(self).pending matches Some(p) && p.buf
                == buf && p.offset == offset),
    {
        if self.rejects_commits {
            Err((buf, FlowError::Other))
        } else {
            self.pending = Some(PendingBuf { buf, offset });
            Ok(())
        }
    }

    /// Harvest the committed buffer: filled with the next chunk, or handed
    /// back untouched together with EOF (or the scripted failure).
    pub fn poll_rx_buffer(&mut self) -> (r: Result<Vec<u8>, (Vec<u8>, FlowError)>)
        requires
            old(self).wf(),
            old(self).pending is Some,
        ensures
            final(self).wf(),
            final(self).chunks == old(self).chunks,
            final(self).fails == old(self).fails,
            final(self).rejects_commits == old(self).rejects_commits,
            final(self).pending is None,
            old(self).next < old(self).chunks.len() ==> {
                &&& final(self).next == old(self).next + 1
                &&& r matches Ok(b) && b@ == old(self).pending->Some_0.buf@ + old(
                    self,
                ).chunks.deep_view()[old(self).next as int]
            },
            old(self).next >= old(self).chunks.len() ==> {
                &&& final(self).next == old(self).next
                &&& r matches Err(e) && e.0 == old(self).pending->Some_0.buf && e.1 == (
                if old(self).fails {
                    FlowError::Other
                } else {
                    FlowError::Eof
                })
            },
    {
        let mut taken: Option<PendingBuf> = None;
        core::mem::swap(&mut taken, &mut self.pending);
        let p = taken.unwrap();
        let mut buf = p.buf;
        if self.next < self.chunks.len() {
            let chunk = &self.chunks[self.next];
            let mut i: usize = 0;
            while i < chunk.len()
                invariant
                    i <= chunk@.len(),
                    buf@ == p.buf@ + chunk@.subrange(0, i as int),
                decreases chunk@.len() - i,
            {
                buf.push(chunk[i]);
                i = i + 1;
            }
            assert(chunk@.subrange(0, chunk@.len() as int) =~= chunk@);
            assert(self.chunks.deep_view()[self.next as int] == chunk@);
            self.next = self.next + 1;
            Ok(buf)
        } else {
            let e = if self.fails {
                FlowError::Other
            } else {
                FlowError::Eof
            };
            Err((buf, e))
        }
    }
}

/// The transmit half of a stream. It lends buffers that carry a reserved
/// framing prefix of `offset` copies of `prefix_byte`, and accepts them back
/// via `commit_tx_buffer`; the bytes behind the prefix are what it sends.
pub struct SinkStream {
    pub offset: usize,
    pub prefix_byte: u8,
    pub lent: bool,
    pub received: Vec<u8>,
    pub closes: u32,
}

impl SinkStream {
    /// The framing prefix every lent buffer starts with.
    pub open spec fn prefix(self) -> Seq<u8> {
        Seq::new(self.offset as nat, |i: int| self.prefix_byte)
    }

    /// The payload bytes this side has accepted for transmission.
    pub open spec fn payload(self) -> Seq<u8> {
        self.received@
    }

    /// A fresh sink that reserves `offset` prefix bytes on every buffer.
    pub fn new(offset: usize, prefix_byte: u8) -> (s: SinkStream)
        ensures
            s.offset == offset,
            s.prefix_byte == prefix_byte,
            !s.lent,
            s.payload() == Seq::<u8>::empty(),
            s.closes == 0,
    {
        SinkStream { offset, prefix_byte, lent: false, received: Vec::new(), closes: 0 }
    }

    /// Lend a writable buffer: its reserved prefix is already in place and
    /// the caller appends payload behind it.
    pub fn poll_tx_buffer(&mut self, size: usize) -> (r: (Vec<u8>, usize))
        requires
            !old(self).lent,
        ensures
            final(self).offset == old(self).offset,
            final(self).prefix_byte == old(self).prefix_byte,
            final(self).received == old(self).received,
            final(self).closes == old(self).closes,
            final(self).lent,
            r.0@ == old(self).prefix(),
            r.1 == old(self).offset,
    {
        let buf: Vec<u8> = vec![self.prefix_byte; self.offset];
        self.lent = true;
        assert(buf@ =~= self.prefix());
        (buf, self.offset)
    }

    /// Take the lent buffer back for transmission. The caller must return
    /// the very buffer it was lent: the reserved prefix intact, payload (if
    /// any) appended behind it.
    pub fn commit_tx_buffer(&mut self, buf: Vec<u8>) -> (r: Result<(), FlowError>)
        requires
            old(self).lent,
            buf@.len() >= old(self).offset,
            buf@.subrange(0, old(self).offset as int) == old(self).prefix(),
        ensures
            final(self).offset == old(self).offset,
            final(self).prefix_byte == old(self).prefix_byte,
            final(self).closes == old(self).closes,
            !final(self).lent,
            final(self).payload() == old(self).payload() + buf@.skip(old(self).offset as int),
            r is Ok,
    {
        let mut i: usize = self.offset;
        let ghost received0 = self.received@;
        while i < buf.len()
            invariant
                self.offset <= i <= buf@.len(),
                self.received@ == received0 + buf@.subrange(self.offset as int, i as int),
                self.offset == old(self).offset,
                self.prefix_byte == old(self).prefix_byte,
                self.closes == old(self).closes,
                self.lent == old(self).lent,
                buf@.len() >= self.offset,
            decreases buf@.len() - i,
        {
            self.received.push(buf[i]);
            i = i + 1;
        }
        assert(buf@.subrange(self.offset as int, buf@.len() as int) =~= buf@.skip(
            self.offset as int,
        ));
        self.lent = false;
        Ok(())
    }

    /// Signal that no more data will be sent.
    pub fn poll_close_tx(&mut self) -> (r: Result<(), FlowError>)
        requires
            old(self).closes < u32::MAX,
        ensures
            final(self).offset == old(self).offset,
            final(self).prefix_byte == old(self).prefix_byte,
            final(self).received == old(self).received,
            final(self).lent == old(self).lent,
            final(self).closes == old(self).closes + 1,
            r is Ok,
    {
        self.closes = self.closes + 1;
        Ok(())
    }
}

/// A full-duplex stream: a receive half and a transmit half.
pub struct ModelStream {
    pub src: SourceStream,
    pub sink: SinkStream,
}

} // verus!

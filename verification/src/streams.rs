//! Stream identifiers.  A stream ID encodes its initiator and direction in
//! the two low bits: bit 0 is the initiator (server when set), bit 1 the
//! direction (unidirectional when set).

use vstd::prelude::*;

use crate::{Error, Res, Role};

verus! {

/// The two stream directions.
#[derive(Debug, Clone, Copy, PartialEq, Eq, Structural)]
pub enum StreamType {
    BiDi,
    UniDi,
}

/// A stream identifier.
#[derive(Debug, Clone, Copy, PartialEq, Eq, Structural)]
pub struct StreamId {
    pub id: u64,
}

impl StreamId {
    pub fn new(id: u64) -> (r: StreamId)
        ensures
            r.id == id,
    {
        StreamId { id }
    }

    pub fn as_u64(&self) -> (r: u64)
        ensures
            r == self.id,
    {
        self.id
    }

    pub open spec fn spec_stream_type(self) -> StreamType {
        if self.id & 2 == 2 {
            StreamType::UniDi
        } else {
            StreamType::BiDi
        }
    }

    pub fn stream_type(&self) -> (r: StreamType)
        ensures
            r == self.spec_stream_type(),
    {
        if self.id & 2 == 2 {
            StreamType::UniDi
        } else {
            StreamType::BiDi
        }
    }

    pub open spec fn spec_initiator(self) -> Role {
        if self.id & 1 == 1 {
            Role::Server
        } else {
            Role::Client
        }
    }

    pub fn initiator(&self) -> (r: Role)
        ensures
            r == self.spec_initiator(),
    {
        if self.id & 1 == 1 {
            Role::Server
        } else {
            Role::Client
        }
    }
}


/// The sending half of one stream.  Every byte the application handed over
/// is kept until the stream is done, so that a loss can move the send
/// cursor back and the same bytes go out again.
#[derive(Debug)]
pub struct SendStream {
    pub id: StreamId,
    /// Every byte the application gave, in order from offset zero.
    pub buffer: Vec<u8>,
    /// The next offset to put on the wire; a loss moves it back.
    pub next: u64,
    /// The application closed its side; a fin goes out with the last byte.
    pub fin_queued: bool,
    /// The fin has been framed and not since been declared lost.
    pub fin_sent: bool,
    /// The peer's per-stream flow-control limit.
    pub max_stream_data_remote: u64,
}

impl SendStream {
    /// The send cursor stays within the buffered bytes.
    pub open spec fn wf(self) -> bool {
        self.next <= self.buffer@.len()
    }

    pub fn new(id: StreamId, max_stream_data_remote: u64) -> (r: SendStream)
        ensures
            r.wf(),
            r.id == id,
            r.buffer@.len() == 0,
            r.next == 0,
            !r.fin_queued,
            !r.fin_sent,
            r.max_stream_data_remote == max_stream_data_remote,
    {
        SendStream {
            id,
            buffer: Vec::new(),
            next: 0,
            fin_queued: false,
            fin_sent: false,
            max_stream_data_remote,
        }
    }

    /// Accepts more application bytes at the back of the stream.
    pub fn append(&mut self, data: &[u8])
        requires
            old(self).wf(),
            old(self).buffer@.len() + data@.len() <= usize::MAX,
        ensures
            final(self).wf(),
            final(self).buffer@ == old(self).buffer@ + data@,
            *final(self) == (SendStream { buffer: final(self).buffer, ..*old(self) }),
    {
        let ghost prefix = self.buffer@;
        let mut i: usize = 0;
        while i < data.len()
            invariant
                i <= data@.len(),
                prefix.len() + data@.len() <= usize::MAX,
                self.buffer@ == prefix + data@.subrange(0, i as int),
                *self == (SendStream { buffer: self.buffer, ..*old(self) }),
                self.next == old(self).next,
                self.next <= prefix.len(),
            decreases data@.len() - i,
        {
            self.buffer.push(data[i]);
            i = i + 1;
            proof {
                assert(self.buffer@ =~= prefix + data@.subrange(0, i as int));
            }
        }
        proof {
            assert(self.buffer@ =~= prefix + data@);
        }
    }

    /// Bytes waiting to be sent (or resent) from the cursor on.
    pub fn pending_len(&self) -> (r: usize)
        requires
            self.wf(),
        ensures
            r == self.buffer@.len() - self.next,
    {
        self.buffer.len() - self.next as usize
    }

    /// How many bytes may be framed right now: what waits at the cursor,
    /// capped by the peer's stream window and the connection's credit.
    pub fn sendable(&self, conn_credit: u64) -> (r: usize)
        requires
            self.wf(),
        ensures
            r <= self.buffer@.len() - self.next,
            // Never beyond the peer's per-stream window.
            self.next + r <= self.max_stream_data_remote || r == 0,
            // Never beyond the connection's remaining credit.
            r <= conn_credit,
    {
        let stream_credit = self.max_stream_data_remote.saturating_sub(self.next);
        let credit = if stream_credit <= conn_credit {
            stream_credit
        } else {
            conn_credit
        };
        let pending = self.buffer.len() - self.next as usize;
        if pending as u64 <= credit {
            pending
        } else {
            credit as usize
        }
    }

    /// Takes the next `n` bytes at the cursor and advances it; the returned
    /// bytes are exactly the buffered bytes at the cursor's offsets.
    pub fn take(&mut self, n: usize) -> (r: Vec<u8>)
        requires
            old(self).wf(),
            old(self).next + n <= old(self).buffer@.len(),
        ensures
            final(self).wf(),
            r@ == old(self).buffer@.subrange(
                old(self).next as int,
                old(self).next + n,
            ),
            final(self).next == old(self).next + n,
            *final(self) == (SendStream { next: final(self).next, ..*old(self) }),
    {
        let blen = self.buffer.len();
        proof {
            assert(self.next <= blen);
        }
        let from = self.next as usize;
        proof {
            assert(from as int == old(self).next as int);
            assert(from + n <= self.buffer@.len());
        }
        let r = crate::frame::copy_range(self.buffer.as_slice(), from, from + n);
        self.next = self.next + n as u64;
        r
    }

    /// A loss report for bytes at `offset`: the cursor moves back so they
    /// go out again, and a lost fin will be resent too.
    pub fn mark_lost(&mut self, offset: u64, fin: bool)
        requires
            old(self).wf(),
        ensures
            final(self).wf(),
            final(self).next == if offset < old(self).next {
                offset
            } else {
                old(self).next
            },
            final(self).fin_sent == (old(self).fin_sent && !fin),
            *final(self) == (SendStream {
                next: final(self).next,
                fin_sent: final(self).fin_sent,
                ..*old(self)
            }),
    {
        if offset < self.next {
            self.next = offset;
        }
        if fin {
            self.fin_sent = false;
        }
    }
}

/// One received, possibly out-of-order, stream segment.
#[derive(Debug)]
pub struct RecvSegment {
    pub offset: u64,
    pub data: Vec<u8>,
}

/// The receiving half of one stream: segments await reassembly, and a read
/// cursor hands contiguous bytes to the application.
#[derive(Debug)]
pub struct RecvStream {
    pub id: StreamId,
    /// Out-of-order segments, in arrival order.
    pub segments: Vec<RecvSegment>,
    /// All bytes below this offset were handed to the application.
    pub read_offset: u64,
    /// The stream's total length, once the fin arrived.
    pub fin_offset: Option<u64>,
    /// The fin was delivered to the application.
    pub fin_read: bool,
}

/// The byte at `off` according to the stored segments: the first segment
/// that covers the offset decides.
pub open spec fn spec_byte_at(segs: Seq<RecvSegment>, off: int) -> Option<u8>
    decreases segs.len(),
{
    if segs.len() == 0 {
        Option::None
    } else {
        let s = segs[0];
        if s.offset <= off < s.offset + s.data@.len() {
            Option::Some(s.data@[off - s.offset])
        } else {
            spec_byte_at(segs.drop_first(), off)
        }
    }
}

impl RecvStream {
    pub fn new(id: StreamId) -> (r: RecvStream)
        ensures
            r.id == id,
            r.segments@.len() == 0,
            r.read_offset == 0,
            r.fin_offset is None,
            !r.fin_read,
    {
        RecvStream {
            id,
            segments: Vec::new(),
            read_offset: 0,
            fin_offset: Option::None,
            fin_read: false,
        }
    }

    /// Stores one received segment.  Later bytes for an offset never
    /// override earlier ones, so if every segment is a true fragment of one
    /// original, the stream reassembles that original.
    pub fn insert(&mut self, offset: u64, data: Vec<u8>, fin: bool) -> (r: Res<()>)
        ensures
            r is Ok ==> final(self).segments@ == old(self).segments@.push(
                (RecvSegment { offset, data }),
            ),
            r is Ok ==> forall|o: int|
                spec_byte_at(old(self).segments@, o) is Some ==> spec_byte_at(
                    final(self).segments@,
                    o,
                ) == spec_byte_at(old(self).segments@, o),
            final(self).read_offset == old(self).read_offset,
            final(self).id == old(self).id,
    {
        if offset.checked_add(data.len() as u64).is_none() {
            return Err(Error::FrameEncodingError);
        }
        let seg_end = offset + data.len() as u64;
        if fin {
            match self.fin_offset {
                Option::Some(f) => {
                    if f != seg_end {
                        return Err(Error::FinalSizeError);
                    }
                },
                Option::None => {
                    self.fin_offset = Option::Some(seg_end);
                },
            }
        } else {
            if let Option::Some(f) = self.fin_offset {
                if seg_end > f {
                    return Err(Error::FinalSizeError);
                }
            }
        }
        let ghost old_segs = self.segments@;
        self.segments.push(RecvSegment { offset, data });
        proof {
            lemma_byte_at_push(old_segs, (RecvSegment { offset, data }));
        }
        Ok(())
    }

    /// Whether a contiguous byte, or the fin, waits at the read cursor.
    pub fn readable(&self) -> (r: bool)
        ensures
            r == (self.fin_offset == Option::Some(self.read_offset) && !self.fin_read
                || spec_byte_at(self.segments@, self.read_offset as int) is Some && !(
            self.fin_offset == Option::Some(self.read_offset))),
    {
        if self.fin_at_cursor() {
            return !self.fin_read;
        }
        self.byte_at(self.read_offset).is_some()
    }

    fn fin_at_cursor(&self) -> (r: bool)
        ensures
            r == (self.fin_offset == Option::Some(self.read_offset)),
    {
        match self.fin_offset {
            Option::Some(f) => f == self.read_offset,
            Option::None => false,
        }
    }

    /// The stored byte at `off`, from the earliest segment covering it.
    fn byte_at(&self, off: u64) -> (r: Option<u8>)
        ensures
            r == spec_byte_at(self.segments@, off as int),
    {
        let mut i: usize = 0;
        proof {
            assert(self.segments@.skip(0) =~= self.segments@);
        }
        while i < self.segments.len()
            invariant
                i <= self.segments@.len(),
                spec_byte_at(self.segments@, off as int) == spec_byte_at(
                    self.segments@.skip(i as int),
                    off as int,
                ),
            decreases self.segments@.len() - i,
        {
            let s = &self.segments[i];
            proof {
                assert(self.segments@.skip(i as int)[0] == self.segments@[i as int]);
                assert(self.segments@.skip(i as int).drop_first() =~= self.segments@.skip(
                    i as int + 1,
                ));
            }
            if s.offset <= off && off - s.offset < s.data.len() as u64 {
                return Option::Some(s.data[(off - s.offset) as usize]);
            }
            i = i + 1;
        }
        Option::None
    }

    /// Reads contiguous bytes from the cursor into `buf`, and reports
    /// whether the fin was reached.  Every byte handed out is exactly the
    /// stored byte at its offset, so a receiver that was sent fragments of
    /// one original reads that original back.
    pub fn read(&mut self, buf: &mut Vec<u8>, max: usize) -> (r: bool)
        ensures
            final(self).segments@ == old(self).segments@,
            final(self).id == old(self).id,
            final(self).fin_offset == old(self).fin_offset,
            final(buf)@.len() >= old(buf)@.len(),
            final(buf)@.len() - old(buf)@.len() <= max,
            // What was in the buffer stays; the cursor advances in step
            // with what was appended.
            final(buf)@.subrange(0, old(buf)@.len() as int) == old(buf)@,
            final(self).read_offset - old(self).read_offset == final(buf)@.len() - old(
                buf,
            )@.len(),
            // Each appended byte is the stored byte at its offset.
            forall|k: int|
                old(buf)@.len() <= k < final(buf)@.len() ==> Option::Some(
                    #[trigger] final(buf)@[k],
                ) == spec_byte_at(
                    old(self).segments@,
                    old(self).read_offset + (k - old(buf)@.len()),
                ),
            // The fin is reported exactly when the cursor reached it, and
            // is then remembered as delivered.
            r == (final(self).fin_offset == Option::Some(final(self).read_offset)),
            final(self).fin_read == (old(self).fin_read || r),
    {
        let mut n: usize = 0;
        while n < max
            invariant
                self.segments@ == old(self).segments@,
                n <= max,
                buf@.len() - old(buf)@.len() == n,
                buf@.subrange(0, old(buf)@.len() as int) == old(buf)@,
                self.read_offset - old(self).read_offset == n,
                forall|k: int|
                    old(buf)@.len() <= k < buf@.len() ==> Option::Some(#[trigger] buf@[k])
                        == spec_byte_at(
                        old(self).segments@,
                        old(self).read_offset + (k - old(buf)@.len()),
                    ),
                self.fin_offset == old(self).fin_offset,
                self.fin_read == old(self).fin_read,
                self.id == old(self).id,
            decreases max - n,
        {
            if self.read_offset == u64::MAX {
                break ;
            }
            match self.byte_at(self.read_offset) {
                Option::Some(v) => {
                    let ghost before = buf@;
                    buf.push(v);
                    self.read_offset = self.read_offset + 1;
                    n = n + 1;
                    proof {
                        assert(buf@.subrange(0, old(buf)@.len() as int) =~= before.subrange(
                            0,
                            old(buf)@.len() as int,
                        ));
                    }
                },
                Option::None => {
                    break ;
                },
            }
        }
        let fin = self.fin_at_cursor();
        if fin {
            self.fin_read = true;
        }
        fin
    }
}

/// Pushing a segment never changes a byte an earlier segment already
/// defines.
proof fn lemma_byte_at_push(segs: Seq<RecvSegment>, seg: RecvSegment)
    ensures
        forall|o: int|
            spec_byte_at(segs, o) is Some ==> spec_byte_at(segs.push(seg), o) == spec_byte_at(
                segs,
                o,
            ),
    decreases segs.len(),
{
    if segs.len() > 0 {
        lemma_byte_at_push(segs.drop_first(), seg);
        assert forall|o: int| spec_byte_at(segs, o) is Some implies spec_byte_at(
            segs.push(seg),
            o,
        ) == spec_byte_at(segs, o) by {
            let s0 = segs[0];
            assert(segs.push(seg)[0] == segs[0]);
            assert(segs.push(seg).drop_first() =~= segs.drop_first().push(seg));
            if !(s0.offset <= o < s0.offset + s0.data@.len()) {
                assert(spec_byte_at(segs, o) == spec_byte_at(segs.drop_first(), o));
                assert(spec_byte_at(segs.push(seg), o) == spec_byte_at(
                    segs.drop_first().push(seg),
                    o,
                ));
            }
        }
    }
}

} // verus!

//! The reading side of a bridged stream.
//!
//! A bridge delivers received data as a queue of chunks; a reader asks for at
//! most so many bytes at a time. `SlipstreamRecvHalf` keeps the part of a chunk
//! that did not fit into the reader's buffer. An empty chunk marks the end of
//! the stream, and so does a closed queue.

use vstd::prelude::*;

verus! {

/// What a poll of the chunk queue gave.
#[derive(Debug)]
pub enum ChunkPoll {
    /// The next chunk; an empty one marks the end of the stream.
    Chunk(Vec<u8>),
    /// The queue is closed and drained.
    Closed,
    /// Nothing there yet.
    Pending,
}

/// What a reader is told after the chunk queue was polled.
#[derive(Debug)]
pub enum ReadPoll {
    /// The bytes to put into the reader's buffer; none at the end of the stream.
    Ready(Vec<u8>),
    /// Nothing to read yet.
    Pending,
}

/// The model of `ChunkPoll`: chunks by their bytes.
pub enum ChunkPollView {
    Chunk(Seq<u8>),
    Closed,
    Pending,
}

impl View for ChunkPoll {
    type V = ChunkPollView;

    open spec fn view(&self) -> ChunkPollView {
        match self {
            ChunkPoll::Chunk(bytes) => ChunkPollView::Chunk(bytes@),
            ChunkPoll::Closed => ChunkPollView::Closed,
            ChunkPoll::Pending => ChunkPollView::Pending,
        }
    }
}

impl View for ReadPoll {
    type V = Option<Seq<u8>>;

    open spec fn view(&self) -> Option<Seq<u8>> {
        match self {
            ReadPoll::Ready(bytes) => Some(bytes@),
            ReadPoll::Pending => None,
        }
    }
}

/// The reading half: what is left of the chunk that was read last.
///
/// Its view is the sequence of bytes received and not yet handed out.
#[derive(Debug)]
pub struct SlipstreamRecvHalf {
    pending: Vec<u8>,
    pending_off: usize,
}

impl View for SlipstreamRecvHalf {
    type V = Seq<u8>;

    closed spec fn view(&self) -> Seq<u8> {
        self.pending@.skip(self.pending_off as int)
    }
}

/// How many of `available` bytes fit into `room`.
pub open spec fn fitting(available: nat, room: nat) -> nat {
    if available <= room {
        available
    } else {
        room
    }
}

/// The front of `bytes` that fits into `room`.
pub open spec fn front(bytes: Seq<u8>, room: nat) -> Seq<u8> {
    bytes.take(fitting(bytes.len(), room) as int)
}

/// What stays behind when the front that fits into `room` is taken off.
pub open spec fn rest(bytes: Seq<u8>, room: nat) -> Seq<u8> {
    bytes.skip(fitting(bytes.len(), room) as int)
}

impl SlipstreamRecvHalf {
    /// Leftover bytes never start behind the end of their chunk.
    #[verifier::type_invariant]
    spec fn starts_in_chunk(&self) -> bool {
        self.pending_off <= self.pending@.len()
    }

    /// A reading half with nothing received.
    pub fn new() -> (half: SlipstreamRecvHalf)
        ensures
            half@ == Seq::<u8>::empty(),
    {
        SlipstreamRecvHalf { pending: Vec::new(), pending_off: 0 }
    }

    /// Hands out `count` of the leftover bytes.
    fn take_front(&mut self, count: usize) -> (bytes: Vec<u8>)
        requires
            old(self).pending_off + count <= old(self).pending@.len(),
        ensures
            bytes@ == old(self)@.take(count as int),
            final(self)@ == old(self)@.skip(count as int),
    {
        let start: usize = self.pending_off;
        let len: usize = self.pending.len();
        let mut bytes: Vec<u8> = Vec::new();
        let mut i: usize = 0;
        while i < count
            invariant
                i <= count,
                start == self.pending_off,
                start + count <= len,
                len == self.pending@.len(),
                *self == *old(self),
                bytes@ == self.pending@.subrange(start as int, start + i),
            decreases count - i,
        {
            bytes.push(self.pending[start + i]);
            i = i + 1;
        }
        self.pending_off = start + count;
        if self.pending_off >= len {
            self.pending_off = 0;
            self.pending = Vec::new();
        }
        proof {
            assert(bytes@ =~= old(self)@.take(count as int));
            assert(self@ =~= old(self)@.skip(count as int));
        }
        bytes
    }

    /// Serves a read of at most `room` bytes from the leftover bytes, or
    /// returns `None` when there are none and the chunk queue is to be polled.
    pub fn read_pending(&mut self, room: usize) -> (out: Option<Vec<u8>>)
        ensures
            out is None <==> old(self)@.len() == 0,
            out is None ==> final(self)@ == old(self)@,
            out matches Some(bytes) ==> bytes@ == front(old(self)@, room as nat) && final(self)@
                == rest(old(self)@, room as nat),
    {
        proof {
            use_type_invariant(&*self);
        }
        if self.pending_off < self.pending.len() {
            let left: usize = self.pending.len() - self.pending_off;
            let count: usize = if left <= room { left } else { room };
            Some(self.take_front(count))
        } else {
            None
        }
    }

    /// Serves a read of at most `room` bytes with what the chunk queue gave.
    pub fn read_chunk(&mut self, poll: ChunkPoll, room: usize) -> (out: ReadPoll)
        requires
            old(self)@.len() == 0,
        ensures
            (out@, final(self)@) == read_from_chunk(poll@, room as nat),
    {
        proof {
            use_type_invariant(&*self);
        }
        match poll {
            ChunkPoll::Chunk(bytes) => {
                if bytes.len() == 0 {
                    proof {
                        assert(self@ =~= rest(bytes@, room as nat));
                        assert(front(bytes@, room as nat) =~= bytes@);
                    }
                    return ReadPoll::Ready(bytes);
                }
                let count: usize = if bytes.len() <= room { bytes.len() } else { room };
                self.pending_off = 0;
                self.pending = bytes;
                assert(self@ =~= bytes@);
                ReadPoll::Ready(self.take_front(count))
            },
            ChunkPoll::Closed => {
                assert(self@ =~= Seq::<u8>::empty());
                ReadPoll::Ready(Vec::new())
            },
            ChunkPoll::Pending => {
                assert(self@ =~= Seq::<u8>::empty());
                ReadPoll::Pending
            },
        }
    }
}

/// A read of at most `room` bytes served by a poll of the chunk queue: what the
/// reader gets (`None`: nothing yet) and what is left over.
pub open spec fn read_from_chunk(poll: ChunkPollView, room: nat) -> (Option<Seq<u8>>, Seq<u8>) {
    match poll {
        ChunkPollView::Chunk(bytes) => (Some(front(bytes, room)), rest(bytes, room)),
        ChunkPollView::Closed => (Some(Seq::empty()), Seq::empty()),
        ChunkPollView::Pending => (None, Seq::empty()),
    }
}

/// One read: how much room the reader has, and what a poll of the chunk queue
/// gives if the read comes to that.
pub struct Read {
    pub room: nat,
    pub poll: ChunkPollView,
}

/// One read on `left` leftover bytes: the bytes handed out and those left over.
pub open spec fn read_once(left: Seq<u8>, read: Read) -> (Option<Seq<u8>>, Seq<u8>) {
    if left.len() > 0 {
        (Some(front(left, read.room)), rest(left, read.room))
    } else {
        read_from_chunk(read.poll, read.room)
    }
}

/// The bytes that one read takes off the chunk queue.
pub open spec fn taken_once(left: Seq<u8>, read: Read) -> Seq<u8> {
    match read.poll {
        ChunkPollView::Chunk(bytes) => if left.len() > 0 {
            Seq::empty()
        } else {
            bytes
        },
        _ => Seq::empty(),
    }
}

/// All bytes handed out by `reads`, in order.
pub open spec fn handed_out(left: Seq<u8>, reads: Seq<Read>) -> Seq<u8>
    decreases reads.len(),
{
    if reads.len() == 0 {
        Seq::empty()
    } else {
        let (out, left1) = read_once(left, reads[0]);
        let now = match out {
            Some(bytes) => bytes,
            None => Seq::empty(),
        };
        now + handed_out(left1, reads.drop_first())
    }
}

/// All bytes taken off the chunk queue by `reads`, in order.
pub open spec fn taken(left: Seq<u8>, reads: Seq<Read>) -> Seq<u8>
    decreases reads.len(),
{
    if reads.len() == 0 {
        Seq::empty()
    } else {
        taken_once(left, reads[0]) + taken(read_once(left, reads[0]).1, reads.drop_first())
    }
}

/// What is left over after `reads`.
pub open spec fn left_over(left: Seq<u8>, reads: Seq<Read>) -> Seq<u8>
    decreases reads.len(),
{
    if reads.len() == 0 {
        left
    } else {
        left_over(read_once(left, reads[0]).1, reads.drop_first())
    }
}

/// Reading neither loses, repeats nor reorders a byte: over any run of reads of
/// any sizes, the bytes handed out, followed by those left over, are the bytes
/// that were there at the start followed by those taken off the queue.
pub proof fn law_reads_keep_order(left: Seq<u8>, reads: Seq<Read>)
    ensures
        handed_out(left, reads) + left_over(left, reads) == left + taken(left, reads),
    decreases reads.len(),
{
    if reads.len() > 0 {
        let (out, left1) = read_once(left, reads[0]);
        let now = match out {
            Some(bytes) => bytes,
            None => Seq::<u8>::empty(),
        };
        law_reads_keep_order(left1, reads.drop_first());
        let later_out = handed_out(left1, reads.drop_first());
        let later_left = left_over(left1, reads.drop_first());
        let later_taken = taken(left1, reads.drop_first());
        assert(now + left1 =~= left + taken_once(left, reads[0]));
        assert((now + later_out) + later_left =~= now + (later_out + later_left));
        assert(now + (left1 + later_taken) =~= (now + left1) + later_taken);
        assert((left + taken_once(left, reads[0])) + later_taken =~= left + (taken_once(
            left,
            reads[0],
        ) + later_taken));
    } else {
        assert(handed_out(left, reads) + left_over(left, reads) =~= left + taken(left, reads));
    }
}

/// A reader with room is told of the end of the stream (a read that hands out
/// no bytes) exactly when nothing is left over and the queue gave the end mark
/// or is closed.
pub proof fn law_end_of_stream(left: Seq<u8>, read: Read)
    requires
        read.room > 0,
    ensures
        read_once(left, read).0 == Some(Seq::<u8>::empty()) <==> left.len() == 0 && (read.poll
            == ChunkPollView::Chunk(Seq::empty()) || read.poll == ChunkPollView::Closed),
{
    let got = read_once(left, read).0;
    if left.len() > 0 {
        assert(front(left, read.room).len() > 0);
    } else {
        match read.poll {
            ChunkPollView::Chunk(bytes) => {
                if bytes.len() == 0 {
                    assert(bytes =~= Seq::<u8>::empty());
                    assert(front(bytes, read.room) =~= Seq::<u8>::empty());
                } else {
                    assert(front(bytes, read.room).len() > 0);
                }
            },
            _ => {},
        }
    }
}

/// A read hands out the front of what there is, as much of it as the reader has
/// room for, and keeps the rest. What there is are the leftover bytes, or, where
/// there are none, the chunk that the queue gave.
pub proof fn law_read_fills_room(left: Seq<u8>, read: Read)
    ensures
        ({
            let there: Seq<u8> = if left.len() > 0 {
                left
            } else if let ChunkPollView::Chunk(bytes) = read.poll {
                bytes
            } else {
                Seq::empty()
            };
            let (out, rest) = read_once(left, read);
            &&& out is None <==> left.len() == 0 && read.poll is Pending
            &&& out matches Some(bytes) ==> bytes + rest == there && bytes.len() <= read.room && (
            rest.len() > 0 ==> bytes.len() == read.room)
            &&& out is None ==> rest.len() == 0
        }),
{
    law_front_and_rest(left, read.room);
    if let ChunkPollView::Chunk(bytes) = read.poll {
        law_front_and_rest(bytes, read.room);
    }
    assert(Seq::<u8>::empty() + Seq::<u8>::empty() =~= Seq::<u8>::empty());
}

/// The front of some bytes that fits and the rest are the bytes, and the front is
/// as long as it can be.
pub proof fn law_front_and_rest(bytes: Seq<u8>, room: nat)
    ensures
        front(bytes, room) + rest(bytes, room) == bytes,
        front(bytes, room).len() <= room,
        rest(bytes, room).len() > 0 ==> front(bytes, room).len() == room,
{
    assert(front(bytes, room) + rest(bytes, room) =~= bytes);
}

} // verus!

//! The writing side of a bridged stream.
//!
//! Written data goes to the bridge through a bounded queue. When the queue is
//! full, the data stays with `SlipstreamSendHalf`, and the writer is woken when
//! the bridge has taken something off the queue. An empty entry marks the end
//! of the stream.

use vstd::prelude::*;

verus! {

/// What an attempt to put data into the queue gave.
#[derive(Debug)]
pub enum TrySend {
    /// The queue took the data.
    Sent,
    /// The queue is full; the data comes back.
    Full(Vec<u8>),
    /// The other side of the queue is gone.
    Disconnected,
}

/// What a poll of the wake signal gave.
#[derive(Clone, Copy, Debug, PartialEq, Eq, Structural)]
pub enum WakePoll {
    /// The bridge took something off the queue.
    Woken,
    /// No signal will come any more.
    Closed,
    /// No signal yet.
    Pending,
}

/// What a write is to do next.
#[derive(Debug)]
pub enum WriteStep {
    /// Try to put `data` into the queue; the write is of `len` bytes.
    TrySend { data: Vec<u8>, len: usize },
    /// Poll the wake signal.
    PollWake,
    /// The write is done: so many bytes were taken.
    Written(usize),
    /// The write failed: the queue is gone.
    BrokenPipe,
    /// The write failed: the queue is full and will not be drained any more.
    ConnectionReset,
    /// The write is to be tried again after a wake signal.
    Pending,
}

/// The model of `TrySend`.
pub enum TrySendView {
    Sent,
    Full(Seq<u8>),
    Disconnected,
}

/// The model of `WriteStep`.
pub enum WriteStepView {
    TrySend { data: Seq<u8>, len: nat },
    PollWake,
    Written(nat),
    BrokenPipe,
    ConnectionReset,
    Pending,
}

impl View for TrySend {
    type V = TrySendView;

    open spec fn view(&self) -> TrySendView {
        match self {
            TrySend::Sent => TrySendView::Sent,
            TrySend::Full(data) => TrySendView::Full(data@),
            TrySend::Disconnected => TrySendView::Disconnected,
        }
    }
}

impl View for WriteStep {
    type V = WriteStepView;

    open spec fn view(&self) -> WriteStepView {
        match self {
            WriteStep::TrySend { data, len } => WriteStepView::TrySend {
                data: data@,
                len: *len as nat,
            },
            WriteStep::PollWake => WriteStepView::PollWake,
            WriteStep::Written(len) => WriteStepView::Written(*len as nat),
            WriteStep::BrokenPipe => WriteStepView::BrokenPipe,
            WriteStep::ConnectionReset => WriteStepView::ConnectionReset,
            WriteStep::Pending => WriteStepView::Pending,
        }
    }
}

/// The writing half: data that the queue had no room for, with the length that
/// the write will report.
///
/// Its view is that data and that length, if any is held.
#[derive(Debug)]
pub struct SlipstreamSendHalf {
    pending_send: Option<(Vec<u8>, usize)>,
}

impl View for SlipstreamSendHalf {
    type V = Option<(Seq<u8>, nat)>;

    closed spec fn view(&self) -> Option<(Seq<u8>, nat)> {
        match self.pending_send {
            Some((data, len)) => Some((data@, len as nat)),
            None => None,
        }
    }
}

/// A copy of `bytes`.
pub fn copy_of(bytes: &[u8]) -> (copy: Vec<u8>)
    ensures
        copy@ == bytes@,
{
    let mut copy: Vec<u8> = Vec::new();
    let mut i: usize = 0;
    while i < bytes.len()
        invariant
            i <= bytes@.len(),
            copy@ == bytes@.take(i as int),
        decreases bytes@.len() - i,
    {
        copy.push(bytes[i]);
        i = i + 1;
    }
    assert(bytes@.take(i as int) =~= bytes@);
    copy
}

/// The entry that marks the end of the stream. A writer that shuts down offers
/// it to the queue once, and does not wait.
pub fn end_mark() -> (entry: Vec<u8>)
    ensures
        entry@ == Seq::<u8>::empty(),
{
    Vec::new()
}

/// What a write of `buf` offers to the queue: the data held back by an earlier
/// write, or else `buf` itself.
pub open spec fn offered(held: Option<(Seq<u8>, nat)>, buf: Seq<u8>) -> (Seq<u8>, nat) {
    match held {
        Some(pair) => pair,
        None => (buf, buf.len()),
    }
}

/// What follows an attempt to queue the data of a write of `len` bytes: the
/// next step and the data held back.
pub open spec fn after_send(len: nat, result: TrySendView) -> (
    WriteStepView,
    Option<(Seq<u8>, nat)>,
) {
    match result {
        TrySendView::Sent => (WriteStepView::Written(len), None),
        TrySendView::Disconnected => (WriteStepView::BrokenPipe, None),
        TrySendView::Full(data) => (WriteStepView::PollWake, Some((data, len))),
    }
}

/// What follows a poll of the wake signal with `data` of a write of `len` bytes
/// held back: the next step and the data held back.
pub open spec fn after_wake(data: Seq<u8>, len: nat, poll: WakePoll) -> (
    WriteStepView,
    Option<(Seq<u8>, nat)>,
) {
    match poll {
        WakePoll::Woken => (WriteStepView::TrySend { data, len }, None),
        WakePoll::Closed => (WriteStepView::ConnectionReset, Some((data, len))),
        WakePoll::Pending => (WriteStepView::Pending, Some((data, len))),
    }
}

impl SlipstreamSendHalf {
    /// A writing half that holds nothing back.
    pub fn new() -> (half: SlipstreamSendHalf)
        ensures
            half@ is None,
    {
        SlipstreamSendHalf { pending_send: None }
    }

    /// Starts a write of `buf`. Data held back by an earlier write goes first,
    /// in place of `buf`.
    pub fn start_write(&mut self, buf: &[u8]) -> (step: WriteStep)
        ensures
            final(self)@ is None,
            step@ == (WriteStepView::TrySend {
                data: offered(old(self)@, buf@).0,
                len: offered(old(self)@, buf@).1,
            }),
    {
        match self.pending_send.take() {
            Some((data, len)) => WriteStep::TrySend { data, len },
            None => WriteStep::TrySend { data: copy_of(buf), len: buf.len() },
        }
    }

    /// Goes on with a write of `len` bytes after an attempt to queue its data.
    pub fn after_send(&mut self, len: usize, result: TrySend) -> (step: WriteStep)
        ensures
            (step@, final(self)@) == after_send(len as nat, result@),
    {
        match result {
            TrySend::Sent => {
                self.pending_send = None;
                WriteStep::Written(len)
            },
            TrySend::Disconnected => {
                self.pending_send = None;
                WriteStep::BrokenPipe
            },
            TrySend::Full(data) => {
                self.pending_send = Some((data, len));
                WriteStep::PollWake
            },
        }
    }

    /// Goes on with a write whose data is held back after a poll of the wake
    /// signal.
    pub fn after_wake(&mut self, poll: WakePoll) -> (step: WriteStep)
        requires
            old(self)@ is Some,
        ensures
            old(self)@ matches Some((data, len)) ==> (step@, final(self)@) == after_wake(
                data,
                len,
                poll,
            ),
    {
        match poll {
            WakePoll::Woken => match self.pending_send.take() {
                Some((data, len)) => WriteStep::TrySend { data, len },
                None => WriteStep::Pending,
            },
            WakePoll::Closed => WriteStep::ConnectionReset,
            WakePoll::Pending => WriteStep::Pending,
        }
    }
}

/// One round of a write: how the queue takes the data and, where it is full,
/// what the wake signal then gives.
pub enum Round {
    Sent,
    Disconnected,
    Full(WakePoll),
}

/// How a poll of a write ends, and what the queue has taken by then.
pub struct WriteEnd {
    pub end: WriteStepView,
    pub queued: Seq<Seq<u8>>,
    pub held: Option<(Seq<u8>, nat)>,
}

/// A poll of a write that offers `data` (a write of `len` bytes) and meets
/// `rounds` one after the other. A full queue gives the data back as it was.
pub open spec fn write_run(data: Seq<u8>, len: nat, rounds: Seq<Round>) -> WriteEnd
    decreases rounds.len(),
{
    if rounds.len() == 0 {
        WriteEnd { end: WriteStepView::TrySend { data, len }, queued: Seq::empty(), held: None }
    } else {
        match rounds[0] {
            Round::Sent => {
                let (end, held) = after_send(len, TrySendView::Sent);
                WriteEnd { end, queued: seq![data], held }
            },
            Round::Disconnected => {
                let (end, held) = after_send(len, TrySendView::Disconnected);
                WriteEnd { end, queued: Seq::empty(), held }
            },
            Round::Full(poll) => {
                let held = after_send(len, TrySendView::Full(data)).1->0;
                match after_wake(held.0, held.1, poll) {
                    (WriteStepView::TrySend { data: again, len: n }, _) => write_run(
                        again,
                        n,
                        rounds.drop_first(),
                    ),
                    (end, held) => WriteEnd { end, queued: Seq::empty(), held },
                }
            },
        }
    }
}

/// However often the queue is full on the way, a write puts its data into the
/// queue at most once. It reports success exactly when it did so, with the
/// length of the write; in that case nothing is held back.
pub proof fn law_write_queues_once(data: Seq<u8>, len: nat, rounds: Seq<Round>)
    ensures
        ({
            let w = write_run(data, len, rounds);
            &&& w.end is Written <==> w.queued.len() > 0
            &&& w.end is Written ==> w.end == WriteStepView::Written(len) && w.queued == seq![data]
                && w.held is None
        }),
    decreases rounds.len(),
{
    if rounds.len() > 0 {
        if let Round::Full(WakePoll::Woken) = rounds[0] {
            law_write_queues_once(data, len, rounds.drop_first());
        }
    }
}

/// A write that has to wait, or that finds its wake signal closed, keeps its
/// data: whatever buffer the next write brings, it offers that data, with the
/// length of the first write.
pub proof fn law_waiting_write_is_resumed(
    data: Seq<u8>,
    len: nat,
    rounds: Seq<Round>,
    next_buf: Seq<u8>,
)
    requires
        write_run(data, len, rounds).end is Pending || write_run(data, len, rounds).end
            is ConnectionReset,
    ensures
        offered(write_run(data, len, rounds).held, next_buf) == (data, len),
    decreases rounds.len(),
{
    if rounds.len() > 0 {
        if let Round::Full(WakePoll::Woken) = rounds[0] {
            law_waiting_write_is_resumed(data, len, rounds.drop_first(), next_buf);
        }
    }
}

/// The length held back with data is the length of that data, provided it was
/// so before and a full queue gives back data of the length it was offered.
pub proof fn law_held_length(
    held: Option<(Seq<u8>, nat)>,
    buf: Seq<u8>,
    back: Seq<u8>,
    poll: WakePoll,
)
    requires
        held matches Some((data, len)) ==> data.len() == len,
        back.len() == offered(held, buf).0.len(),
    ensures
        offered(held, buf).0.len() == offered(held, buf).1,
        after_send(offered(held, buf).1, TrySendView::Full(back)).1 matches Some((data, len))
            && data.len() == len && (after_wake(data, len, poll).1 matches Some((data1, len1))
            ==> data1.len() == len1),
{
}

/// Something that happens to a writing half.
pub enum WriteEvent {
    /// A write of a buffer starts, or an earlier one is polled again.
    Start(Seq<u8>),
    /// The queue took the data.
    Sent,
    /// The queue is full; the data comes back as it was.
    Full,
    /// The other side of the queue is gone.
    Disconnected,
    /// The wake signal was polled.
    Wake(WakePoll),
}

/// A writing half with its queue: what it holds back, the step that is next, the
/// buffer of the write under way, the buffers of the writes that were reported as
/// done, and all that the queue took; and what happened last.
pub struct Writing {
    pub held: Option<(Seq<u8>, nat)>,
    pub step: Option<WriteStepView>,
    pub buf: Seq<u8>,
    pub done: Seq<Seq<u8>>,
    pub queued: Seq<Seq<u8>>,
    pub last: Option<WriteEvent>,
}

impl Writing {
    /// A half that holds nothing back, and to which nothing has happened.
    pub open spec fn start() -> Writing {
        Writing {
            held: None,
            step: None,
            buf: Seq::empty(),
            done: Seq::empty(),
            queued: Seq::empty(),
            last: None,
        }
    }

    /// Whether `event` can happen: the queue or the wake signal answers if the
    /// step that is next asks it, and else a write can start.
    pub open spec fn can_happen(self, event: WriteEvent) -> bool {
        match self.step {
            Some(WriteStepView::TrySend { .. }) => event is Sent || event is Full || event
                is Disconnected,
            Some(WriteStepView::PollWake) => event is Wake && self.held is Some,
            _ => event is Start,
        }
    }

    /// What is after `event`.
    pub open spec fn after(self, event: WriteEvent) -> Writing {
        let asked = match self.step {
            Some(WriteStepView::TrySend { data, len }) => (data, len),
            _ => (Seq::empty(), 0nat),
        };
        let (step, held) = match event {
            WriteEvent::Start(buf) => {
                let (data, len) = offered(self.held, buf);
                (WriteStepView::TrySend { data, len }, None)
            },
            WriteEvent::Sent => after_send(asked.1, TrySendView::Sent),
            WriteEvent::Full => after_send(asked.1, TrySendView::Full(asked.0)),
            WriteEvent::Disconnected => after_send(asked.1, TrySendView::Disconnected),
            WriteEvent::Wake(poll) => {
                let (data, len) = match self.held {
                    Some(pair) => pair,
                    None => (Seq::empty(), 0nat),
                };
                after_wake(data, len, poll)
            },
        };
        // A write that waits, or was cut short, goes on when it is polled again.
        let buf = match event {
            WriteEvent::Start(buf) if self.held is None => buf,
            _ => self.buf,
        };
        Writing {
            held,
            step: Some(step),
            buf,
            done: if step is Written {
                self.done.push(buf)
            } else {
                self.done
            },
            queued: if event is Sent {
                self.queued.push(asked.0)
            } else {
                self.queued
            },
            last: Some(event),
        }
    }

    /// Whether the half does what its writer asked for: what the queue took are the
    /// buffers of the writes that were reported as done; what is offered to the
    /// queue, or held back for it, is the buffer of the write under way; a write
    /// reports the length of its buffer; and what is next follows from what
    /// happened last.
    pub open spec fn is_right(self) -> bool {
        &&& self.queued == self.done
        &&& self.step matches Some(WriteStepView::TrySend { data, len }) ==> (data == self.buf && len
            == self.buf.len() && self.held is None)
        &&& self.step matches Some(WriteStepView::Written(len)) ==> len == self.buf.len()
        &&& self.held matches Some((data, len)) ==> data == self.buf && len == self.buf.len()
        &&& match self.last {
            None => self.step is None && self.held is None,
            Some(WriteEvent::Start(_)) => self.step matches Some(step) && step is TrySend,
            Some(WriteEvent::Sent) => self.step matches Some(step) && step is Written && self.held
                is None && self.done.len() > 0 && self.done.last() == self.buf,
            Some(WriteEvent::Full) => self.step == Some(WriteStepView::PollWake) && self.held
                is Some,
            Some(WriteEvent::Disconnected) => self.step == Some(WriteStepView::BrokenPipe)
                && self.held is None,
            Some(WriteEvent::Wake(WakePoll::Woken)) => self.step matches Some(step) && step
                is TrySend,
            Some(WriteEvent::Wake(WakePoll::Closed)) => self.step == Some(
                WriteStepView::ConnectionReset,
            ) && self.held is Some,
            Some(WriteEvent::Wake(WakePoll::Pending)) => self.step == Some(WriteStepView::Pending)
                && self.held is Some,
        }
    }
}

/// What is after `events`.
pub open spec fn write_events(w: Writing, events: Seq<WriteEvent>) -> Writing
    decreases events.len(),
{
    if events.len() == 0 {
        w
    } else {
        write_events(w.after(events[0]), events.drop_first())
    }
}

/// Whether each of `events` can happen, one after the other.
pub open spec fn can_write(w: Writing, events: Seq<WriteEvent>) -> bool
    decreases events.len(),
{
    events.len() > 0 ==> w.can_happen(events[0]) && can_write(
        w.after(events[0]),
        events.drop_first(),
    )
}

proof fn lemma_write_events(w: Writing, events: Seq<WriteEvent>)
    requires
        w.is_right(),
        can_write(w, events),
    ensures
        write_events(w, events).is_right(),
    decreases events.len(),
{
    if events.len() > 0 {
        let next = w.after(events[0]);
        assert(next.queued =~= next.done);
        assert(next.is_right());
        lemma_write_events(next, events.drop_first());
    }
}

/// A half that is run by the steps it returns does what its writers ask for, over
/// any run of writes, however often the queue is full and whenever its other side
/// goes: the entries that the queue took are the buffers of the writes that were
/// reported as done, byte for byte and in order; with nothing held back a write
/// offers its own buffer; and a write that has to wait goes on with its own.
pub proof fn law_writes_reach_queue(events: Seq<WriteEvent>)
    requires
        can_write(Writing::start(), events),
    ensures
        write_events(Writing::start(), events).is_right(),
{
    assert(Writing::start().queued =~= Writing::start().done);
    lemma_write_events(Writing::start(), events);
}

/// With nothing held back, what a write offers to the queue is its buffer, byte
/// for byte, with its length.
pub proof fn law_write_offers_buffer(buf: Seq<u8>, i: int)
    ensures
        offered(None, buf).0.len() == buf.len(),
        offered(None, buf).1 == buf.len(),
        0 <= i < buf.len() ==> offered(None, buf).0[i] == buf[i],
{
}

} // verus!

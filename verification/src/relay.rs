//! Copying a byte stream from a reader to a writer.
//!
//! The reader and the writer are outside. A relay says what to do next, and is
//! told what came of it.

use vstd::prelude::*;

verus! {

/// The size of the buffer that a relay reads into.
pub const BUFFER_SIZE: usize = 8192;

/// What came of a step.
#[derive(Debug)]
pub enum RelayEvent {
    /// The reader gave these bytes; none at its end.
    Read(Vec<u8>),
    /// The writer took all bytes.
    Written,
    /// The writer was flushed.
    Flushed,
    /// The step failed.
    Failed,
}

/// What to do next.
#[derive(Debug)]
pub enum RelayStep {
    /// Read from the reader.
    Read,
    /// Write all these bytes to the writer.
    Write(Vec<u8>),
    /// Flush the writer.
    Flush,
    /// Nothing: all bytes of the reader, so many, were copied.
    Finish(u64),
    /// Nothing: report the failure.
    Fail,
}

/// The model of `RelayEvent`.
pub enum RelayEventView {
    Read(Seq<u8>),
    Written,
    Flushed,
    Failed,
}

/// The model of `RelayStep`.
pub enum RelayStepView {
    Read,
    Write(Seq<u8>),
    Flush,
    Finish(nat),
    Fail,
}

impl View for RelayEvent {
    type V = RelayEventView;

    open spec fn view(&self) -> RelayEventView {
        match self {
            RelayEvent::Read(bytes) => RelayEventView::Read(bytes@),
            RelayEvent::Written => RelayEventView::Written,
            RelayEvent::Flushed => RelayEventView::Flushed,
            RelayEvent::Failed => RelayEventView::Failed,
        }
    }
}

impl View for RelayStep {
    type V = RelayStepView;

    open spec fn view(&self) -> RelayStepView {
        match self {
            RelayStep::Read => RelayStepView::Read,
            RelayStep::Write(bytes) => RelayStepView::Write(bytes@),
            RelayStep::Flush => RelayStepView::Flush,
            RelayStep::Finish(total) => RelayStepView::Finish(*total as nat),
            RelayStep::Fail => RelayStepView::Fail,
        }
    }
}

/// A relay under way: how many bytes were copied, and how many were read and
/// are on their way to the writer.
#[derive(Clone, Copy, Debug, PartialEq, Eq, Structural)]
pub struct Relay {
    total: u64,
    in_flight: u64,
}

/// The model of a relay.
pub struct RelayView {
    /// Bytes copied and flushed.
    pub total: nat,
    /// Bytes read and not yet flushed.
    pub in_flight: nat,
}

impl View for Relay {
    type V = RelayView;

    closed spec fn view(&self) -> RelayView {
        RelayView { total: self.total as nat, in_flight: self.in_flight as nat }
    }
}

/// How a relay goes on after `event`.
pub open spec fn after_relay(r: RelayView, event: RelayEventView) -> (RelayView, RelayStepView) {
    match event {
        RelayEventView::Read(bytes) => if bytes.len() == 0 {
            (r, RelayStepView::Finish(r.total))
        } else {
            (
                RelayView { total: r.total, in_flight: bytes.len() },
                RelayStepView::Write(bytes),
            )
        },
        RelayEventView::Written => (r, RelayStepView::Flush),
        RelayEventView::Flushed => (
            RelayView { total: r.total + r.in_flight, in_flight: 0 },
            RelayStepView::Read,
        ),
        RelayEventView::Failed => (r, RelayStepView::Fail),
    }
}

impl Relay {
    /// A relay that has copied nothing. Its first step is to read.
    pub fn new() -> (relay: Relay)
        ensures
            relay@ == (RelayView { total: 0, in_flight: 0 }),
    {
        Relay { total: 0, in_flight: 0 }
    }

    /// Whether the count of bytes still fits its type once the bytes in flight
    /// are flushed.
    pub fn can_count(&self) -> (fits: bool)
        ensures
            fits == (self@.total + self@.in_flight <= u64::MAX),
    {
        self.in_flight <= u64::MAX - self.total
    }

    /// Goes on with the relay. The count of bytes has to fit its type.
    pub fn next(&mut self, event: RelayEvent) -> (step: RelayStep)
        requires
            event@ is Flushed ==> old(self)@.total + old(self)@.in_flight <= u64::MAX,
        ensures
            (final(self)@, step@) == after_relay(old(self)@, event@),
    {
        match event {
            RelayEvent::Read(bytes) => {
                if bytes.len() == 0 {
                    RelayStep::Finish(self.total)
                } else {
                    self.in_flight = bytes.len() as u64;
                    RelayStep::Write(bytes)
                }
            },
            RelayEvent::Written => RelayStep::Flush,
            RelayEvent::Flushed => {
                self.total = self.total + self.in_flight;
                self.in_flight = 0;
                RelayStep::Read
            },
            RelayEvent::Failed => RelayStep::Fail,
        }
    }
}

/// What to do next in an echo: as in a relay, without a count.
pub open spec fn echo_step(event: RelayEventView) -> RelayStepView {
    after_relay(RelayView { total: 0, in_flight: 0 }, event).1
}

/// What to do next in an echo, which writes what it reads back to where it came
/// from.
pub fn after_echo(event: RelayEvent) -> (step: RelayStep)
    ensures
        step@ == echo_step(event@),
{
    match event {
        RelayEvent::Read(bytes) => {
            if bytes.len() == 0 {
                RelayStep::Finish(0)
            } else {
                RelayStep::Write(bytes)
            }
        },
        RelayEvent::Written => RelayStep::Flush,
        RelayEvent::Flushed => RelayStep::Read,
        RelayEvent::Failed => RelayStep::Fail,
    }
}

/// A relay run to its end: the bytes given to the writer, those of them that
/// were flushed, and the last step.
#[verifier::ext_equal]
pub struct RelayEnd {
    pub written: Seq<u8>,
    pub flushed: Seq<u8>,
    pub step: RelayStepView,
}

/// The calls that one round of a relay makes, and which of them fails, if any.
pub enum Round {
    /// The reader gives these bytes, and the writer takes and flushes them.
    Copied(Seq<u8>),
    /// The reader fails.
    ReadFails,
    /// The reader gives these bytes, and the writer fails on them.
    WriteFails(Seq<u8>),
    /// The reader gives these bytes, and the writer fails to flush them.
    FlushFails(Seq<u8>),
}

/// Runs a relay from its step of reading through `rounds`; then the reader is at
/// its end.
pub open spec fn relay_run(r: RelayView, rounds: Seq<Round>) -> RelayEnd
    decreases rounds.len(),
{
    if rounds.len() == 0 {
        RelayEnd {
            written: Seq::empty(),
            flushed: Seq::empty(),
            step: after_relay(r, RelayEventView::Read(Seq::empty())).1,
        }
    } else {
        match rounds[0] {
            Round::ReadFails => RelayEnd {
                written: Seq::empty(),
                flushed: Seq::empty(),
                step: after_relay(r, RelayEventView::Failed).1,
            },
            Round::Copied(bytes) | Round::WriteFails(bytes) | Round::FlushFails(bytes) => {
                let (r1, step1) = after_relay(r, RelayEventView::Read(bytes));
                match step1 {
                    RelayStepView::Write(out) => match rounds[0] {
                        Round::Copied(_) => {
                            let r2 = after_relay(r1, RelayEventView::Written).0;
                            let r3 = after_relay(r2, RelayEventView::Flushed).0;
                            let later = relay_run(r3, rounds.drop_first());
                            RelayEnd {
                                written: out + later.written,
                                flushed: out + later.flushed,
                                step: later.step,
                            }
                        },
                        _ => RelayEnd {
                            written: out,
                            flushed: Seq::empty(),
                            step: after_relay(r1, RelayEventView::Failed).1,
                        },
                    },
                    _ => RelayEnd { written: Seq::empty(), flushed: Seq::empty(), step: step1 },
                }
            },
        }
    }
}

/// The bytes that the reader gives over `rounds`, up to its end or the first
/// failure.
pub open spec fn bytes_read(rounds: Seq<Round>) -> Seq<u8>
    decreases rounds.len(),
{
    if rounds.len() == 0 {
        Seq::empty()
    } else {
        match rounds[0] {
            Round::ReadFails => Seq::empty(),
            Round::Copied(bytes) => if bytes.len() == 0 {
                Seq::empty()
            } else {
                bytes + bytes_read(rounds.drop_first())
            },
            Round::WriteFails(bytes) | Round::FlushFails(bytes) => bytes,
        }
    }
}

/// A relay copies: what it gives to the writer is what the reader gave, byte
/// for byte and in order, up to the reader's end or the first failure. At the
/// reader's end it has flushed all of it and reports its length.
pub proof fn law_relay_copies(r: RelayView, rounds: Seq<Round>)
    requires
        r.in_flight == 0,
    ensures
        relay_run(r, rounds).written =~= bytes_read(rounds),
        relay_run(r, rounds).step is Finish || relay_run(r, rounds).step is Fail,
        relay_run(r, rounds).step is Finish ==> relay_run(r, rounds).flushed =~= bytes_read(rounds)
            && relay_run(r, rounds).step == RelayStepView::Finish(
            r.total + bytes_read(rounds).len(),
        ),
    decreases rounds.len(),
{
    if rounds.len() > 0 {
        if let Round::Copied(bytes) = rounds[0] {
            if bytes.len() > 0 {
                let r3 = RelayView { total: r.total + bytes.len(), in_flight: 0 };
                law_relay_copies(r3, rounds.drop_first());
            }
        }
    }
}

/// Whether a call fails in `rounds` before the reader's end.
pub open spec fn some_call_fails(rounds: Seq<Round>) -> bool
    decreases rounds.len(),
{
    rounds.len() > 0 && match rounds[0] {
        Round::ReadFails => true,
        Round::Copied(bytes) => bytes.len() > 0 && some_call_fails(rounds.drop_first()),
        Round::WriteFails(bytes) | Round::FlushFails(bytes) => bytes.len() > 0,
    }
}

/// A relay fails exactly if one of its calls does before the reader's end.
pub proof fn law_relay_fails(r: RelayView, rounds: Seq<Round>)
    ensures
        relay_run(r, rounds).step is Fail <==> some_call_fails(rounds),
    decreases rounds.len(),
{
    if rounds.len() > 0 {
        if let Round::Copied(bytes) = rounds[0] {
            if bytes.len() > 0 {
                let r1 = after_relay(r, RelayEventView::Read(bytes)).0;
                let r3 = after_relay(r1, RelayEventView::Flushed).0;
                law_relay_fails(r3, rounds.drop_first());
            }
        }
    }
}

/// Runs an echo from its step of reading through `rounds`; then the stream is at
/// its end.
pub open spec fn echo_run(rounds: Seq<Round>) -> RelayEnd
    decreases rounds.len(),
{
    if rounds.len() == 0 {
        RelayEnd {
            written: Seq::empty(),
            flushed: Seq::empty(),
            step: echo_step(RelayEventView::Read(Seq::empty())),
        }
    } else {
        match rounds[0] {
            Round::ReadFails => RelayEnd {
                written: Seq::empty(),
                flushed: Seq::empty(),
                step: echo_step(RelayEventView::Failed),
            },
            Round::Copied(bytes) | Round::WriteFails(bytes) | Round::FlushFails(bytes) => {
                let step1 = echo_step(RelayEventView::Read(bytes));
                match step1 {
                    RelayStepView::Write(out) => match rounds[0] {
                        Round::Copied(_) => {
                            let step2 = echo_step(RelayEventView::Written);
                            let step3 = echo_step(RelayEventView::Flushed);
                            if !(step2 is Flush) {
                                RelayEnd { written: out, flushed: Seq::empty(), step: step2 }
                            } else if !(step3 is Read) {
                                RelayEnd { written: out, flushed: out, step: step3 }
                            } else {
                                let later = echo_run(rounds.drop_first());
                                RelayEnd {
                                    written: out + later.written,
                                    flushed: out + later.flushed,
                                    step: later.step,
                                }
                            }
                        },
                        _ => RelayEnd {
                            written: out,
                            flushed: Seq::empty(),
                            step: echo_step(RelayEventView::Failed),
                        },
                    },
                    _ => RelayEnd { written: Seq::empty(), flushed: Seq::empty(), step: step1 },
                }
            },
        }
    }
}

/// An echo gives back what it gets: what it writes is what it read, byte for byte
/// and in order, up to the end of the stream or the first failure. It fails
/// exactly if one of its calls does before the end, and at the end it has flushed
/// all that it read.
pub proof fn law_echo_copies(rounds: Seq<Round>)
    ensures
        echo_run(rounds).written =~= bytes_read(rounds),
        echo_run(rounds).step is Finish || echo_run(rounds).step is Fail,
        echo_run(rounds).step is Fail <==> some_call_fails(rounds),
        echo_run(rounds).step is Finish ==> echo_run(rounds).flushed =~= bytes_read(rounds),
    decreases rounds.len(),
{
    if rounds.len() > 0 {
        if let Round::Copied(bytes) = rounds[0] {
            if bytes.len() > 0 {
                law_echo_copies(rounds.drop_first());
            }
        }
    }
}

/// Whether `event` is what can come of `step`.
pub open spec fn comes_of(step: RelayStepView, event: RelayEventView) -> bool {
    match step {
        RelayStepView::Read => event is Read || event is Failed,
        RelayStepView::Write(_) => event is Written || event is Failed,
        RelayStepView::Flush => event is Flushed || event is Failed,
        RelayStepView::Finish(_) | RelayStepView::Fail => false,
    }
}

/// What a relay or an echo has done so far: the bytes that were read, those of
/// them that were written, and those of these that were flushed; whether the
/// reader was at its end, and whether a call failed; and the step that is next.
#[verifier::ext_equal]
pub struct Progress {
    pub read: Seq<u8>,
    pub written: Seq<u8>,
    pub flushed: Seq<u8>,
    pub at_end: bool,
    pub failed: bool,
    pub step: RelayStepView,
}

impl Progress {
    /// Nothing done; the first step is to read.
    pub open spec fn start() -> Progress {
        Progress {
            read: Seq::empty(),
            written: Seq::empty(),
            flushed: Seq::empty(),
            at_end: false,
            failed: false,
            step: RelayStepView::Read,
        }
    }

    /// The progress after the step was taken, `event` came of it, and `next` was
    /// told to be done next.
    pub open spec fn after(self, event: RelayEventView, next: RelayStepView) -> Progress {
        Progress {
            read: match event {
                RelayEventView::Read(bytes) => self.read + bytes,
                _ => self.read,
            },
            written: match (self.step, event) {
                (RelayStepView::Write(out), RelayEventView::Written) => self.written + out,
                _ => self.written,
            },
            flushed: match (self.step, event) {
                (RelayStepView::Flush, RelayEventView::Flushed) => self.written,
                _ => self.flushed,
            },
            at_end: self.at_end || event == RelayEventView::Read(Seq::empty()),
            failed: self.failed || event is Failed,
            step: next,
        }
    }

    /// Whether the step that is next is the right one: to report the failure if
    /// a call failed; to finish if the reader is at its end, and not before; to
    /// flush what is written; to write exactly what is read and not written; and
    /// to read once all that was read is written and flushed.
    pub open spec fn is_right(self) -> bool {
        &&& self.step is Fail <==> self.failed
        &&& self.step is Finish <==> self.at_end && !self.failed
        &&& !self.failed ==> (self.at_end ==> self.flushed == self.read)
        &&& self.step is Read ==> self.flushed == self.read && self.written == self.read
        &&& self.step is Flush ==> self.written == self.read && self.flushed.len()
            < self.written.len()
        &&& self.step matches RelayStepView::Write(out) ==> (out.len() > 0 && self.written + out
            == self.read && self.flushed == self.written)
        &&& exists|rest: Seq<u8>| #[trigger] (self.written + rest) == self.read
    }
}

/// A relay that is run by the steps it returns: each of `events` comes of the step
/// before it.
pub open spec fn relay_progress(r: RelayView, p: Progress, events: Seq<RelayEventView>) -> Progress
    decreases events.len(),
{
    if events.len() == 0 {
        p
    } else {
        let (next, step) = after_relay(r, events[0]);
        relay_progress(next, p.after(events[0], step), events.drop_first())
    }
}

/// Whether each of `events` comes of the step before it.
pub open spec fn relay_possible(r: RelayView, p: Progress, events: Seq<RelayEventView>) -> bool
    decreases events.len(),
{
    events.len() > 0 ==> comes_of(p.step, events[0]) && {
        let (next, step) = after_relay(r, events[0]);
        relay_possible(next, p.after(events[0], step), events.drop_first())
    }
}

/// Whether what a relay counts is what it did.
spec fn is_counted(r: RelayView, p: Progress) -> bool {
    &&& p.is_right()
    &&& !p.failed ==> r.total == p.flushed.len()
    &&& p.step matches RelayStepView::Finish(total) ==> total == p.read.len()
    &&& p.step matches RelayStepView::Write(out) ==> r.in_flight == out.len()
    &&& p.step is Flush ==> r.total + r.in_flight == p.written.len()
}

proof fn lemma_relay_progress(r: RelayView, p: Progress, events: Seq<RelayEventView>)
    requires
        is_counted(r, p),
        relay_possible(r, p, events),
    ensures
        relay_progress(r, p, events).is_right(),
        relay_progress(r, p, events).step matches RelayStepView::Finish(total) ==> total
            == relay_progress(r, p, events).read.len(),
    decreases events.len(),
{
    if events.len() > 0 {
        let (next, step) = after_relay(r, events[0]);
        let q = p.after(events[0], step);
        lemma_right_after(p, events[0], step);
        lemma_relay_progress(next, q, events.drop_first());
    }
}

/// What the next step has to be for the progress to stay right.
proof fn lemma_right_after(p: Progress, event: RelayEventView, next: RelayStepView)
    requires
        p.is_right(),
        comes_of(p.step, event),
        match event {
            RelayEventView::Read(bytes) => if bytes.len() == 0 {
                next is Finish
            } else {
                next == RelayStepView::Write(bytes)
            },
            RelayEventView::Written => next is Flush,
            RelayEventView::Flushed => next is Read,
            RelayEventView::Failed => next is Fail,
        },
    ensures
        p.after(event, next).is_right(),
{
    let q = p.after(event, next);
    match event {
        RelayEventView::Read(bytes) => {
            assert(q.written + bytes == q.read);
            if bytes.len() == 0 {
                assert(bytes =~= Seq::<u8>::empty());
                assert(p.read + bytes =~= p.read);
            }
        },
        RelayEventView::Written => {
            assert(q.written + Seq::<u8>::empty() =~= q.read);
        },
        RelayEventView::Flushed => {
            assert(q.written + Seq::<u8>::empty() =~= q.read);
        },
        RelayEventView::Failed => {
            let rest = choose|rest: Seq<u8>| #[trigger] (p.written + rest) == p.read;
            assert(q.written + rest == q.read);
        },
    }
}

/// A relay that is run by the steps it returns does the right thing at every
/// time, whatever the reader gives and whichever call fails: it writes what was
/// read, byte for byte and in order, flushes what it wrote, reads on once that is
/// done, finishes at the reader's end and not before, and then reports how many
/// bytes were read, all of them written and flushed. It fails exactly if a call
/// did.
pub proof fn law_relay_follows_its_steps(events: Seq<RelayEventView>)
    requires
        relay_possible(RelayView { total: 0, in_flight: 0 }, Progress::start(), events),
    ensures
        ({
            let p = relay_progress(
                RelayView { total: 0, in_flight: 0 },
                Progress::start(),
                events,
            );
            &&& p.is_right()
            &&& p.step matches RelayStepView::Finish(total) ==> total == p.read.len()
        }),
{
    lemma_start_is_right();
    lemma_relay_progress(RelayView { total: 0, in_flight: 0 }, Progress::start(), events);
}

proof fn lemma_start_is_right()
    ensures
        Progress::start().is_right(),
{
    assert(Progress::start().written + Seq::<u8>::empty() =~= Progress::start().read);
}

/// An echo that is run by the steps it returns.
pub open spec fn echo_progress(p: Progress, events: Seq<RelayEventView>) -> Progress
    decreases events.len(),
{
    if events.len() == 0 {
        p
    } else {
        echo_progress(p.after(events[0], echo_step(events[0])), events.drop_first())
    }
}

/// Whether each of `events` comes of the step before it.
pub open spec fn echo_possible(p: Progress, events: Seq<RelayEventView>) -> bool
    decreases events.len(),
{
    events.len() > 0 ==> comes_of(p.step, events[0]) && echo_possible(
        p.after(events[0], echo_step(events[0])),
        events.drop_first(),
    )
}

proof fn lemma_echo_progress(p: Progress, events: Seq<RelayEventView>)
    requires
        p.is_right(),
        echo_possible(p, events),
    ensures
        echo_progress(p, events).is_right(),
    decreases events.len(),
{
    if events.len() > 0 {
        let step = echo_step(events[0]);
        lemma_right_after(p, events[0], step);
        lemma_echo_progress(p.after(events[0], step), events.drop_first());
    }
}

/// An echo that is run by the steps it returns does the right thing at every
/// time: it writes back what was read, byte for byte and in order, flushes what it
/// wrote, reads on once that is done, and finishes at the end of the stream and not
/// before. It fails exactly if a call did.
pub proof fn law_echo_follows_its_steps(events: Seq<RelayEventView>)
    requires
        echo_possible(Progress::start(), events),
    ensures
        echo_progress(Progress::start(), events).is_right(),
{
    lemma_start_is_right();
    lemma_echo_progress(Progress::start(), events);
}

} // verus!

//! The client's bridge between one QUIC stream and its reader and writer.
//!
//! picoquic runs a packet loop on a thread of its own and reports through two
//! callbacks: one for stream events, one for the stages of the loop. This
//! module holds what the callbacks decide. What they decide on, the queue of
//! data to send and the calls into picoquic, is outside: a decision is a step,
//! and what came of the step is handed back.

use crate::picoquic::picoquic_call_back_event_t;
use crate::picoquic::PICOQUIC_NO_ERROR_TERMINATE_PACKET_LOOP;
use crate::picoquic::PICOQUIC_PACKET_LOOP_AFTER_RECEIVE;
use crate::picoquic::PICOQUIC_PACKET_LOOP_AFTER_SEND;
use crate::picoquic::PICOQUIC_PACKET_LOOP_READY;
use crate::picoquic::PICOQUIC_PACKET_LOOP_TIME_CHECK;
use crate::send_half::copy_of;
use vstd::prelude::*;

verus! {

/// The stream id that stands for "no stream yet". QUIC stream id 0 is the first
/// stream that a client opens, so 0 cannot stand for it.
pub const STREAM_ID_NOT_SET: u64 = 0xffff_ffff_ffff_ffff;

/// The connection handle that stands for "no connection yet".
pub const NO_CONNECTION: u64 = 0;

/// What a stream event calls for.
#[derive(Debug)]
pub enum StreamStep {
    /// Nothing.
    Nothing,
    /// Open a local bidirectional stream and mark it active.
    OpenStream,
    /// Queue these bytes for the reader; none marks the end of the stream.
    Deliver(Vec<u8>),
}

/// The model of `StreamStep`.
pub enum StreamStepView {
    Nothing,
    OpenStream,
    Deliver(Seq<u8>),
}

impl View for StreamStep {
    type V = StreamStepView;

    open spec fn view(&self) -> StreamStepView {
        match self {
            StreamStep::Nothing => StreamStepView::Nothing,
            StreamStep::OpenStream => StreamStepView::OpenStream,
            StreamStep::Deliver(bytes) => StreamStepView::Deliver(bytes@),
        }
    }
}

/// What a stage of the packet loop calls for next.
#[derive(Clone, Copy, Debug, PartialEq, Eq, Structural)]
pub enum LoopStep {
    /// Take the next entry off the send queue, without waiting. If `wake`, wake
    /// the writer first.
    TryRecv { wake: bool },
    /// Queue the outgoing bytes on the stream; with `fin`, end the stream.
    AddToStream { cnx: u64, stream_id: u64, fin: bool },
    /// Answer the packet loop with `code`. If `time_check`, ask for time checks
    /// first; if `wake_soon`, have the loop sleep but shortly; if `wake`, wake
    /// the writer.
    Return { code: i32, time_check: bool, wake_soon: bool, wake: bool },
}

/// What came of a step.
#[derive(Debug)]
pub enum LoopEvent {
    /// The send queue gave an entry.
    Received(Vec<u8>),
    /// The send queue is empty.
    Empty,
    /// The send queue is empty, and its writer is gone.
    Disconnected,
    /// picoquic answered the call that queues bytes on the stream.
    Added(i32),
}

/// The model of `LoopEvent`.
pub enum LoopEventView {
    Received(Seq<u8>),
    Empty,
    Disconnected,
    Added(i32),
}

impl View for LoopEvent {
    type V = LoopEventView;

    open spec fn view(&self) -> LoopEventView {
        match self {
            LoopEvent::Received(data) => LoopEventView::Received(data@),
            LoopEvent::Empty => LoopEventView::Empty,
            LoopEvent::Disconnected => LoopEventView::Disconnected,
            LoopEvent::Added(ret) => LoopEventView::Added(*ret),
        }
    }
}

/// Where a stage of the packet loop stands.
#[derive(Clone, Copy, Debug, PartialEq, Eq, Structural)]
pub enum LoopPhase {
    /// No stage is under way.
    Idle,
    /// A time check looks whether there is something to send.
    Peeking,
    /// The entry that a time check took is being queued on the stream.
    AddingFirst,
    /// The next entry of the send queue is being asked for.
    Draining,
    /// An entry of the send queue is being queued on the stream.
    AddingNext,
}

/// The state of the bridge.
#[derive(Debug)]
pub struct ClientBridge {
    cnx: u64,
    stream_id: u64,
    disconnected: bool,
    peek: Option<Vec<u8>>,
    phase: LoopPhase,
    outgoing: Vec<u8>,
}

/// The model of the bridge.
#[verifier::ext_equal]
pub struct BridgeView {
    /// The connection, or `NO_CONNECTION`.
    pub cnx: u64,
    /// The stream, or `STREAM_ID_NOT_SET`.
    pub stream_id: u64,
    /// Whether the connection was closed.
    pub disconnected: bool,
    /// The entry that a time check took off the send queue.
    pub peek: Option<Seq<u8>>,
    /// Where a stage of the packet loop stands.
    pub phase: LoopPhase,
    /// The bytes being queued on the stream.
    pub outgoing: Seq<u8>,
}

impl View for ClientBridge {
    type V = BridgeView;

    closed spec fn view(&self) -> BridgeView {
        BridgeView {
            cnx: self.cnx,
            stream_id: self.stream_id,
            disconnected: self.disconnected,
            peek: match self.peek {
                Some(data) => Some(data@),
                None => None,
            },
            phase: self.phase,
            outgoing: self.outgoing@,
        }
    }
}

impl BridgeView {
    /// Whether data can be sent: there is a connection and a stream.
    pub open spec fn connected(self) -> bool {
        self.cnx != NO_CONNECTION && self.stream_id != STREAM_ID_NOT_SET
    }

    /// The bridge between two stages of the packet loop.
    pub open spec fn at_rest(self, peek: Option<Seq<u8>>) -> BridgeView {
        BridgeView { peek, phase: LoopPhase::Idle, outgoing: Seq::empty(), ..self }
    }

    /// The bridge while `data` is being queued on the stream.
    pub open spec fn adding(
        self,
        phase: LoopPhase,
        peek: Option<Seq<u8>>,
        data: Seq<u8>,
    ) -> BridgeView {
        BridgeView { peek, phase, outgoing: data, ..self }
    }

    /// The step that queues `data` on the stream. Empty data ends the stream.
    pub open spec fn add_step(self, data: Seq<u8>) -> LoopStep {
        LoopStep::AddToStream { cnx: self.cnx, stream_id: self.stream_id, fin: data.len() == 0 }
    }
}

/// The answer 0, with nothing else to do.
pub open spec fn plain_return() -> LoopStep {
    LoopStep::Return { code: 0, time_check: false, wake_soon: false, wake: false }
}

/// What a stream event calls for, and the state after it.
pub open spec fn on_event(
    s: BridgeView,
    cnx: u64,
    event: picoquic_call_back_event_t,
    data: Seq<u8>,
) -> (BridgeView, StreamStepView) {
    match event {
        picoquic_call_back_event_t::picoquic_callback_ready => (
            BridgeView { cnx, ..s },
            StreamStepView::OpenStream,
        ),
        picoquic_call_back_event_t::picoquic_callback_stream_data => if data.len() > 0 {
            (s, StreamStepView::Deliver(data))
        } else {
            (s, StreamStepView::Nothing)
        },
        picoquic_call_back_event_t::picoquic_callback_stream_fin
        | picoquic_call_back_event_t::picoquic_callback_stream_reset
        | picoquic_call_back_event_t::picoquic_callback_stop_sending => (
            s,
            StreamStepView::Deliver(Seq::empty()),
        ),
        picoquic_call_back_event_t::picoquic_callback_close
        | picoquic_call_back_event_t::picoquic_callback_application_close
        | picoquic_call_back_event_t::picoquic_callback_stateless_reset => (
            BridgeView { disconnected: true, ..s },
            StreamStepView::Deliver(Seq::empty()),
        ),
        _ => (s, StreamStepView::Nothing),
    }
}

/// The state after a stream was opened, which picoquic answered with `marked`, and
/// the answer to the callback.
pub open spec fn stream_opened(s: BridgeView, stream_id: u64, marked: i32) -> (BridgeView, i32) {
    if marked == 0 {
        (BridgeView { stream_id, ..s }, 0)
    } else {
        (s, -1i32)
    }
}

/// How a stage of the packet loop begins. `has_arg`: the loop passed the
/// argument that goes with the stage.
pub open spec fn loop_start(s: BridgeView, mode: i32, has_arg: bool) -> (BridgeView, LoopStep) {
    if mode == PICOQUIC_PACKET_LOOP_READY {
        (
            s,
            LoopStep::Return { code: 0, time_check: has_arg, wake_soon: false, wake: false },
        )
    } else if mode == PICOQUIC_PACKET_LOOP_TIME_CHECK && has_arg && s.connected() {
        match s.peek {
            Some(_) => (
                s,
                LoopStep::Return { code: 0, time_check: false, wake_soon: true, wake: false },
            ),
            None => (
                BridgeView { phase: LoopPhase::Peeking, ..s },
                LoopStep::TryRecv { wake: false },
            ),
        }
    } else if (mode == PICOQUIC_PACKET_LOOP_AFTER_RECEIVE || mode
        == PICOQUIC_PACKET_LOOP_AFTER_SEND) && s.connected() {
        match s.peek {
            Some(data) => (s.adding(LoopPhase::AddingFirst, None, data), s.add_step(data)),
            None => (s, plain_return()),
        }
    } else {
        (s, plain_return())
    }
}

/// Whether `event` is what a stage in phase `phase` waits for.
pub open spec fn awaited(phase: LoopPhase, event: LoopEventView) -> bool {
    match phase {
        LoopPhase::Idle => false,
        LoopPhase::Peeking | LoopPhase::Draining => !(event is Added),
        LoopPhase::AddingFirst | LoopPhase::AddingNext => event is Added,
    }
}

/// How a stage of the packet loop goes on after `event`.
///
/// A refused entry is kept for the next stage if a time check took it off the
/// queue, and is given up otherwise.
pub open spec fn loop_resume(s: BridgeView, event: LoopEventView) -> (BridgeView, LoopStep) {
    match (s.phase, event) {
        (LoopPhase::Peeking, LoopEventView::Received(data)) => (
            s.at_rest(Some(data)),
            LoopStep::Return { code: 0, time_check: false, wake_soon: true, wake: false },
        ),
        (LoopPhase::Peeking, _) => (s.at_rest(None), plain_return()),
        (LoopPhase::AddingFirst, LoopEventView::Added(ret)) => (
            s.adding(
                LoopPhase::Draining,
                if ret != 0 && s.outgoing.len() > 0 {
                    Some(s.outgoing)
                } else {
                    None
                },
                Seq::empty(),
            ),
            LoopStep::TryRecv { wake: true },
        ),
        (LoopPhase::Draining, LoopEventView::Received(data)) => (
            s.adding(LoopPhase::AddingNext, s.peek, data),
            s.add_step(data),
        ),
        (LoopPhase::Draining, LoopEventView::Disconnected) => (
            s.at_rest(s.peek),
            LoopStep::Return {
                code: PICOQUIC_NO_ERROR_TERMINATE_PACKET_LOOP,
                time_check: false,
                wake_soon: false,
                wake: false,
            },
        ),
        (LoopPhase::AddingNext, LoopEventView::Added(ret)) => if ret != 0 && s.outgoing.len() > 0 {
            (
                s.at_rest(s.peek),
                LoopStep::Return { code: 0, time_check: false, wake_soon: false, wake: true },
            )
        } else {
            (
                s.adding(LoopPhase::Draining, s.peek, Seq::empty()),
                LoopStep::TryRecv { wake: false },
            )
        },
        (_, _) => (
            s.at_rest(s.peek),
            LoopStep::Return { code: 0, time_check: false, wake_soon: false, wake: true },
        ),
    }
}

impl ClientBridge {
    /// A bridge with no connection, no stream and nothing to send.
    pub fn new() -> (bridge: ClientBridge)
        ensures
            bridge@ == (BridgeView {
                cnx: NO_CONNECTION,
                stream_id: STREAM_ID_NOT_SET,
                disconnected: false,
                peek: None,
                phase: LoopPhase::Idle,
                outgoing: Seq::empty(),
            }),
    {
        let bridge = ClientBridge {
            cnx: NO_CONNECTION,
            stream_id: STREAM_ID_NOT_SET,
            disconnected: false,
            peek: None,
            phase: LoopPhase::Idle,
            outgoing: Vec::new(),
        };
        assert(bridge@.outgoing =~= Seq::<u8>::empty());
        bridge
    }

    /// Whether the connection was closed.
    pub fn disconnected(&self) -> (closed: bool)
        ensures
            closed == self@.disconnected,
    {
        self.disconnected
    }

    /// The bytes being queued on the stream.
    pub fn outgoing(&self) -> (bytes: &Vec<u8>)
        ensures
            bytes@ == self@.outgoing,
    {
        &self.outgoing
    }

    /// Takes in a stream event of connection `cnx` that came with `data`.
    pub fn on_event(
        &mut self,
        cnx: u64,
        event: picoquic_call_back_event_t,
        data: &[u8],
    ) -> (step: StreamStep)
        ensures
            (final(self)@, step@) == on_event(old(self)@, cnx, event, data@),
    {
        match event {
            picoquic_call_back_event_t::picoquic_callback_ready => {
                self.cnx = cnx;
                StreamStep::OpenStream
            },
            picoquic_call_back_event_t::picoquic_callback_stream_data => {
                if data.len() > 0 {
                    StreamStep::Deliver(copy_of(data))
                } else {
                    StreamStep::Nothing
                }
            },
            picoquic_call_back_event_t::picoquic_callback_stream_fin
            | picoquic_call_back_event_t::picoquic_callback_stream_reset
            | picoquic_call_back_event_t::picoquic_callback_stop_sending => {
                StreamStep::Deliver(Vec::new())
            },
            picoquic_call_back_event_t::picoquic_callback_close
            | picoquic_call_back_event_t::picoquic_callback_application_close
            | picoquic_call_back_event_t::picoquic_callback_stateless_reset => {
                self.disconnected = true;
                StreamStep::Deliver(Vec::new())
            },
            _ => StreamStep::Nothing,
        }
    }

    /// Takes in the stream that was opened, with picoquic's answer to marking it
    /// active. Returns the answer to the callback: 0, and the connection counts
    /// as ready, or -1 where picoquic refused.
    pub fn on_stream_opened(&mut self, stream_id: u64, marked: i32) -> (answer: i32)
        ensures
            answer == (if marked == 0 {
                0int
            } else {
                -1
            }),
            final(self)@ == (if marked == 0 {
                BridgeView { stream_id, ..old(self)@ }
            } else {
                old(self)@
            }),
            (final(self)@, answer) == stream_opened(old(self)@, stream_id, marked),
    {
        if marked != 0 {
            return -1;
        }
        self.stream_id = stream_id;
        0
    }

    /// Begins a stage of the packet loop.
    pub fn loop_start(&mut self, mode: i32, has_arg: bool) -> (step: LoopStep)
        requires
            old(self)@.phase is Idle,
        ensures
            (final(self)@, step) == loop_start(old(self)@, mode, has_arg),
    {
        let connected = self.cnx != NO_CONNECTION && self.stream_id != STREAM_ID_NOT_SET;
        if mode == PICOQUIC_PACKET_LOOP_READY {
            return LoopStep::Return {
                code: 0,
                time_check: has_arg,
                wake_soon: false,
                wake: false,
            };
        }
        if mode == PICOQUIC_PACKET_LOOP_TIME_CHECK && has_arg && connected {
            if self.peek.is_none() {
                self.phase = LoopPhase::Peeking;
                return LoopStep::TryRecv { wake: false };
            }
            return LoopStep::Return { code: 0, time_check: false, wake_soon: true, wake: false };
        }
        if (mode == PICOQUIC_PACKET_LOOP_AFTER_RECEIVE || mode == PICOQUIC_PACKET_LOOP_AFTER_SEND)
            && connected {
            if let Some(data) = self.peek.take() {
                return self.add(LoopPhase::AddingFirst, data);
            }
        }
        LoopStep::Return { code: 0, time_check: false, wake_soon: false, wake: false }
    }

    /// Sets out to queue `data` on the stream.
    fn add(&mut self, phase: LoopPhase, data: Vec<u8>) -> (step: LoopStep)
        ensures
            final(self)@ == old(self)@.adding(phase, old(self)@.peek, data@),
            step == old(self)@.add_step(data@),
    {
        let fin = data.len() == 0;
        self.phase = phase;
        self.outgoing = data;
        LoopStep::AddToStream { cnx: self.cnx, stream_id: self.stream_id, fin }
    }

    /// Ends the stage that is under way.
    fn rest(&mut self)
        ensures
            final(self)@ == old(self)@.at_rest(old(self)@.peek),
    {
        self.phase = LoopPhase::Idle;
        self.outgoing = Vec::new();
        assert(self@.outgoing =~= Seq::<u8>::empty());
    }

    /// Takes the outgoing bytes back.
    fn take_outgoing(&mut self) -> (bytes: Vec<u8>)
        ensures
            bytes@ == old(self)@.outgoing,
            final(self)@ == (BridgeView { outgoing: Seq::empty(), ..old(self)@ }),
    {
        let mut bytes: Vec<u8> = Vec::new();
        std::mem::swap(&mut bytes, &mut self.outgoing);
        assert(self@.outgoing =~= Seq::<u8>::empty());
        bytes
    }

    /// Goes on with the stage of the packet loop that is under way.
    pub fn loop_resume(&mut self, event: LoopEvent) -> (step: LoopStep)
        requires
            awaited(old(self)@.phase, event@),
        ensures
            (final(self)@, step) == loop_resume(old(self)@, event@),
    {
        match (self.phase, event) {
            (LoopPhase::Peeking, LoopEvent::Received(data)) => {
                self.peek = Some(data);
                self.rest();
                LoopStep::Return { code: 0, time_check: false, wake_soon: true, wake: false }
            },
            (LoopPhase::Peeking, _) => {
                self.peek = None;
                self.rest();
                LoopStep::Return { code: 0, time_check: false, wake_soon: false, wake: false }
            },
            (LoopPhase::AddingFirst, LoopEvent::Added(ret)) => {
                let data = self.take_outgoing();
                self.peek = if ret != 0 && data.len() > 0 {
                    Some(data)
                } else {
                    None
                };
                self.phase = LoopPhase::Draining;
                LoopStep::TryRecv { wake: true }
            },
            (LoopPhase::Draining, LoopEvent::Received(data)) => self.add(
                LoopPhase::AddingNext,
                data,
            ),
            (LoopPhase::Draining, LoopEvent::Disconnected) => {
                self.rest();
                LoopStep::Return {
                    code: PICOQUIC_NO_ERROR_TERMINATE_PACKET_LOOP,
                    time_check: false,
                    wake_soon: false,
                    wake: false,
                }
            },
            (LoopPhase::AddingNext, LoopEvent::Added(ret)) => {
                let data = self.take_outgoing();
                if ret != 0 && data.len() > 0 {
                    self.rest();
                    LoopStep::Return { code: 0, time_check: false, wake_soon: false, wake: true }
                } else {
                    self.phase = LoopPhase::Draining;
                    LoopStep::TryRecv { wake: false }
                }
            },
            (_, _) => {
                self.rest();
                LoopStep::Return { code: 0, time_check: false, wake_soon: false, wake: true }
            },
        }
    }
}

/// A stage of the packet loop from some step on: what it queued on the stream,
/// what it left in the send queue, and how it ended.
#[verifier::ext_equal]
pub struct StageEnd {
    /// The entries that were queued on the stream, in order, taken or refused.
    pub added: Seq<Seq<u8>>,
    /// What is left of the send queue.
    pub queue: Seq<Seq<u8>>,
    /// The bridge at the end.
    pub bridge: BridgeView,
    /// The answer to the packet loop.
    pub answer: LoopStep,
}

/// How far a stage is from its end at most.
pub open spec fn steps_left(step: LoopStep, queue: Seq<Seq<u8>>) -> nat {
    match step {
        LoopStep::Return { .. } => 0,
        LoopStep::TryRecv { .. } => 2 * queue.len() + 1,
        LoopStep::AddToStream { .. } => 2 * queue.len() + 2,
    }
}

/// Runs a stage from `step` on against the send queue `queue`, whose writer is
/// gone if `closed`, and against picoquic, which answers the n-th call to queue
/// bytes on the stream with `answers(n)`.
pub open spec fn stage_run(
    s: BridgeView,
    step: LoopStep,
    queue: Seq<Seq<u8>>,
    closed: bool,
    answers: spec_fn(nat) -> i32,
    calls: nat,
) -> StageEnd
    decreases steps_left(step, queue),
{
    match step {
        LoopStep::Return { .. } => StageEnd {
            added: Seq::empty(),
            queue,
            bridge: s,
            answer: step,
        },
        LoopStep::TryRecv { .. } => {
            let event = if queue.len() > 0 {
                LoopEventView::Received(queue[0])
            } else if closed {
                LoopEventView::Disconnected
            } else {
                LoopEventView::Empty
            };
            let rest = if queue.len() > 0 {
                queue.drop_first()
            } else {
                queue
            };
            let (s1, step1) = loop_resume(s, event);
            if steps_left(step1, rest) < steps_left(step, queue) {
                stage_run(s1, step1, rest, closed, answers, calls)
            } else {
                StageEnd { added: Seq::empty(), queue: rest, bridge: s1, answer: step1 }
            }
        },
        LoopStep::AddToStream { .. } => {
            let (s1, step1) = loop_resume(s, LoopEventView::Added(answers(calls)));
            if steps_left(step1, queue) < steps_left(step, queue) {
                let later = stage_run(s1, step1, queue, closed, answers, calls + 1);
                StageEnd { added: seq![s.outgoing] + later.added, ..later }
            } else {
                StageEnd { added: Seq::empty(), queue, bridge: s1, answer: step1 }
            }
        },
    }
}

/// A stage after packets were received or sent, from its beginning.
pub open spec fn drain_stage(
    s: BridgeView,
    mode: i32,
    queue: Seq<Seq<u8>>,
    closed: bool,
    answers: spec_fn(nat) -> i32,
) -> StageEnd {
    let (s1, step1) = loop_start(s, mode, true);
    stage_run(s1, step1, queue, closed, answers, 0)
}

/// Whether picoquic takes every entry of `added`, where its answer to the first
/// is the one after `calls` others.
pub open spec fn all_taken(
    added: Seq<Seq<u8>>,
    answers: spec_fn(nat) -> i32,
    calls: nat,
) -> bool {
    forall|n: nat| calls <= n < calls + added.len() ==> #[trigger] answers(n) == 0
}

/// The part of a drain that follows the first entry.
proof fn lemma_drain_rest(
    s: BridgeView,
    wake: bool,
    queue: Seq<Seq<u8>>,
    closed: bool,
    answers: spec_fn(nat) -> i32,
    calls: nat,
)
    requires
        s.phase is Draining,
        s.outgoing.len() == 0,
    ensures
        ({
            let end = stage_run(s, LoopStep::TryRecv { wake }, queue, closed, answers, calls);
            &&& end.added + end.queue == queue
            &&& end.bridge == s.at_rest(s.peek)
            &&& end.answer is Return
            &&& all_taken(end.added, answers, calls) ==> end.queue.len() == 0 && end.answer->code
                == if closed {
                PICOQUIC_NO_ERROR_TERMINATE_PACKET_LOOP
            } else {
                0
            }
        }),
    decreases queue.len(),
{
    let step = LoopStep::TryRecv { wake };
    let end = stage_run(s, step, queue, closed, answers, calls);
    if queue.len() == 0 {
        let event = if closed {
            LoopEventView::Disconnected
        } else {
            LoopEventView::Empty
        };
        let (s1, step1) = loop_resume(s, event);
        assert(end == stage_run(s1, step1, queue, closed, answers, calls));
        assert(end.added + end.queue =~= queue);
    } else {
        let data = queue[0];
        let rest = queue.drop_first();
        let (s1, step1) = loop_resume(s, LoopEventView::Received(data));
        assert(step1 is AddToStream);
        assert(s1.outgoing == data);
        let end1 = stage_run(s1, step1, rest, closed, answers, calls);
        assert(end == end1);
        let (s2, step2) = loop_resume(s1, LoopEventView::Added(answers(calls)));
        let end2 = stage_run(s2, step2, rest, closed, answers, calls + 1);
        assert(end1.added == seq![data] + end2.added);
        if step2 is Return {
            assert(end2.added =~= Seq::<Seq<u8>>::empty());
            assert(s2 == s.at_rest(s.peek));
        } else {
            assert(step2 == (LoopStep::TryRecv { wake: false }));
            lemma_drain_rest(s2, false, rest, closed, answers, calls + 1);
            assert(s2.at_rest(s2.peek) =~= s.at_rest(s.peek));
        }
        assert(end.added + end.queue =~= seq![data] + (end2.added + end2.queue));
        assert(seq![data] + rest =~= queue);
    }
}

/// A drain offers the entry that a time check took, and then entries of the
/// send queue in their order, leaving the others where they are: none is
/// skipped, repeated or reordered. It answers the packet loop and leaves the
/// bridge at rest.
pub proof fn law_drain_keeps_order(
    s: BridgeView,
    mode: i32,
    first: Seq<u8>,
    queue: Seq<Seq<u8>>,
    closed: bool,
    answers: spec_fn(nat) -> i32,
)
    requires
        mode == PICOQUIC_PACKET_LOOP_AFTER_RECEIVE || mode == PICOQUIC_PACKET_LOOP_AFTER_SEND,
        s.connected(),
        s.peek == Some(first),
    ensures
        ({
            let end = drain_stage(s, mode, queue, closed, answers);
            &&& end.added + end.queue == seq![first] + queue
            &&& end.added.len() > 0
            &&& end.answer is Return
            &&& end.bridge.phase is Idle
            &&& end.bridge.connected()
        }),
{
    lemma_drain(s, mode, first, queue, closed, answers);
}

/// Where picoquic takes every entry, a drain empties the send queue: all its
/// entries are queued on the stream, behind the one that a time check took,
/// and nothing is held back. The packet loop is ended exactly if the writer is
/// gone.
pub proof fn law_drain_sends_all(
    s: BridgeView,
    mode: i32,
    first: Seq<u8>,
    queue: Seq<Seq<u8>>,
    closed: bool,
    answers: spec_fn(nat) -> i32,
)
    requires
        mode == PICOQUIC_PACKET_LOOP_AFTER_RECEIVE || mode == PICOQUIC_PACKET_LOOP_AFTER_SEND,
        s.connected(),
        s.peek == Some(first),
        all_taken(drain_stage(s, mode, queue, closed, answers).added, answers, 0),
    ensures
        ({
            let end = drain_stage(s, mode, queue, closed, answers);
            &&& end.added == seq![first] + queue
            &&& end.queue.len() == 0
            &&& end.bridge == s.at_rest(None)
            &&& end.answer->code == if closed {
                PICOQUIC_NO_ERROR_TERMINATE_PACKET_LOOP
            } else {
                0
            }
        }),
{
    lemma_drain(s, mode, first, queue, closed, answers);
    let end = drain_stage(s, mode, queue, closed, answers);
    assert(end.added + end.queue =~= end.added);
}

/// What a drain does, in full.
proof fn lemma_drain(
    s: BridgeView,
    mode: i32,
    first: Seq<u8>,
    queue: Seq<Seq<u8>>,
    closed: bool,
    answers: spec_fn(nat) -> i32,
)
    requires
        mode == PICOQUIC_PACKET_LOOP_AFTER_RECEIVE || mode == PICOQUIC_PACKET_LOOP_AFTER_SEND,
        s.connected(),
        s.peek == Some(first),
    ensures
        ({
            let end = drain_stage(s, mode, queue, closed, answers);
            &&& end.added + end.queue == seq![first] + queue
            &&& end.added.len() > 0
            &&& end.answer is Return
            &&& end.bridge == s.at_rest(
                if answers(0) != 0 && first.len() > 0 {
                    Some(first)
                } else {
                    None
                },
            )
            &&& all_taken(end.added, answers, 0) ==> end.queue.len() == 0 && end.answer->code
                == if closed {
                PICOQUIC_NO_ERROR_TERMINATE_PACKET_LOOP
            } else {
                0
            }
            &&& queue.len() == 0 ==> end.added == seq![first] && end.queue.len() == 0
        }),
{
    let end = drain_stage(s, mode, queue, closed, answers);
    let (s1, step1) = loop_start(s, mode, true);
    let (s2, step2) = loop_resume(s1, LoopEventView::Added(answers(0)));
    let end2 = stage_run(s2, step2, queue, closed, answers, 1);
    assert(step2 == (LoopStep::TryRecv { wake: true }));
    assert(steps_left(step2, queue) < steps_left(step1, queue));
    assert(end == stage_run(s1, step1, queue, closed, answers, 0));
    assert(end.added == seq![first] + end2.added);
    lemma_drain_rest(s2, true, queue, closed, answers, 1);
    assert(end.added + end.queue =~= seq![first] + (end2.added + end2.queue));
    assert(s2.at_rest(s2.peek) =~= s.at_rest(s2.peek));
}

/// The bridge ends the stream with the end mark and with nothing else, whether
/// a time check took it or a drain does.
pub proof fn law_end_mark_ends_stream(s: BridgeView, mode: i32, data: Seq<u8>)
    requires
        s.connected(),
        mode == PICOQUIC_PACKET_LOOP_AFTER_RECEIVE || mode == PICOQUIC_PACKET_LOOP_AFTER_SEND,
    ensures
        s.peek == Some(data) ==> (loop_start(s, mode, true).1 matches LoopStep::AddToStream {
            fin,
            ..
        } && (fin <==> data == Seq::<u8>::empty())),
        s.phase is Draining ==> (loop_resume(s, LoopEventView::Received(data)).1
            matches LoopStep::AddToStream { fin, .. } && (fin <==> data == Seq::<u8>::empty())),
{
    if data.len() == 0 {
        assert(data =~= Seq::<u8>::empty());
    }
}

/// An entry that a time check took and that picoquic refuses is not lost: the
/// next drain offers it again, before anything else.
pub proof fn law_refused_entry_is_retried(
    s: BridgeView,
    mode: i32,
    first: Seq<u8>,
    queue: Seq<Seq<u8>>,
    closed: bool,
    answers: spec_fn(nat) -> i32,
    later_queue: Seq<Seq<u8>>,
    later_answers: spec_fn(nat) -> i32,
)
    requires
        mode == PICOQUIC_PACKET_LOOP_AFTER_RECEIVE || mode == PICOQUIC_PACKET_LOOP_AFTER_SEND,
        s.connected(),
        s.peek == Some(first),
        first.len() > 0,
        answers(0) != 0,
    ensures
        ({
            let again = drain_stage(
                drain_stage(s, mode, queue, closed, answers).bridge,
                mode,
                later_queue,
                closed,
                later_answers,
            );
            again.added.len() > 0 && again.added[0] == first
        }),
{
    lemma_drain(s, mode, first, queue, closed, answers);
    let bridge = drain_stage(s, mode, queue, closed, answers).bridge;
    lemma_drain(bridge, mode, first, later_queue, closed, later_answers);
    let again = drain_stage(bridge, mode, later_queue, closed, later_answers);
    assert((again.added + again.queue)[0] == first);
}

/// Without an entry taken by a time check, or before the connection is up, a
/// drain queues nothing on the stream and leaves the send queue alone.
pub proof fn law_no_drain_without_peek(
    s: BridgeView,
    mode: i32,
    queue: Seq<Seq<u8>>,
    closed: bool,
    answers: spec_fn(nat) -> i32,
)
    requires
        mode == PICOQUIC_PACKET_LOOP_AFTER_RECEIVE || mode == PICOQUIC_PACKET_LOOP_AFTER_SEND,
        s.peek is None || !s.connected(),
    ensures
        drain_stage(s, mode, queue, closed, answers) == (StageEnd {
            added: Seq::empty(),
            queue,
            bridge: s,
            answer: plain_return(),
        }),
{
}

/// A time check on a bridge that is up has the loop wake soon exactly if there
/// is something to send; it then holds the oldest entry, and takes no more than
/// one off the queue.
pub proof fn law_time_check(
    s: BridgeView,
    queue: Seq<Seq<u8>>,
    closed: bool,
    answers: spec_fn(nat) -> i32,
)
    requires
        s.connected(),
        s.phase is Idle,
        s.outgoing.len() == 0,
    ensures
        ({
            let (s1, step1) = loop_start(s, PICOQUIC_PACKET_LOOP_TIME_CHECK, true);
            let end = stage_run(s1, step1, queue, closed, answers, 0);
            let waiting = match s.peek {
                Some(data) => seq![data] + queue,
                None => queue,
            };
            &&& end.added.len() == 0
            &&& end.answer == (LoopStep::Return {
                code: 0,
                time_check: false,
                wake_soon: waiting.len() > 0,
                wake: false,
            })
            &&& end.bridge == s.at_rest(
                if waiting.len() > 0 {
                    Some(waiting[0])
                } else {
                    None
                },
            )
            &&& waiting.len() > 0 ==> end.queue == waiting.drop_first()
        }),
{
    let (s1, step1) = loop_start(s, PICOQUIC_PACKET_LOOP_TIME_CHECK, true);
    let end = stage_run(s1, step1, queue, closed, answers, 0);
    assert(s.outgoing =~= Seq::<u8>::empty());
    match s.peek {
        Some(data) => {
            assert((seq![data] + queue).drop_first() =~= queue);
            assert(end.bridge =~= s.at_rest(s.peek));
        },
        None => {
            if queue.len() > 0 {
                let (s2, step2) = loop_resume(s1, LoopEventView::Received(queue[0]));
                assert(end == stage_run(s2, step2, queue.drop_first(), closed, answers, 0));
            } else {
                let event = if closed {
                    LoopEventView::Disconnected
                } else {
                    LoopEventView::Empty
                };
                let (s2, step2) = loop_resume(s1, event);
                assert(end == stage_run(s2, step2, queue, closed, answers, 0));
            }
        },
    }
}

/// A stage of the packet loop, and what it meets.
pub struct Stage {
    /// The mode of the stage.
    pub mode: i32,
    /// Whether the loop passed the argument that goes with it.
    pub has_arg: bool,
    /// What the writer puts into the send queue before it.
    pub written: Seq<Seq<u8>>,
    /// Whether the writer is gone.
    pub closed: bool,
    /// picoquic's answers, in their order, to the calls that queue bytes on the
    /// stream.
    pub answers: spec_fn(nat) -> i32,
}

/// One stage on a bridge and a send queue.
pub open spec fn one_stage(s: BridgeView, queue: Seq<Seq<u8>>, stage: Stage) -> StageEnd {
    let (s1, step1) = loop_start(s, stage.mode, stage.has_arg);
    stage_run(s1, step1, queue + stage.written, stage.closed, stage.answers, 0)
}

/// The entries of `added` that picoquic takes, where its answer to the first is
/// the one after `calls` others.
pub open spec fn taken(
    added: Seq<Seq<u8>>,
    answers: spec_fn(nat) -> i32,
    calls: nat,
) -> Seq<Seq<u8>>
    decreases added.len(),
{
    if added.len() == 0 {
        Seq::empty()
    } else if answers(calls) == 0 {
        seq![added[0]] + taken(added.drop_first(), answers, calls + 1)
    } else {
        taken(added.drop_first(), answers, calls + 1)
    }
}

/// The entry that a time check took off the send queue, if it did.
pub open spec fn held(peek: Option<Seq<u8>>) -> Seq<Seq<u8>> {
    match peek {
        Some(data) => seq![data],
        None => Seq::empty(),
    }
}

/// Whether picoquic takes all that a stage offers, or refuses the one entry that
/// there is, taken by a time check, which is then offered again.
pub open spec fn no_refusal_hurts(s: BridgeView, queue: Seq<Seq<u8>>, stage: Stage) -> bool {
    ||| all_taken(one_stage(s, queue, stage).added, stage.answers, 0)
    ||| (queue + stage.written).len() == 0 && s.peek is Some && s.peek->0.len() > 0
}

/// Whether that holds of each of `stages`, one after the other.
pub open spec fn no_refusals_hurt(
    s: BridgeView,
    queue: Seq<Seq<u8>>,
    stages: Seq<Stage>,
) -> bool
    decreases stages.len(),
{
    stages.len() > 0 ==> {
        let end = one_stage(s, queue, stages[0]);
        no_refusal_hurts(s, queue, stages[0]) && no_refusals_hurt(
            end.bridge,
            end.queue,
            stages.drop_first(),
        )
    }
}

/// All that the writer puts into the send queue over `stages`.
pub open spec fn written_over(stages: Seq<Stage>) -> Seq<Seq<u8>>
    decreases stages.len(),
{
    if stages.len() == 0 {
        Seq::empty()
    } else {
        stages[0].written + written_over(stages.drop_first())
    }
}

/// All that picoquic takes over `stages`.
pub open spec fn taken_over(s: BridgeView, queue: Seq<Seq<u8>>, stages: Seq<Stage>) -> Seq<Seq<u8>>
    decreases stages.len(),
{
    if stages.len() == 0 {
        Seq::empty()
    } else {
        let end = one_stage(s, queue, stages[0]);
        taken(end.added, stages[0].answers, 0) + taken_over(
            end.bridge,
            end.queue,
            stages.drop_first(),
        )
    }
}

/// What waits to be sent after `stages`: the entry that a time check took, and
/// the send queue.
pub open spec fn waiting_after(
    s: BridgeView,
    queue: Seq<Seq<u8>>,
    stages: Seq<Stage>,
) -> Seq<Seq<u8>>
    decreases stages.len(),
{
    if stages.len() == 0 {
        held(s.peek) + queue
    } else {
        let end = one_stage(s, queue, stages[0]);
        waiting_after(end.bridge, end.queue, stages.drop_first())
    }
}

proof fn lemma_all_taken(added: Seq<Seq<u8>>, answers: spec_fn(nat) -> i32, calls: nat)
    requires
        all_taken(added, answers, calls),
    ensures
        taken(added, answers, calls) == added,
    decreases added.len(),
{
    if added.len() > 0 {
        assert(answers(calls) == 0);
        lemma_all_taken(added.drop_first(), answers, calls + 1);
        assert(seq![added[0]] + added.drop_first() =~= added);
    } else {
        assert(taken(added, answers, calls) =~= added);
    }
}

/// What one stage does to what waits to be sent.
proof fn lemma_one_stage(s: BridgeView, queue: Seq<Seq<u8>>, stage: Stage)
    requires
        s.phase is Idle,
        s.outgoing.len() == 0,
        no_refusal_hurts(s, queue, stage),
    ensures
        ({
            let end = one_stage(s, queue, stage);
            &&& taken(end.added, stage.answers, 0) + (held(end.bridge.peek) + end.queue) == held(
                s.peek,
            ) + (queue + stage.written)
            &&& end.bridge.phase is Idle
            &&& end.bridge.outgoing.len() == 0
        }),
{
    let all = queue + stage.written;
    let end = one_stage(s, queue, stage);
    let drains = stage.mode == PICOQUIC_PACKET_LOOP_AFTER_RECEIVE || stage.mode
        == PICOQUIC_PACKET_LOOP_AFTER_SEND;
    if drains && s.connected() && s.peek is Some {
        let first = s.peek->0;
        assert(end == drain_stage(s, stage.mode, all, stage.closed, stage.answers));
        lemma_drain(s, stage.mode, first, all, stage.closed, stage.answers);
        if all_taken(end.added, stage.answers, 0) {
            lemma_all_taken(end.added, stage.answers, 0);
            assert((stage.answers)(0) == 0);
            assert(end.added + (held(end.bridge.peek) + end.queue) =~= end.added + end.queue);
        } else {
            let added = end.added;
            assert(added.drop_first() =~= Seq::<Seq<u8>>::empty());
            assert(taken(added.drop_first(), stage.answers, 1) =~= Seq::<Seq<u8>>::empty());
            assert((stage.answers)(0) != 0);
            assert(taken(added, stage.answers, 0) =~= Seq::<Seq<u8>>::empty());
            assert(held(end.bridge.peek) + end.queue =~= held(s.peek) + all);
        }
    } else if stage.mode == PICOQUIC_PACKET_LOOP_TIME_CHECK && stage.has_arg && s.connected() {
        law_time_check(s, all, stage.closed, stage.answers);
        assert(taken(end.added, stage.answers, 0) =~= Seq::<Seq<u8>>::empty());
        let waiting = match s.peek {
            Some(data) => seq![data] + all,
            None => all,
        };
        assert(held(s.peek) + all =~= waiting);
        if waiting.len() > 0 {
            assert(seq![waiting[0]] + waiting.drop_first() =~= waiting);
        } else {
            let (s1, step1) = loop_start(s, stage.mode, true);
            let event = if stage.closed {
                LoopEventView::Disconnected
            } else {
                LoopEventView::Empty
            };
            let (s2, step2) = loop_resume(s1, event);
            assert(end == stage_run(s2, step2, all, stage.closed, stage.answers, 0));
            assert(held(end.bridge.peek) + end.queue =~= waiting);
        }
    } else {
        assert(end.added =~= Seq::<Seq<u8>>::empty());
        assert(taken(end.added, stage.answers, 0) =~= Seq::<Seq<u8>>::empty());
        assert(end.bridge == s);
    }
    assert(taken(end.added, stage.answers, 0) + (held(end.bridge.peek) + end.queue) =~= held(s.peek)
        + all);
}

/// The bridge sends what is written: over any stages of the packet loop, what
/// picoquic takes, followed by what still waits, is what waited at the start
/// followed by what was written, entry for entry and in order. This holds as
/// long as picoquic refuses nothing but an entry that a time check took and that
/// no other waits behind.
pub proof fn law_stages_send_in_order(s: BridgeView, queue: Seq<Seq<u8>>, stages: Seq<Stage>)
    requires
        s.phase is Idle,
        s.outgoing.len() == 0,
        no_refusals_hurt(s, queue, stages),
    ensures
        taken_over(s, queue, stages) + waiting_after(s, queue, stages) == held(s.peek) + queue
            + written_over(stages),
    decreases stages.len(),
{
    if stages.len() > 0 {
        let stage = stages[0];
        let rest = stages.drop_first();
        let end = one_stage(s, queue, stage);
        lemma_one_stage(s, queue, stage);
        law_stages_send_in_order(end.bridge, end.queue, rest);
        let now = taken(end.added, stage.answers, 0);
        let later = taken_over(end.bridge, end.queue, rest);
        let waiting = waiting_after(end.bridge, end.queue, rest);
        let left = held(end.bridge.peek) + end.queue;
        assert((now + later) + waiting =~= now + (later + waiting));
        assert(now + (left + written_over(rest)) =~= (now + left) + written_over(rest));
        assert((held(s.peek) + (queue + stage.written)) + written_over(rest) =~= held(s.peek)
            + queue + (stage.written + written_over(rest)));
    } else {
        assert(taken_over(s, queue, stages) + waiting_after(s, queue, stages) =~= held(s.peek)
            + queue + written_over(stages));
    }
}

/// The reader is told of the end of the stream by every event that ends it, and
/// only by those; data events deliver exactly the bytes they bring.
pub proof fn law_events_reach_reader(
    s: BridgeView,
    cnx: u64,
    event: picoquic_call_back_event_t,
    data: Seq<u8>,
)
    ensures
        on_event(s, cnx, event, data).1 == StreamStepView::Deliver(Seq::empty()) <==> (event
            is picoquic_callback_stream_fin || event is picoquic_callback_stream_reset || event
            is picoquic_callback_stop_sending || event is picoquic_callback_close || event
            is picoquic_callback_application_close || event is picoquic_callback_stateless_reset),
        on_event(s, cnx, event, data).1 matches StreamStepView::Deliver(bytes) ==> (bytes.len()
            > 0 ==> bytes == data && event is picoquic_callback_stream_data),
        s.disconnected ==> on_event(s, cnx, event, data).0.disconnected,
{
}

/// Whether an event closes the connection.
pub open spec fn closes(event: picoquic_call_back_event_t) -> bool {
    event is picoquic_callback_close || event is picoquic_callback_application_close || event
        is picoquic_callback_stateless_reset
}

/// Whether an event ends the stream for the reader.
pub open spec fn ends(event: picoquic_call_back_event_t) -> bool {
    closes(event) || event is picoquic_callback_stream_fin || event is picoquic_callback_stream_reset
        || event is picoquic_callback_stop_sending
}

/// Every data event with at least one byte is answered by delivering exactly its
/// bytes, every event that ends the stream by delivering the end mark, and a
/// connection that becomes ready by opening a stream on it; nothing else is
/// answered. The connection is that which became ready last, it counts as closed
/// from when an event closes it, and what there is to send is left alone.
pub proof fn law_events_are_answered(
    s: BridgeView,
    cnx: u64,
    event: picoquic_call_back_event_t,
    data: Seq<u8>,
)
    ensures
        ({
            let (next, step) = on_event(s, cnx, event, data);
            &&& event is picoquic_callback_stream_data && data.len() > 0 ==> step
                == StreamStepView::Deliver(data)
            &&& ends(event) ==> step == StreamStepView::Deliver(Seq::empty())
            &&& step is OpenStream <==> event is picoquic_callback_ready
            &&& !(event is picoquic_callback_stream_data && data.len() > 0) && !ends(event) && !(
            event is picoquic_callback_ready) ==> step is Nothing
            &&& next.cnx == if event is picoquic_callback_ready {
                cnx
            } else {
                s.cnx
            }
            &&& next.disconnected == (s.disconnected || closes(event))
            &&& next.stream_id == s.stream_id
            &&& next.peek == s.peek
            &&& next.phase == s.phase
            &&& next.outgoing == s.outgoing
        }),
{
}

/// A stream event.
pub struct Happening {
    pub cnx: u64,
    pub event: picoquic_call_back_event_t,
    pub data: Seq<u8>,
}

/// What the reader is to get of an event, as chunks: the bytes of a data event,
/// if there are any, and an empty chunk where the stream ends.
pub open spec fn arrival(e: Happening) -> Seq<Seq<u8>> {
    if ends(e.event) {
        seq![Seq::empty()]
    } else if e.event is picoquic_callback_stream_data && e.data.len() > 0 {
        seq![e.data]
    } else {
        Seq::empty()
    }
}

/// What the reader is to get of `events`.
pub open spec fn arrivals(events: Seq<Happening>) -> Seq<Seq<u8>>
    decreases events.len(),
{
    if events.len() == 0 {
        Seq::empty()
    } else {
        arrival(events[0]) + arrivals(events.drop_first())
    }
}

/// What a bridge delivers to the reader over `events`.
pub open spec fn deliveries(s: BridgeView, events: Seq<Happening>) -> Seq<Seq<u8>>
    decreases events.len(),
{
    if events.len() == 0 {
        Seq::empty()
    } else {
        let e = events[0];
        let (next, step) = on_event(s, e.cnx, e.event, e.data);
        let now = match step {
            StreamStepView::Deliver(bytes) => seq![bytes],
            _ => Seq::empty(),
        };
        now + deliveries(next, events.drop_first())
    }
}

/// Over any events, the reader gets all the data that arrives, chunk for chunk and
/// in order, with an end mark wherever the stream ends.
pub proof fn law_data_reaches_reader(s: BridgeView, events: Seq<Happening>)
    ensures
        deliveries(s, events) == arrivals(events),
    decreases events.len(),
{
    if events.len() > 0 {
        let e = events[0];
        law_events_are_answered(s, e.cnx, e.event, e.data);
        law_data_reaches_reader(on_event(s, e.cnx, e.event, e.data).0, events.drop_first());
    }
}

/// No stage of the packet loop changes the connection or its stream, and all that
/// a stage queues goes to that stream of that connection, with the end of the
/// stream exactly where no bytes are queued.
pub proof fn law_stages_keep_connection(
    s: BridgeView,
    mode: i32,
    has_arg: bool,
    event: LoopEventView,
)
    ensures
        goes_on_same(s, loop_start(s, mode, has_arg)),
        goes_on_same(s, loop_resume(s, event)),
{
}

/// Whether what follows `s` is on the same connection and stream.
pub open spec fn goes_on_same(s: BridgeView, after: (BridgeView, LoopStep)) -> bool {
    &&& after.0.cnx == s.cnx
    &&& after.0.stream_id == s.stream_id
    &&& after.0.disconnected == s.disconnected
    &&& after.1 matches LoopStep::AddToStream { cnx, stream_id, fin } ==> (cnx == s.cnx && stream_id
        == s.stream_id && (fin <==> after.0.outgoing.len() == 0))
}

/// Time checks are asked for exactly when the loop is about to start and says
/// where. A stage that is no time check and comes after no packets, or comes
/// before the connection is up, is answered with 0 and changes nothing.
pub proof fn law_other_stages(s: BridgeView, mode: i32, has_arg: bool)
    ensures
        ({
            let (next, step) = loop_start(s, mode, has_arg);
            &&& step matches LoopStep::Return { time_check, .. } ==> (time_check <==> mode
                == PICOQUIC_PACKET_LOOP_READY && has_arg)
            &&& mode == PICOQUIC_PACKET_LOOP_READY ==> next == s && step is Return
            &&& (mode != PICOQUIC_PACKET_LOOP_READY && mode != PICOQUIC_PACKET_LOOP_TIME_CHECK
                && mode != PICOQUIC_PACKET_LOOP_AFTER_RECEIVE && mode
                != PICOQUIC_PACKET_LOOP_AFTER_SEND) || !s.connected() || (mode
                == PICOQUIC_PACKET_LOOP_TIME_CHECK && !has_arg) ==> next == s && step is Return
            &&& step matches LoopStep::Return { code, wake_soon, wake, .. } ==> (code == 0 && !wake
                && (wake_soon ==> mode == PICOQUIC_PACKET_LOOP_TIME_CHECK))
        }),
{
}

/// How often a stage wakes the writer, from `step` on.
pub open spec fn stage_wakes(
    s: BridgeView,
    step: LoopStep,
    queue: Seq<Seq<u8>>,
    closed: bool,
    answers: spec_fn(nat) -> i32,
    calls: nat,
) -> nat
    decreases steps_left(step, queue),
{
    match step {
        LoopStep::Return { wake, .. } => if wake {
            1
        } else {
            0
        },
        LoopStep::TryRecv { wake } => {
            let event = if queue.len() > 0 {
                LoopEventView::Received(queue[0])
            } else if closed {
                LoopEventView::Disconnected
            } else {
                LoopEventView::Empty
            };
            let rest = if queue.len() > 0 {
                queue.drop_first()
            } else {
                queue
            };
            let (s1, step1) = loop_resume(s, event);
            let now = if wake {
                1nat
            } else {
                0nat
            };
            if steps_left(step1, rest) < steps_left(step, queue) {
                now + stage_wakes(s1, step1, rest, closed, answers, calls)
            } else {
                now
            }
        },
        LoopStep::AddToStream { .. } => {
            let (s1, step1) = loop_resume(s, LoopEventView::Added(answers(calls)));
            if steps_left(step1, queue) < steps_left(step, queue) {
                stage_wakes(s1, step1, queue, closed, answers, calls + 1)
            } else {
                0
            }
        },
    }
}

/// Whether picoquic refuses the `i`-th entry of `added`, where its answer to the
/// first is the one after `calls` others. The end of the stream is not refused.
pub open spec fn refused(
    added: Seq<Seq<u8>>,
    answers: spec_fn(nat) -> i32,
    calls: nat,
    i: int,
) -> bool {
    answers((calls + i) as nat) != 0 && added[i].len() > 0
}

/// How the part of a drain that follows the first entry comes out.
proof fn lemma_rest_outcome(
    s: BridgeView,
    wake: bool,
    queue: Seq<Seq<u8>>,
    closed: bool,
    answers: spec_fn(nat) -> i32,
    calls: nat,
)
    requires
        s.phase is Draining,
        s.outgoing.len() == 0,
    ensures
        ({
            let step = LoopStep::TryRecv { wake };
            let end = stage_run(s, step, queue, closed, answers, calls);
            let last = end.added.len() - 1;
            let stopped = last >= 0 && refused(end.added, answers, calls, last);
            &&& forall|i: int|
                0 <= i < last ==> !#[trigger] refused(end.added, answers, calls, i)
            &&& !stopped ==> end.queue.len() == 0
            &&& end.answer == (LoopStep::Return {
                code: if closed && !stopped {
                    PICOQUIC_NO_ERROR_TERMINATE_PACKET_LOOP
                } else {
                    0
                },
                time_check: false,
                wake_soon: false,
                wake: !closed || stopped,
            })
            &&& stage_wakes(s, step, queue, closed, answers, calls) == (if wake {
                1nat
            } else {
                0nat
            }) + (if !closed || stopped {
                1nat
            } else {
                0nat
            })
        }),
    decreases queue.len(),
{
    let step = LoopStep::TryRecv { wake };
    let end = stage_run(s, step, queue, closed, answers, calls);
    if queue.len() == 0 {
        let event = if closed {
            LoopEventView::Disconnected
        } else {
            LoopEventView::Empty
        };
        let (s1, step1) = loop_resume(s, event);
        assert(end == stage_run(s1, step1, queue, closed, answers, calls));
        assert(stage_wakes(s1, step1, queue, closed, answers, calls) == if closed {
            0nat
        } else {
            1nat
        });
    } else {
        let data = queue[0];
        let rest = queue.drop_first();
        let (s1, step1) = loop_resume(s, LoopEventView::Received(data));
        let end1 = stage_run(s1, step1, rest, closed, answers, calls);
        assert(end == end1);
        let (s2, step2) = loop_resume(s1, LoopEventView::Added(answers(calls)));
        let end2 = stage_run(s2, step2, rest, closed, answers, calls + 1);
        assert(end1.added == seq![data] + end2.added);
        assert(stage_wakes(s1, step1, rest, closed, answers, calls) == stage_wakes(
            s2,
            step2,
            rest,
            closed,
            answers,
            calls + 1,
        ));
        if step2 is Return {
            assert(end2.added =~= Seq::<Seq<u8>>::empty());
            assert(end.added.len() == 1);
        } else {
            assert(step2 == (LoopStep::TryRecv { wake: false }));
            lemma_rest_outcome(s2, false, rest, closed, answers, calls + 1);
            assert(!refused(end.added, answers, calls, 0));
            assert forall|i: int| 0 <= i < end.added.len() - 1 implies !#[trigger] refused(
                end.added,
                answers,
                calls,
                i,
            ) by {
                if i > 0 {
                    assert(end.added[i] == end2.added[i - 1]);
                    assert(!refused(end2.added, answers, calls + 1, i - 1));
                }
            }
            if end2.added.len() > 0 {
                let last = end.added.len() - 1;
                assert(end.added[last] == end2.added[last - 1]);
                assert(refused(end.added, answers, calls, last) == refused(
                    end2.added,
                    answers,
                    calls + 1,
                    last - 1,
                ));
            }
        }
    }
}

/// How a drain comes out, whatever picoquic answers. It goes on until the send
/// queue is empty or picoquic refuses an entry of it. It ends the packet loop
/// exactly if the writer is gone and it came to the end of the queue. It wakes the
/// writer after the first entry, and at its end unless it ends the packet loop.
/// Only the first entry is held back, if it was refused; the connection and its
/// stream stay.
pub proof fn law_drain_outcome(
    s: BridgeView,
    mode: i32,
    first: Seq<u8>,
    queue: Seq<Seq<u8>>,
    closed: bool,
    answers: spec_fn(nat) -> i32,
)
    requires
        mode == PICOQUIC_PACKET_LOOP_AFTER_RECEIVE || mode == PICOQUIC_PACKET_LOOP_AFTER_SEND,
        s.connected(),
        s.peek == Some(first),
    ensures
        ({
            let (s1, step1) = loop_start(s, mode, true);
            let end = stage_run(s1, step1, queue, closed, answers, 0);
            let last = end.added.len() - 1;
            let stopped = last > 0 && refused(end.added, answers, 0, last);
            &&& last >= 0
            &&& end.added[0] == first
            &&& end.added + end.queue == seq![first] + queue
            &&& forall|i: int| 0 < i < last ==> !#[trigger] refused(end.added, answers, 0, i)
            &&& !stopped ==> end.queue.len() == 0
            &&& end.answer == (LoopStep::Return {
                code: if closed && !stopped {
                    PICOQUIC_NO_ERROR_TERMINATE_PACKET_LOOP
                } else {
                    0
                },
                time_check: false,
                wake_soon: false,
                wake: !closed || stopped,
            })
            &&& stage_wakes(s1, step1, queue, closed, answers, 0) == if closed && !stopped {
                1nat
            } else {
                2nat
            }
            &&& end.bridge.peek == if refused(end.added, answers, 0, 0) {
                Some(first)
            } else {
                None
            }
            &&& end.bridge.cnx == s.cnx
            &&& end.bridge.stream_id == s.stream_id
            &&& end.bridge.disconnected == s.disconnected
            &&& end.bridge.phase is Idle
        }),
{
    lemma_drain(s, mode, first, queue, closed, answers);
    let (s1, step1) = loop_start(s, mode, true);
    let end = stage_run(s1, step1, queue, closed, answers, 0);
    assert(end == drain_stage(s, mode, queue, closed, answers));
    let (s2, step2) = loop_resume(s1, LoopEventView::Added(answers(0)));
    let end2 = stage_run(s2, step2, queue, closed, answers, 1);
    assert(step2 == (LoopStep::TryRecv { wake: true }));
    assert(end.added == seq![first] + end2.added);
    lemma_rest_outcome(s2, true, queue, closed, answers, 1);
    assert(stage_wakes(s1, step1, queue, closed, answers, 0) == stage_wakes(
        s2,
        step2,
        queue,
        closed,
        answers,
        1,
    ));
    assert forall|i: int| 0 < i < end.added.len() - 1 implies !#[trigger] refused(
        end.added,
        answers,
        0,
        i,
    ) by {
        assert(end.added[i] == end2.added[i - 1]);
        assert(!refused(end2.added, answers, 1, i - 1));
    }
    if end2.added.len() > 0 {
        let last = end.added.len() - 1;
        assert(end.added[last] == end2.added[last - 1]);
        assert(refused(end.added, answers, 0, last) == refused(
            end2.added,
            answers,
            1,
            last - 1,
        ));
    }
}

/// A time check wakes no writer.
pub proof fn law_time_check_wakes_nobody(
    s: BridgeView,
    has_arg: bool,
    queue: Seq<Seq<u8>>,
    closed: bool,
    answers: spec_fn(nat) -> i32,
)
    requires
        s.phase is Idle,
    ensures
        ({
            let (s1, step1) = loop_start(s, PICOQUIC_PACKET_LOOP_TIME_CHECK, has_arg);
            stage_wakes(s1, step1, queue, closed, answers, 0) == 0
        }),
{
    let (s1, step1) = loop_start(s, PICOQUIC_PACKET_LOOP_TIME_CHECK, has_arg);
    if step1 is TryRecv {
        let event = if queue.len() > 0 {
            LoopEventView::Received(queue[0])
        } else if closed {
            LoopEventView::Disconnected
        } else {
            LoopEventView::Empty
        };
        let rest = if queue.len() > 0 {
            queue.drop_first()
        } else {
            queue
        };
        let (s2, step2) = loop_resume(s1, event);
        assert(stage_wakes(s2, step2, rest, closed, answers, 0) == 0);
    }
}

/// Once a connection is ready and a stream was opened on it and taken, data can be
/// sent on that stream of that connection, whichever they are; a stream that is
/// not taken changes nothing. (No connection has the handle 0, and no stream the
/// highest number there is.)
pub proof fn law_opened_stream_is_used(
    s: BridgeView,
    cnx: u64,
    data: Seq<u8>,
    stream_id: u64,
    marked: i32,
)
    ensures
        s.connected() <==> s.cnx != 0 && s.stream_id != u64::MAX,
        ({
            let ready = on_event(
                s,
                cnx,
                picoquic_call_back_event_t::picoquic_callback_ready,
                data,
            ).0;
            let (next, answer) = stream_opened(ready, stream_id, marked);
            &&& answer == 0 <==> marked == 0
            &&& marked != 0 ==> next == ready && answer == -1
            &&& marked == 0 ==> next.cnx == cnx && next.stream_id == stream_id && next.peek
                == s.peek && next.phase == s.phase && next.outgoing == s.outgoing
                && next.disconnected == s.disconnected
            &&& marked == 0 && cnx != 0 && stream_id != u64::MAX ==> next.connected()
        }),
{
}

} // verus!

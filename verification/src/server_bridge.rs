//! The server's bridge between QUIC connections and the proxy.
//!
//! Each connection carries one stream, the first on which data comes in. This
//! module holds the table of connections and what the two picoquic callbacks
//! decide on it. The queues of a connection and the calls into picoquic are
//! outside: a decision is a step, and what came of the step is handed back.

use crate::picoquic::picoquic_call_back_event_t;
use crate::picoquic::PICOQUIC_PACKET_LOOP_AFTER_RECEIVE;
use crate::picoquic::PICOQUIC_PACKET_LOOP_AFTER_SEND;
use crate::picoquic::PICOQUIC_PACKET_LOOP_READY;
use crate::picoquic::PICOQUIC_PACKET_LOOP_TIME_CHECK;
use crate::send_half::copy_of;
use std::collections::HashMap;
use vstd::prelude::*;

verus! {

broadcast use vstd::std_specs::hash::group_hash_axioms;

/// The connections, by handle, each with its stream once it has one.
#[derive(Debug)]
pub struct ServerConnections {
    streams: HashMap<u64, Option<u64>>,
}

impl View for ServerConnections {
    type V = Map<u64, Option<u64>>;

    closed spec fn view(&self) -> Map<u64, Option<u64>> {
        self.streams@
    }
}

/// What a stream event calls for.
#[derive(Debug)]
pub enum ServerStep {
    /// Nothing.
    Nothing,
    /// The connection is new, or starts anew: it has no queues.
    Register,
    /// The connection has got its stream: make its queues, hand them to the
    /// proxy, and queue these bytes for the reader if there are any.
    Accept(Vec<u8>),
    /// Queue these bytes for the reader; none marks the end of the stream.
    Deliver(Vec<u8>),
    /// The connection is gone, and its queues with it.
    Forget,
}

/// The model of `ServerStep`.
pub enum ServerStepView {
    Nothing,
    Register,
    Accept(Seq<u8>),
    Deliver(Seq<u8>),
    Forget,
}

impl View for ServerStep {
    type V = ServerStepView;

    open spec fn view(&self) -> ServerStepView {
        match self {
            ServerStep::Nothing => ServerStepView::Nothing,
            ServerStep::Register => ServerStepView::Register,
            ServerStep::Accept(bytes) => ServerStepView::Accept(bytes@),
            ServerStep::Deliver(bytes) => ServerStepView::Deliver(bytes@),
            ServerStep::Forget => ServerStepView::Forget,
        }
    }
}

/// What a stream event calls for, and the table after it.
pub open spec fn on_event(
    table: Map<u64, Option<u64>>,
    cnx: u64,
    stream_id: u64,
    event: picoquic_call_back_event_t,
    data: Seq<u8>,
) -> (Map<u64, Option<u64>>, ServerStepView) {
    match event {
        picoquic_call_back_event_t::picoquic_callback_ready => (
            table.insert(cnx, None),
            ServerStepView::Register,
        ),
        picoquic_call_back_event_t::picoquic_callback_stream_data => if !table.contains_key(cnx) {
            (table, ServerStepView::Nothing)
        } else if table[cnx] is None {
            (table.insert(cnx, Some(stream_id)), ServerStepView::Accept(data))
        } else if table[cnx] == Some(stream_id) && data.len() > 0 {
            (table, ServerStepView::Deliver(data))
        } else {
            (table, ServerStepView::Nothing)
        },
        picoquic_call_back_event_t::picoquic_callback_stream_fin => if table.contains_key(cnx)
            && table[cnx] == Some(stream_id) {
            (table, ServerStepView::Deliver(Seq::empty()))
        } else {
            (table, ServerStepView::Nothing)
        },
        picoquic_call_back_event_t::picoquic_callback_close
        | picoquic_call_back_event_t::picoquic_callback_application_close
        | picoquic_call_back_event_t::picoquic_callback_stateless_reset => (
            table.remove(cnx),
            ServerStepView::Forget,
        ),
        _ => (table, ServerStepView::Nothing),
    }
}

/// A connection that has its stream.
#[derive(Clone, Copy, Debug, PartialEq, Eq, Structural)]
pub struct OpenStream {
    pub cnx: u64,
    pub stream_id: u64,
}

/// Whether `streams` lists the connections of `table` that have a stream, each
/// once.
pub open spec fn lists_streams(table: Map<u64, Option<u64>>, streams: Seq<OpenStream>) -> bool {
    &&& forall|i: int, j: int|
        0 <= i < j < streams.len() ==> (#[trigger] streams[i]).cnx != (#[trigger] streams[j]).cnx
    &&& forall|i: int|
        0 <= i < streams.len() ==> table.contains_key((#[trigger] streams[i]).cnx)
            && table[streams[i].cnx] == Some(streams[i].stream_id)
    &&& forall|cnx: u64, stream_id: u64|
        table.contains_key(cnx) && table[cnx] == Some(stream_id) ==> #[trigger] streams.contains(
            OpenStream { cnx, stream_id },
        )
}

impl ServerConnections {
    /// A table without connections.
    pub fn new() -> (table: ServerConnections)
        ensures
            table@ == Map::<u64, Option<u64>>::empty(),
    {
        ServerConnections { streams: HashMap::new() }
    }

    /// Takes in a stream event of connection `cnx` that came with `data`.
    pub fn on_event(
        &mut self,
        cnx: u64,
        stream_id: u64,
        event: picoquic_call_back_event_t,
        data: &[u8],
    ) -> (step: ServerStep)
        ensures
            (final(self)@, step@) == on_event(old(self)@, cnx, stream_id, event, data@),
    {
        match event {
            picoquic_call_back_event_t::picoquic_callback_ready => {
                self.streams.insert(cnx, None);
                ServerStep::Register
            },
            picoquic_call_back_event_t::picoquic_callback_stream_data => {
                let known: Option<Option<u64>> = match self.streams.get(&cnx) {
                    Some(stream) => Some(*stream),
                    None => None,
                };
                match known {
                    None => ServerStep::Nothing,
                    Some(None) => {
                        self.streams.insert(cnx, Some(stream_id));
                        ServerStep::Accept(copy_of(data))
                    },
                    Some(Some(own)) => {
                        if own == stream_id && data.len() > 0 {
                            ServerStep::Deliver(copy_of(data))
                        } else {
                            ServerStep::Nothing
                        }
                    },
                }
            },
            picoquic_call_back_event_t::picoquic_callback_stream_fin => {
                match self.streams.get(&cnx) {
                    Some(Some(own)) => {
                        if *own == stream_id {
                            ServerStep::Deliver(Vec::new())
                        } else {
                            ServerStep::Nothing
                        }
                    },
                    _ => ServerStep::Nothing,
                }
            },
            picoquic_call_back_event_t::picoquic_callback_close
            | picoquic_call_back_event_t::picoquic_callback_application_close
            | picoquic_call_back_event_t::picoquic_callback_stateless_reset => {
                self.streams.remove(&cnx);
                ServerStep::Forget
            },
            _ => ServerStep::Nothing,
        }
    }

    /// The handles of all connections, each once, in no particular order.
    fn handles(&self) -> (handles: Vec<u64>)
        ensures
            handles@.no_duplicates(),
            handles@.to_set() == self@.dom(),
    {
        let mut handles: Vec<u64> = Vec::new();
        for cnx in keys: self.streams.keys()
            invariant
                keys.seq().no_duplicates(),
                keys.seq().unref().to_set() == self.streams@.dom(),
                handles@.len() == keys.index(),
                forall|i: int| 0 <= i < handles@.len() ==> handles@[i] == *keys.seq()[i],
        {
            handles.push(*cnx);
        }
        proof {
            let keys = vstd::std_specs::hash::spec_keys_iter(&self.streams);
            let seen = vstd::std_specs::iter::IteratorSpec::remaining(&keys);
            assert(handles@ =~= seen.unref());
        }
        handles
    }

    /// The connections that have a stream, each once, in no particular order.
    pub fn open_streams(&self) -> (streams: Vec<OpenStream>)
        ensures
            lists_streams(self@, streams@),
    {
        let handles = self.handles();
        let mut streams: Vec<OpenStream> = Vec::new();
        let mut i: usize = 0;
        while i < handles.len()
            invariant
                i <= handles@.len(),
                handles@.no_duplicates(),
                handles@.to_set() == self@.dom(),
                forall|a: int, b: int|
                    0 <= a < b < streams@.len() ==> (#[trigger] streams@[a]).cnx != (
                    #[trigger] streams@[b]).cnx,
                forall|a: int|
                    0 <= a < streams@.len() ==> self@.contains_key((#[trigger] streams@[a]).cnx)
                        && self@[streams@[a].cnx] == Some(streams@[a].stream_id)
                        && handles@.take(i as int).contains(streams@[a].cnx),
                forall|k: int|
                    0 <= k < i && self@[#[trigger] handles@[k]] is Some ==> streams@.contains(
                        OpenStream { cnx: handles@[k], stream_id: self@[handles@[k]]->0 },
                    ),
            decreases handles@.len() - i,
        {
            let cnx: u64 = handles[i];
            let ghost before = streams@;
            proof {
                assert(handles@.to_set().contains(cnx));
                assert forall|a: int| 0 <= a < before.len() implies (#[trigger] before[a]).cnx
                    != cnx && handles@.take(i + 1).contains(before[a].cnx) by {
                    let seen = handles@.take(i as int);
                    let k = seen.index_of(before[a].cnx);
                    assert(handles@[k] == before[a].cnx);
                    assert(handles@.take(i + 1)[k] == before[a].cnx);
                }
                assert(handles@.take(i + 1)[i as int] == cnx);
            }
            if let Some(Some(stream_id)) = self.streams.get(&cnx) {
                streams.push(OpenStream { cnx, stream_id: *stream_id });
                proof {
                    assert(streams@.last() == OpenStream { cnx, stream_id: *stream_id });
                    assert forall|k: int|
                        0 <= k < i && self@[#[trigger] handles@[k]] is Some implies streams@.contains(
                        OpenStream { cnx: handles@[k], stream_id: self@[handles@[k]]->0 },
                    ) by {
                        let open = OpenStream { cnx: handles@[k], stream_id: self@[handles@[k]]->0 };
                        assert(streams@[before.index_of(open)] == open);
                    }
                }
            }
            i = i + 1;
        }
        proof {
            assert forall|cnx: u64, stream_id: u64|
                self@.contains_key(cnx) && self@[cnx] == Some(
                    stream_id,
                ) implies #[trigger] streams@.contains(OpenStream { cnx, stream_id }) by {
                assert(handles@.to_set().contains(cnx));
                let k = handles@.index_of(cnx);
                assert(self@[handles@[k]] is Some);
            }
        }
        streams
    }
}

/// What a stage of the packet loop calls for.
#[derive(Debug)]
pub enum ServerStage {
    /// Answer 0. If `time_check`, ask for time checks first; if `wake_soon`,
    /// have the loop sleep but shortly.
    Answer { time_check: bool, wake_soon: bool },
    /// Send what the connections have queued, then answer 0.
    Drain(ServerDrain),
}

/// What a drain calls for next.
#[derive(Clone, Copy, Debug, PartialEq, Eq, Structural)]
pub enum DrainStep {
    /// Take the next entry off the send queue of `cnx`, without waiting. If
    /// `wake`, wake its writer first.
    TryRecv { cnx: u64, wake: bool },
    /// Queue the outgoing bytes on the stream; with `fin`, end the stream.
    AddToStream { cnx: u64, stream_id: u64, fin: bool },
    /// Every send queue was drained.
    Done,
}

/// What came of a step of a drain.
#[derive(Debug)]
pub enum DrainEvent {
    /// The drain begins.
    Begin,
    /// The send queue gave an entry.
    Received(Vec<u8>),
    /// The send queue is empty, or its writer is gone.
    NoMore,
    /// The bytes were queued on the stream, or refused.
    Added,
}

/// The model of `DrainEvent`.
pub enum DrainEventView {
    Begin,
    Received(Seq<u8>),
    NoMore,
    Added,
}

impl View for DrainEvent {
    type V = DrainEventView;

    open spec fn view(&self) -> DrainEventView {
        match self {
            DrainEvent::Begin => DrainEventView::Begin,
            DrainEvent::Received(data) => DrainEventView::Received(data@),
            DrainEvent::NoMore => DrainEventView::NoMore,
            DrainEvent::Added => DrainEventView::Added,
        }
    }
}

/// A drain of the send queues of all connections that have a stream.
#[derive(Debug)]
pub struct ServerDrain {
    streams: Vec<OpenStream>,
    next: usize,
    outgoing: Vec<u8>,
}

/// The model of a drain.
#[verifier::ext_equal]
pub struct DrainView {
    /// The connections not drained yet; the first is under way.
    pub streams: Seq<OpenStream>,
    /// The bytes being queued on the stream of the first.
    pub outgoing: Seq<u8>,
}

impl View for ServerDrain {
    type V = DrainView;

    closed spec fn view(&self) -> DrainView {
        DrainView { streams: self.streams@.skip(self.next as int), outgoing: self.outgoing@ }
    }
}

/// The step with which the connections `streams` begin to be drained.
pub open spec fn first_step(streams: Seq<OpenStream>, wake: bool) -> DrainStep {
    if streams.len() > 0 {
        DrainStep::TryRecv { cnx: streams[0].cnx, wake }
    } else {
        DrainStep::Done
    }
}

/// How a drain goes on after `event`.
pub open spec fn drain_step(d: DrainView, event: DrainEventView) -> (DrainView, DrainStep) {
    match event {
        DrainEventView::Begin => (d, first_step(d.streams, false)),
        DrainEventView::Received(data) => if d.streams.len() > 0 {
            (
                DrainView { outgoing: data, ..d },
                DrainStep::AddToStream {
                    cnx: d.streams[0].cnx,
                    stream_id: d.streams[0].stream_id,
                    fin: data.len() == 0,
                },
            )
        } else {
            (d, DrainStep::Done)
        },
        DrainEventView::NoMore => if d.streams.len() > 0 {
            (
                DrainView { streams: d.streams.drop_first(), ..d },
                first_step(d.streams.drop_first(), false),
            )
        } else {
            (d, DrainStep::Done)
        },
        DrainEventView::Added => (
            DrainView { outgoing: Seq::empty(), ..d },
            first_step(d.streams, true),
        ),
    }
}

impl ServerDrain {
    /// A drain of the connections `streams`.
    pub fn new(streams: Vec<OpenStream>) -> (drain: ServerDrain)
        ensures
            drain@ == (DrainView { streams: streams@, outgoing: Seq::empty() }),
    {
        let drain = ServerDrain { streams, next: 0, outgoing: Vec::new() };
        assert(drain@.streams =~= streams@);
        assert(drain@.outgoing =~= Seq::<u8>::empty());
        drain
    }

    /// The drain does not point behind the end of its list.
    #[verifier::type_invariant]
    spec fn points_into_list(&self) -> bool {
        self.next <= self.streams@.len()
    }

    /// The bytes being queued on the stream.
    pub fn outgoing(&self) -> (bytes: &Vec<u8>)
        ensures
            bytes@ == self@.outgoing,
    {
        &self.outgoing
    }

    /// The step with which the first connection that is left goes on.
    fn first_step(&self, wake: bool) -> (step: DrainStep)
        ensures
            step == first_step(self@.streams, wake),
    {
        proof {
            use_type_invariant(self);
        }
        if self.next < self.streams.len() {
            DrainStep::TryRecv { cnx: self.streams[self.next].cnx, wake }
        } else {
            DrainStep::Done
        }
    }

    /// Goes on with the drain.
    pub fn step(&mut self, event: DrainEvent) -> (step: DrainStep)
        ensures
            (final(self)@, step) == drain_step(old(self)@, event@),
    {
        proof {
            use_type_invariant(&*self);
        }
        match event {
            DrainEvent::Begin => self.first_step(false),
            DrainEvent::Received(data) => {
                if self.next < self.streams.len() {
                    let open = self.streams[self.next];
                    let fin = data.len() == 0;
                    self.outgoing = data;
                    DrainStep::AddToStream { cnx: open.cnx, stream_id: open.stream_id, fin }
                } else {
                    DrainStep::Done
                }
            },
            DrainEvent::NoMore => {
                if self.next < self.streams.len() {
                    self.next = self.next + 1;
                    assert(self@.streams =~= old(self)@.streams.drop_first());
                }
                self.first_step(false)
            },
            DrainEvent::Added => {
                self.outgoing = Vec::new();
                assert(self@.outgoing =~= Seq::<u8>::empty());
                self.first_step(true)
            },
        }
    }
}

/// What a stage of the packet loop that sends nothing asks of the loop: time
/// checks, and to sleep but shortly.
pub open spec fn asks_of_loop(mode: i32, has_arg: bool) -> (bool, bool) {
    (
        mode == PICOQUIC_PACKET_LOOP_READY && has_arg,
        mode == PICOQUIC_PACKET_LOOP_TIME_CHECK && has_arg,
    )
}

/// Whether a stage of the packet loop sends what is queued.
pub open spec fn sends(mode: i32) -> bool {
    mode == PICOQUIC_PACKET_LOOP_AFTER_RECEIVE || mode == PICOQUIC_PACKET_LOOP_AFTER_SEND
}

impl ServerConnections {
    /// Begins a stage of the packet loop. `has_arg`: the loop passed the
    /// argument that goes with the stage.
    pub fn loop_start(&self, mode: i32, has_arg: bool) -> (stage: ServerStage)
        ensures
            (mode == PICOQUIC_PACKET_LOOP_AFTER_RECEIVE || mode == PICOQUIC_PACKET_LOOP_AFTER_SEND)
                ==> (stage matches ServerStage::Drain(drain) && lists_streams(
                self@,
                drain@.streams,
            ) && drain@.outgoing.len() == 0),
            !(mode == PICOQUIC_PACKET_LOOP_AFTER_RECEIVE || mode
                == PICOQUIC_PACKET_LOOP_AFTER_SEND) ==> stage == (ServerStage::Answer {
                time_check: mode == PICOQUIC_PACKET_LOOP_READY && has_arg,
                wake_soon: mode == PICOQUIC_PACKET_LOOP_TIME_CHECK && has_arg,
            }),
            stage is Drain <==> sends(mode),
            stage matches ServerStage::Answer { time_check, wake_soon } ==> (time_check, wake_soon)
                == asks_of_loop(mode, has_arg),
    {
        if mode == PICOQUIC_PACKET_LOOP_AFTER_RECEIVE || mode == PICOQUIC_PACKET_LOOP_AFTER_SEND {
            ServerStage::Drain(ServerDrain::new(self.open_streams()))
        } else {
            ServerStage::Answer {
                time_check: mode == PICOQUIC_PACKET_LOOP_READY && has_arg,
                wake_soon: mode == PICOQUIC_PACKET_LOOP_TIME_CHECK && has_arg,
            }
        }
    }
}

/// Bytes queued on a stream.
pub struct Sent {
    pub cnx: u64,
    pub stream_id: u64,
    pub data: Seq<u8>,
}

/// The entries of one send queue as they are queued on its stream.
pub open spec fn sent_on(open: OpenStream, queue: Seq<Seq<u8>>) -> Seq<Sent> {
    queue.map_values(
        |data: Seq<u8>| Sent { cnx: open.cnx, stream_id: open.stream_id, data },
    )
}

/// All send queues of `streams`, one after the other, as they are queued on
/// their streams.
pub open spec fn sent_on_all(streams: Seq<OpenStream>, queues: Map<u64, Seq<Seq<u8>>>) -> Seq<Sent>
    decreases streams.len(),
{
    if streams.len() == 0 {
        Seq::empty()
    } else {
        sent_on(streams[0], queues[streams[0].cnx]) + sent_on_all(streams.drop_first(), queues)
    }
}

/// A drain run to its end: what was queued on streams, and the send queues.
#[verifier::ext_equal]
pub struct DrainEnd {
    pub sent: Seq<Sent>,
    pub queues: Map<u64, Seq<Seq<u8>>>,
}

/// Runs a drain from the step that asks for the next entry, against the send
/// queues `queues`.
pub open spec fn drain_run(d: DrainView, queues: Map<u64, Seq<Seq<u8>>>) -> DrainEnd
    decreases
            d.streams.len(),
            if d.streams.len() > 0 {
                queues[d.streams[0].cnx].len()
            } else {
                0
            },
{
    if d.streams.len() == 0 {
        DrainEnd { sent: Seq::empty(), queues }
    } else {
        let open = d.streams[0];
        let queue = queues[open.cnx];
        if queue.len() == 0 {
            drain_run(drain_step(d, DrainEventView::NoMore).0, queues)
        } else {
            let (adding, step) = drain_step(d, DrainEventView::Received(queue[0]));
            let later = drain_run(
                drain_step(adding, DrainEventView::Added).0,
                queues.insert(open.cnx, queue.drop_first()),
            );
            match step {
                DrainStep::AddToStream { cnx, stream_id, .. } => DrainEnd {
                    sent: seq![Sent { cnx, stream_id, data: adding.outgoing }] + later.sent,
                    ..later
                },
                _ => later,
            }
        }
    }
}

/// A drain empties the send queue of every connection that has a stream: all
/// entries are queued on the stream of their connection in their order. No
/// other send queue is touched.
pub proof fn law_drain_sends_all(
    table: Map<u64, Option<u64>>,
    streams: Seq<OpenStream>,
    queues: Map<u64, Seq<Seq<u8>>>,
)
    requires
        lists_streams(table, streams),
        forall|cnx: u64| #[trigger] table.contains_key(cnx) ==> queues.contains_key(cnx),
    ensures
        ({
            let end = drain_run(DrainView { streams, outgoing: Seq::empty() }, queues);
            &&& end.sent == sent_on_all(streams, queues)
            &&& end.queues.dom() == queues.dom()
            &&& forall|cnx: u64| #[trigger]
                end.queues.contains_key(cnx) ==> end.queues[cnx] == if table.contains_key(cnx)
                    && table[cnx] is Some {
                    Seq::empty()
                } else {
                    queues[cnx]
                }
        }),
{
    let d = DrainView { streams, outgoing: Seq::empty() };
    lemma_drain(d, queues);
    let end = drain_run(d, queues);
    assert forall|cnx: u64| #[trigger] end.queues.contains_key(cnx) implies end.queues[cnx]
        == if table.contains_key(cnx) && table[cnx] is Some {
        Seq::empty()
    } else {
        queues[cnx]
    } by {
        if table.contains_key(cnx) && table[cnx] is Some {
            let open = OpenStream { cnx, stream_id: table[cnx]->0 };
            assert(streams.contains(open));
            let i = streams.index_of(open);
            assert(streams[i].cnx == cnx);
        } else {
            assert(!lists(streams, cnx));
        }
    }
}

/// Whether connection `cnx` is one of `streams`.
spec fn lists(streams: Seq<OpenStream>, cnx: u64) -> bool {
    exists|i: int| 0 <= i < streams.len() && (#[trigger] streams[i]).cnx == cnx
}

/// What a drain does to the queues of the connections it lists, and what it
/// sends.
proof fn lemma_drain(d: DrainView, queues: Map<u64, Seq<Seq<u8>>>)
    requires
        d.outgoing == Seq::<u8>::empty(),
        forall|i: int, j: int|
            0 <= i < j < d.streams.len() ==> (#[trigger] d.streams[i]).cnx != (
            #[trigger] d.streams[j]).cnx,
        forall|i: int|
            0 <= i < d.streams.len() ==> queues.contains_key((#[trigger] d.streams[i]).cnx),
    ensures
        ({
            let end = drain_run(d, queues);
            &&& end.sent == sent_on_all(d.streams, queues)
            &&& end.queues.dom() == queues.dom()
            &&& forall|cnx: u64| #[trigger]
                end.queues.contains_key(cnx) ==> end.queues[cnx] == if lists(d.streams, cnx) {
                    Seq::empty()
                } else {
                    queues[cnx]
                }
        }),
    decreases
            d.streams.len(),
            if d.streams.len() > 0 {
                queues[d.streams[0].cnx].len()
            } else {
                0
            },
{
    let end = drain_run(d, queues);
    if d.streams.len() > 0 {
        let open = d.streams[0];
        let queue = queues[open.cnx];
        let rest = d.streams.drop_first();
        if queue.len() == 0 {
            let d1 = drain_step(d, DrainEventView::NoMore).0;
            assert(d1.streams == rest);
            assert forall|i: int, j: int| 0 <= i < j < rest.len() implies (#[trigger] rest[i]).cnx
                != (#[trigger] rest[j]).cnx by {
                assert(d.streams[i + 1].cnx != d.streams[j + 1].cnx);
            }
            assert forall|i: int| 0 <= i < rest.len() implies queues.contains_key(
                (#[trigger] rest[i]).cnx,
            ) by {
                assert(rest[i] == d.streams[i + 1]);
            }
            lemma_drain(d1, queues);
            assert(sent_on(open, queue) =~= Seq::<Sent>::empty());
            assert(sent_on_all(d.streams, queues) =~= sent_on_all(rest, queues));
            assert forall|cnx: u64| #[trigger] end.queues.contains_key(cnx) implies end.queues[cnx]
                == if lists(d.streams, cnx) {
                Seq::empty()
            } else {
                queues[cnx]
            } by {
                if lists(d.streams, cnx) && cnx != open.cnx {
                    let i = choose|i: int|
                        0 <= i < d.streams.len() && (#[trigger] d.streams[i]).cnx == cnx;
                    assert(rest[i - 1].cnx == cnx);
                    assert(lists(rest, cnx));
                }
                if lists(rest, cnx) {
                    let i = choose|i: int| 0 <= i < rest.len() && (#[trigger] rest[i]).cnx == cnx;
                    assert(d.streams[i + 1].cnx == cnx);
                    assert(lists(d.streams, cnx));
                }
                if cnx == open.cnx {
                    assert(d.streams[0].cnx == cnx);
                    assert(queue =~= Seq::<Seq<u8>>::empty());
                }
            }
        } else {
            let adding = drain_step(d, DrainEventView::Received(queue[0])).0;
            let d1 = drain_step(adding, DrainEventView::Added).0;
            let queues1 = queues.insert(open.cnx, queue.drop_first());
            assert(d1 =~= d);
            lemma_drain(d1, queues1);
            let later = drain_run(d1, queues1);
            let one = Sent { cnx: open.cnx, stream_id: open.stream_id, data: queue[0] };
            assert(end.sent == seq![one] + later.sent);
            lemma_unlisted_queue(rest, open.cnx, queues, queue.drop_first());
            assert(sent_on(open, queue) =~= seq![one] + sent_on(open, queue.drop_first()));
            assert(end.sent =~= sent_on_all(d.streams, queues));
            assert(queues1.dom() =~= queues.dom());
            assert forall|cnx: u64| #[trigger] end.queues.contains_key(cnx) implies end.queues[cnx]
                == if lists(d.streams, cnx) {
                Seq::empty()
            } else {
                queues[cnx]
            } by {
                if cnx == open.cnx {
                    assert(d.streams[0].cnx == cnx);
                    assert(lists(d.streams, cnx));
                }
            }
        }
    }
}

/// The queue of a connection that is not listed has no part in what is sent.
proof fn lemma_unlisted_queue(
    streams: Seq<OpenStream>,
    cnx: u64,
    queues: Map<u64, Seq<Seq<u8>>>,
    queue: Seq<Seq<u8>>,
)
    requires
        forall|i: int| 0 <= i < streams.len() ==> (#[trigger] streams[i]).cnx != cnx,
    ensures
        sent_on_all(streams, queues.insert(cnx, queue)) == sent_on_all(streams, queues),
    decreases streams.len(),
{
    if streams.len() > 0 {
        let rest = streams.drop_first();
        assert forall|i: int| 0 <= i < rest.len() implies (#[trigger] rest[i]).cnx != cnx by {
            assert(rest[i] == streams[i + 1]);
        }
        lemma_unlisted_queue(rest, cnx, queues, queue);
        assert(streams[0].cnx != cnx);
    }
}

/// Connection `cnx` gets what was queued for it and nothing else: of all that a
/// drain queues on streams, what goes to `cnx` is the send queue of `cnx`, entry
/// for entry and in order, on its own stream.
pub proof fn law_drain_keeps_order(
    table: Map<u64, Option<u64>>,
    streams: Seq<OpenStream>,
    queues: Map<u64, Seq<Seq<u8>>>,
    cnx: u64,
    stream_id: u64,
)
    requires
        lists_streams(table, streams),
        forall|c: u64| #[trigger] table.contains_key(c) ==> queues.contains_key(c),
        table.contains_key(cnx),
        table[cnx] == Some(stream_id),
    ensures
        drain_run(DrainView { streams, outgoing: Seq::empty() }, queues).sent.filter(
            |sent: Sent| sent.cnx == cnx,
        ) == sent_on(OpenStream { cnx, stream_id }, queues[cnx]),
{
    let open = OpenStream { cnx, stream_id };
    law_drain_sends_all(table, streams, queues);
    assert(streams.contains(open));
    lemma_sent_to_one(streams, queues, streams.index_of(open));
}

/// Of what is sent for a list of connections, what goes to the i-th.
proof fn lemma_sent_to_one(streams: Seq<OpenStream>, queues: Map<u64, Seq<Seq<u8>>>, i: int)
    requires
        0 <= i < streams.len(),
        forall|a: int, b: int|
            0 <= a < b < streams.len() ==> (#[trigger] streams[a]).cnx != (#[trigger] streams[b]).cnx,
    ensures
        sent_on_all(streams, queues).filter(|sent: Sent| sent.cnx == streams[i].cnx) == sent_on(
            streams[i],
            queues[streams[i].cnx],
        ),
    decreases streams.len(),
{
    let cnx = streams[i].cnx;
    let to_one = |sent: Sent| sent.cnx == cnx;
    let first = sent_on(streams[0], queues[streams[0].cnx]);
    let rest = streams.drop_first();
    assert forall|a: int, b: int| 0 <= a < b < rest.len() implies (#[trigger] rest[a]).cnx != (
    #[trigger] rest[b]).cnx by {
        assert(streams[a + 1].cnx != streams[b + 1].cnx);
    }
    Seq::filter_distributes_over_add(first, sent_on_all(rest, queues), to_one);
    if i == 0 {
        lemma_filter_all(first, to_one);
        lemma_sent_to_others(rest, queues, cnx);
        assert(first + Seq::<Sent>::empty() =~= first);
    } else {
        lemma_filter_none(first, to_one);
        assert(rest[i - 1] == streams[i]);
        lemma_sent_to_one(rest, queues, i - 1);
        assert(Seq::<Sent>::empty() + sent_on(streams[i], queues[cnx]) =~= sent_on(
            streams[i],
            queues[cnx],
        ));
    }
}

/// Nothing goes to a connection that is not listed.
proof fn lemma_sent_to_others(streams: Seq<OpenStream>, queues: Map<u64, Seq<Seq<u8>>>, cnx: u64)
    requires
        forall|a: int| 0 <= a < streams.len() ==> (#[trigger] streams[a]).cnx != cnx,
    ensures
        sent_on_all(streams, queues).filter(|sent: Sent| sent.cnx == cnx) == Seq::<Sent>::empty(),
    decreases streams.len(),
{
    let to_one = |sent: Sent| sent.cnx == cnx;
    if streams.len() == 0 {
        lemma_filter_none(sent_on_all(streams, queues), to_one);
    } else {
        let first = sent_on(streams[0], queues[streams[0].cnx]);
        let rest = streams.drop_first();
        assert forall|a: int| 0 <= a < rest.len() implies (#[trigger] rest[a]).cnx != cnx by {
            assert(rest[a] == streams[a + 1]);
        }
        assert(streams[0].cnx != cnx);
        Seq::filter_distributes_over_add(first, sent_on_all(rest, queues), to_one);
        lemma_filter_none(first, to_one);
        lemma_sent_to_others(rest, queues, cnx);
        assert(Seq::<Sent>::empty() + Seq::<Sent>::empty() =~= Seq::<Sent>::empty());
    }
}

proof fn lemma_filter_all(all: Seq<Sent>, p: spec_fn(Sent) -> bool)
    requires
        forall|i: int| 0 <= i < all.len() ==> p(#[trigger] all[i]),
    ensures
        all.filter(p) == all,
    decreases all.len(),
{
    reveal(Seq::filter);
    if all.len() > 0 {
        assert forall|i: int| 0 <= i < all.drop_last().len() implies p(
            #[trigger] all.drop_last()[i],
        ) by {
            assert(all.drop_last()[i] == all[i]);
        }
        lemma_filter_all(all.drop_last(), p);
        assert(all.drop_last().push(all.last()) =~= all);
    } else {
        assert(all.filter(p) =~= all);
    }
}

proof fn lemma_filter_none(all: Seq<Sent>, p: spec_fn(Sent) -> bool)
    requires
        forall|i: int| 0 <= i < all.len() ==> !p(#[trigger] all[i]),
    ensures
        all.filter(p) == Seq::<Sent>::empty(),
    decreases all.len(),
{
    reveal(Seq::filter);
    if all.len() > 0 {
        assert forall|i: int| 0 <= i < all.drop_last().len() implies !p(
            #[trigger] all.drop_last()[i],
        ) by {
            assert(all.drop_last()[i] == all[i]);
        }
        lemma_filter_none(all.drop_last(), p);
    } else {
        assert(all.filter(p) =~= Seq::<Sent>::empty());
    }
}

/// A connection keeps the stream it got: from then on, and until it is closed
/// or starts anew, no event changes it, and data and end of other streams of
/// the connection reach no reader.
pub proof fn law_one_stream_per_connection(
    table: Map<u64, Option<u64>>,
    cnx: u64,
    own: u64,
    stream_id: u64,
    event: picoquic_call_back_event_t,
    data: Seq<u8>,
)
    requires
        table.contains_key(cnx),
        table[cnx] == Some(own),
        !starts_or_ends(event),
    ensures
        on_event(table, cnx, stream_id, event, data).0 == table,
        !(on_event(table, cnx, stream_id, event, data).1 is Accept),
        stream_id != own ==> on_event(table, cnx, stream_id, event, data).1
            == ServerStepView::Nothing,
{
}

/// A stream event, of some connection.
pub struct Happening {
    pub cnx: u64,
    pub stream_id: u64,
    pub event: picoquic_call_back_event_t,
    pub data: Seq<u8>,
}

/// Whether an event makes a connection start anew or ends it.
pub open spec fn starts_or_ends(event: picoquic_call_back_event_t) -> bool {
    event is picoquic_callback_ready || event is picoquic_callback_close || event
        is picoquic_callback_application_close || event is picoquic_callback_stateless_reset
}

/// How often `events` hand queues of connection `cnx` to the proxy.
pub open spec fn accepts(table: Map<u64, Option<u64>>, events: Seq<Happening>, cnx: u64) -> nat
    decreases events.len(),
{
    if events.len() == 0 {
        0
    } else {
        let e = events[0];
        let (next, step) = on_event(table, e.cnx, e.stream_id, e.event, e.data);
        accepts(next, events.drop_first(), cnx) + if e.cnx == cnx && step is Accept {
            1nat
        } else {
            0nat
        }
    }
}

/// Whether data comes in on connection `cnx` in `events`.
pub open spec fn has_data(events: Seq<Happening>, cnx: u64) -> bool {
    exists|i: int|
        0 <= i < events.len() && (#[trigger] events[i]).cnx == cnx && events[i].event
            is picoquic_callback_stream_data
}

/// From when a connection is ready until it ends or starts anew, its queues are
/// handed to the proxy once if data comes in on it, and else not at all; those of
/// a connection that is not ready, or has its stream, are not handed over.
pub proof fn law_one_accept_per_connection(
    table: Map<u64, Option<u64>>,
    events: Seq<Happening>,
    cnx: u64,
)
    requires
        forall|i: int|
            0 <= i < events.len() && (#[trigger] events[i]).cnx == cnx ==> !starts_or_ends(
                events[i].event,
            ),
    ensures
        accepts(table, events, cnx) == if table.contains_key(cnx) && table[cnx] is None && has_data(
            events,
            cnx,
        ) {
            1nat
        } else {
            0nat
        },
    decreases events.len(),
{
    if events.len() > 0 {
        let e = events[0];
        let rest = events.drop_first();
        let (next, step) = on_event(table, e.cnx, e.stream_id, e.event, e.data);
        assert forall|i: int| 0 <= i < rest.len() && (#[trigger] rest[i]).cnx
            == cnx implies !starts_or_ends(rest[i].event) by {
            assert(rest[i] == events[i + 1]);
        }
        law_one_accept_per_connection(next, rest, cnx);
        if e.cnx != cnx {
            law_connections_are_separate(table, e.cnx, cnx, e.stream_id, e.event, e.data);
        }
        if has_data(rest, cnx) {
            let i = choose|i: int|
                0 <= i < rest.len() && (#[trigger] rest[i]).cnx == cnx && rest[i].event
                    is picoquic_callback_stream_data;
            assert(events[i + 1] == rest[i]);
        }
        if has_data(events, cnx) && !(e.cnx == cnx && e.event is picoquic_callback_stream_data) {
            let i = choose|i: int|
                0 <= i < events.len() && (#[trigger] events[i]).cnx == cnx && events[i].event
                    is picoquic_callback_stream_data;
            assert(rest[i - 1] == events[i]);
        }
    }
}

/// An event of one connection leaves all others alone, and an unknown
/// connection can only be made known by becoming ready.
pub proof fn law_connections_are_separate(
    table: Map<u64, Option<u64>>,
    cnx: u64,
    other: u64,
    stream_id: u64,
    event: picoquic_call_back_event_t,
    data: Seq<u8>,
)
    requires
        other != cnx,
    ensures
        on_event(table, cnx, stream_id, event, data).0.contains_key(other) <==> table.contains_key(
            other,
        ),
        table.contains_key(other) ==> on_event(table, cnx, stream_id, event, data).0[other]
            == table[other],
        !table.contains_key(cnx) && !(event is picoquic_callback_ready) ==> !on_event(
            table,
            cnx,
            stream_id,
            event,
            data,
        ).0.contains_key(cnx),
{
}

/// The loop is asked for time checks exactly when it is about to start, and to
/// wake soon exactly at a time check, where it says where to put that. What is
/// queued is sent after packets were received and after packets were sent.
pub proof fn law_stages(mode: i32, has_arg: bool)
    ensures
        sends(mode) <==> mode == 2 || mode == 3,
        asks_of_loop(mode, has_arg).0 <==> mode == 0 && has_arg,
        asks_of_loop(mode, has_arg).1 <==> mode == 5 && has_arg,
{
}

/// A drain is given every connection that has a stream, once and with that stream,
/// and no other.
pub proof fn law_every_stream_is_listed(
    table: Map<u64, Option<u64>>,
    streams: Seq<OpenStream>,
    cnx: u64,
    stream_id: u64,
)
    requires
        lists_streams(table, streams),
    ensures
        streams.contains(OpenStream { cnx, stream_id }) <==> table.contains_key(cnx) && table[cnx]
            == Some(stream_id),
        streams.no_duplicates(),
{
    assert forall|i: int, j: int| 0 <= i < streams.len() && 0 <= j < streams.len() && i
        != j implies streams[i] != streams[j] by {
        if i < j {
            assert(streams[i].cnx != streams[j].cnx);
        } else {
            assert(streams[j].cnx != streams[i].cnx);
        }
    }
    if streams.contains(OpenStream { cnx, stream_id }) {
        let i = streams.index_of(OpenStream { cnx, stream_id });
        assert(table.contains_key(streams[i].cnx));
    }
}

/// Bytes queued on a stream, with the end of the stream if `fin`.
pub struct Queued {
    pub cnx: u64,
    pub stream_id: u64,
    pub data: Seq<u8>,
    pub fin: bool,
}

/// A drain as it was run: what was queued on streams, whose writers were woken,
/// the send queues at its end, and its last step.
#[verifier::ext_equal]
pub struct DrainLog {
    pub queued: Seq<Queued>,
    pub woken: Seq<u64>,
    pub queues: Map<u64, Seq<Seq<u8>>>,
    pub step: DrainStep,
}

/// How many steps the connections `streams` take at most.
pub open spec fn work(streams: Seq<OpenStream>, queues: Map<u64, Seq<Seq<u8>>>) -> nat
    decreases streams.len(),
{
    if streams.len() == 0 {
        0
    } else {
        2 * queues[streams[0].cnx].len() + 1 + work(streams.drop_first(), queues)
    }
}

/// How many steps are left at most.
pub open spec fn work_left(d: DrainView, step: DrainStep, queues: Map<u64, Seq<Seq<u8>>>) -> nat {
    match step {
        DrainStep::TryRecv { .. } => work(d.streams, queues),
        DrainStep::AddToStream { .. } => work(d.streams, queues) + 1,
        DrainStep::Done => 0,
    }
}

/// Runs a drain by the steps that it returns, from `step` on: a step that asks for
/// an entry gets the next one of the send queue it names, and the drain stops
/// where it says that it is done.
pub open spec fn drain_by_steps(
    d: DrainView,
    step: DrainStep,
    queues: Map<u64, Seq<Seq<u8>>>,
) -> DrainLog
    decreases work_left(d, step, queues),
{
    match step {
        DrainStep::Done => DrainLog {
            queued: Seq::empty(),
            woken: Seq::empty(),
            queues,
            step,
        },
        DrainStep::TryRecv { cnx, wake } => {
            let queue = queues[cnx];
            let (event, left) = if queue.len() > 0 {
                (DrainEventView::Received(queue[0]), queues.insert(cnx, queue.drop_first()))
            } else {
                (DrainEventView::NoMore, queues)
            };
            let woken = if wake {
                seq![cnx]
            } else {
                Seq::empty()
            };
            let (next, step1) = drain_step(d, event);
            if work_left(next, step1, left) < work_left(d, step, queues) {
                let later = drain_by_steps(next, step1, left);
                DrainLog { woken: woken + later.woken, ..later }
            } else {
                DrainLog { queued: Seq::empty(), woken, queues: left, step: step1 }
            }
        },
        DrainStep::AddToStream { cnx, stream_id, fin } => {
            let now = Queued { cnx, stream_id, data: d.outgoing, fin };
            let (next, step1) = drain_step(d, DrainEventView::Added);
            if work_left(next, step1, queues) < work_left(d, step, queues) {
                let later = drain_by_steps(next, step1, queues);
                DrainLog { queued: seq![now] + later.queued, ..later }
            } else {
                DrainLog { queued: seq![now], woken: Seq::empty(), queues, step: step1 }
            }
        },
    }
}

/// A drain from its beginning.
pub open spec fn whole_drain(
    streams: Seq<OpenStream>,
    queues: Map<u64, Seq<Seq<u8>>>,
) -> DrainLog {
    let (d, step) = drain_step(
        DrainView { streams, outgoing: Seq::empty() },
        DrainEventView::Begin,
    );
    drain_by_steps(d, step, queues)
}

/// What was sent, with the end of the stream exactly where there are no bytes.
pub open spec fn with_fin(sent: Seq<Sent>) -> Seq<Queued> {
    sent.map_values(
        |one: Sent|
            Queued {
                cnx: one.cnx,
                stream_id: one.stream_id,
                data: one.data,
                fin: one.data.len() == 0,
            },
    )
}

/// The connections that something was sent on, once for each time.
pub open spec fn sent_to(sent: Seq<Sent>) -> Seq<u64> {
    sent.map_values(|one: Sent| one.cnx)
}

/// The queue of a connection that is not listed is no work.
proof fn lemma_unlisted_work(
    streams: Seq<OpenStream>,
    cnx: u64,
    queues: Map<u64, Seq<Seq<u8>>>,
    queue: Seq<Seq<u8>>,
)
    requires
        forall|i: int| 0 <= i < streams.len() ==> (#[trigger] streams[i]).cnx != cnx,
    ensures
        work(streams, queues.insert(cnx, queue)) == work(streams, queues),
    decreases streams.len(),
{
    if streams.len() > 0 {
        let rest = streams.drop_first();
        assert forall|i: int| 0 <= i < rest.len() implies (#[trigger] rest[i]).cnx != cnx by {
            assert(rest[i] == streams[i + 1]);
        }
        lemma_unlisted_work(rest, cnx, queues, queue);
        assert(streams[0].cnx != cnx);
    }
}

/// What a drain that is run by its steps does, from where it asks for an entry of
/// the first connection that is left.
proof fn lemma_drain_by_steps(d: DrainView, wake: bool, queues: Map<u64, Seq<Seq<u8>>>)
    requires
        d.streams.len() > 0,
        d.outgoing == Seq::<u8>::empty(),
        forall|i: int, j: int|
            0 <= i < j < d.streams.len() ==> (#[trigger] d.streams[i]).cnx != (
            #[trigger] d.streams[j]).cnx,
        forall|i: int|
            0 <= i < d.streams.len() ==> queues.contains_key((#[trigger] d.streams[i]).cnx),
    ensures
        ({
            let log = drain_by_steps(
                d,
                DrainStep::TryRecv { cnx: d.streams[0].cnx, wake },
                queues,
            );
            let end = drain_run(d, queues);
            &&& log.step is Done
            &&& log.queued == with_fin(end.sent)
            &&& log.woken == (if wake {
                seq![d.streams[0].cnx]
            } else {
                Seq::empty()
            }) + sent_to(end.sent)
            &&& log.queues == end.queues
        }),
    decreases work(d.streams, queues),
{
    let open = d.streams[0];
    let queue = queues[open.cnx];
    let rest = d.streams.drop_first();
    let step = DrainStep::TryRecv { cnx: open.cnx, wake };
    let log = drain_by_steps(d, step, queues);
    let end = drain_run(d, queues);
    let woken = if wake {
        seq![open.cnx]
    } else {
        Seq::empty()
    };
    assert forall|i: int, j: int| 0 <= i < j < rest.len() implies (#[trigger] rest[i]).cnx != (
    #[trigger] rest[j]).cnx by {
        assert(d.streams[i + 1].cnx != d.streams[j + 1].cnx);
    }
    assert forall|i: int| 0 <= i < rest.len() implies queues.contains_key(
        (#[trigger] rest[i]).cnx,
    ) && rest[i].cnx != open.cnx by {
        assert(rest[i] == d.streams[i + 1]);
    }
    if queue.len() == 0 {
        let (next, step1) = drain_step(d, DrainEventView::NoMore);
        assert(next.streams == rest);
        assert(next.outgoing == Seq::<u8>::empty());
        assert(end == drain_run(next, queues));
        if rest.len() == 0 {
            assert(step1 is Done);
            let later = drain_by_steps(next, step1, queues);
            assert(log.queued == later.queued);
            assert(end.sent =~= Seq::<Sent>::empty());
            assert(later.queued =~= with_fin(end.sent));
            assert(log.woken =~= woken + sent_to(end.sent));
        } else {
            assert(step1 == (DrainStep::TryRecv { cnx: rest[0].cnx, wake: false }));
            lemma_drain_by_steps(next, false, queues);
            assert(log.woken =~= woken + sent_to(end.sent));
        }
    } else {
        let left = queues.insert(open.cnx, queue.drop_first());
        let (adding, step1) = drain_step(d, DrainEventView::Received(queue[0]));
        lemma_unlisted_work(rest, open.cnx, queues, queue.drop_first());
        assert(adding.streams == d.streams);
        assert(work(d.streams, left) == work(d.streams, queues) - 2);
        let log1 = drain_by_steps(adding, step1, left);
        assert(log.queued == log1.queued && log.queues == log1.queues && log.step == log1.step);
        assert(log.woken == woken + log1.woken);
        let (next, step2) = drain_step(adding, DrainEventView::Added);
        assert(next =~= d);
        assert(step2 == (DrainStep::TryRecv { cnx: open.cnx, wake: true }));
        lemma_drain_by_steps(next, true, left);
        let log2 = drain_by_steps(next, step2, left);
        let later = drain_run(next, left);
        let one = Sent { cnx: open.cnx, stream_id: open.stream_id, data: queue[0] };
        assert(end.sent == seq![one] + later.sent);
        assert(log1.queued == seq![
            Queued {
                cnx: open.cnx,
                stream_id: open.stream_id,
                data: queue[0],
                fin: queue[0].len() == 0,
            },
        ] + log2.queued);
        assert(log.queued =~= with_fin(end.sent));
        assert(log.woken =~= woken + sent_to(end.sent));
    }
}

/// A drain that is begun, and run by the steps that it returns, comes to its end,
/// and there the send queue of every connection that has a stream is empty and no
/// other was touched. All that was in these queues was queued, on the streams of
/// their connections and in order, with the end of the stream exactly for an
/// entry without bytes, and the writer of a connection was woken after each entry
/// of its queue.
pub proof fn law_whole_drain(
    table: Map<u64, Option<u64>>,
    streams: Seq<OpenStream>,
    queues: Map<u64, Seq<Seq<u8>>>,
)
    requires
        lists_streams(table, streams),
        forall|cnx: u64| #[trigger] table.contains_key(cnx) ==> queues.contains_key(cnx),
    ensures
        ({
            let log = whole_drain(streams, queues);
            &&& log.step is Done
            &&& log.queued == with_fin(sent_on_all(streams, queues))
            &&& log.woken == sent_to(sent_on_all(streams, queues))
            &&& log.queues.dom() == queues.dom()
            &&& forall|cnx: u64| #[trigger]
                log.queues.contains_key(cnx) ==> log.queues[cnx] == if table.contains_key(cnx)
                    && table[cnx] is Some {
                    Seq::empty()
                } else {
                    queues[cnx]
                }
        }),
{
    let d = DrainView { streams, outgoing: Seq::empty() };
    law_drain_sends_all(table, streams, queues);
    let (next, step) = drain_step(d, DrainEventView::Begin);
    assert(next =~= d);
    let log = whole_drain(streams, queues);
    if streams.len() > 0 {
        assert(step == (DrainStep::TryRecv { cnx: streams[0].cnx, wake: false }));
        assert forall|i: int| 0 <= i < streams.len() implies queues.contains_key(
            (#[trigger] streams[i]).cnx,
        ) by {
            assert(table.contains_key(streams[i].cnx));
        }
        lemma_drain_by_steps(d, false, queues);
        assert(log.woken =~= sent_to(sent_on_all(streams, queues)));
    } else {
        assert(step is Done);
        assert(log.queued =~= with_fin(sent_on_all(streams, queues)));
        assert(log.woken =~= sent_to(sent_on_all(streams, queues)));
    }
}

/// Of what a whole drain queues, what goes to connection `cnx` is the send queue of
/// `cnx`, entry for entry and in order, on the stream of `cnx`.
pub proof fn law_whole_drain_keeps_order(
    table: Map<u64, Option<u64>>,
    streams: Seq<OpenStream>,
    queues: Map<u64, Seq<Seq<u8>>>,
    cnx: u64,
    stream_id: u64,
)
    requires
        lists_streams(table, streams),
        forall|c: u64| #[trigger] table.contains_key(c) ==> queues.contains_key(c),
        table.contains_key(cnx),
        table[cnx] == Some(stream_id),
    ensures
        ({
            let got = whole_drain(streams, queues).queued.filter(|q: Queued| q.cnx == cnx);
            &&& got.len() == queues[cnx].len()
            &&& forall|i: int|
                0 <= i < got.len() ==> (#[trigger] got[i]).data == queues[cnx][i]
                    && got[i].stream_id == stream_id && (got[i].fin <==> queues[cnx][i].len() == 0)
        }),
{
    law_whole_drain(table, streams, queues);
    law_drain_sends_all(table, streams, queues);
    law_drain_keeps_order(table, streams, queues, cnx, stream_id);
    lemma_filter_with_fin(sent_on_all(streams, queues), cnx);
}

proof fn lemma_filter_with_fin(sent: Seq<Sent>, cnx: u64)
    ensures
        with_fin(sent).filter(|q: Queued| q.cnx == cnx) == with_fin(
            sent.filter(|one: Sent| one.cnx == cnx),
        ),
    decreases sent.len(),
{
    reveal(Seq::filter);
    let p = |q: Queued| q.cnx == cnx;
    let q = |one: Sent| one.cnx == cnx;
    if sent.len() > 0 {
        lemma_filter_with_fin(sent.drop_last(), cnx);
        assert(with_fin(sent).drop_last() =~= with_fin(sent.drop_last()));
        if q(sent.last()) {
            assert(with_fin(sent.drop_last().filter(q).push(sent.last())) =~= with_fin(
                sent.drop_last().filter(q),
            ).push(with_fin(sent).last()));
        }
    } else {
        assert(with_fin(sent).filter(p) =~= with_fin(sent.filter(q)));
    }
}

/// Every event is answered as it calls for. A connection that becomes ready is
/// registered without a stream, and one that ends is forgotten. The first data of
/// a connection that is ready makes its stream the connection's, and is accepted
/// as it is, be it empty; later data on that stream is delivered as it is, unless
/// it is empty, and its end with an end mark. Nothing else is answered, and no
/// other event changes the table.
pub proof fn law_events_are_answered(
    table: Map<u64, Option<u64>>,
    cnx: u64,
    stream_id: u64,
    event: picoquic_call_back_event_t,
    data: Seq<u8>,
)
    ensures
        ({
            let (next, step) = on_event(table, cnx, stream_id, event, data);
            let known = table.contains_key(cnx);
            let own = known && table[cnx] == Some(stream_id);
            let arrives = event is picoquic_callback_stream_data;
            let opens = arrives && known && table[cnx] is None;
            &&& step is Register <==> event is picoquic_callback_ready
            &&& step is Register ==> next == table.insert(cnx, None)
            &&& step is Forget <==> starts_or_ends(event) && !(event is picoquic_callback_ready)
            &&& step is Forget ==> next == table.remove(cnx)
            &&& step is Accept <==> opens
            &&& opens ==> step == ServerStepView::Accept(data) && next == table.insert(
                cnx,
                Some(stream_id),
            )
            &&& arrives && own && data.len() > 0 ==> step == ServerStepView::Deliver(data)
            &&& event is picoquic_callback_stream_fin && own ==> step == ServerStepView::Deliver(
                Seq::empty(),
            )
            &&& step is Deliver ==> own && ((arrives && data.len() > 0) || event
                is picoquic_callback_stream_fin)
            &&& !starts_or_ends(event) && !opens ==> next == table
        }),
{
}

/// What is handed to the proxy of connection `cnx` over `events`: the bytes that
/// are accepted and delivered, put together.
pub open spec fn handed_over(
    table: Map<u64, Option<u64>>,
    events: Seq<Happening>,
    cnx: u64,
) -> Seq<u8>
    decreases events.len(),
{
    if events.len() == 0 {
        Seq::empty()
    } else {
        let e = events[0];
        let (next, step) = on_event(table, e.cnx, e.stream_id, e.event, e.data);
        let now = match step {
            ServerStepView::Accept(bytes) if e.cnx == cnx => bytes,
            ServerStepView::Deliver(bytes) if e.cnx == cnx => bytes,
            _ => Seq::empty(),
        };
        now + handed_over(next, events.drop_first(), cnx)
    }
}

/// The data that comes in over `events` on stream `stream_id` of connection `cnx`.
pub open spec fn data_on(events: Seq<Happening>, cnx: u64, stream_id: u64) -> Seq<u8>
    decreases events.len(),
{
    if events.len() == 0 {
        Seq::empty()
    } else {
        let e = events[0];
        let rest = data_on(events.drop_first(), cnx, stream_id);
        if e.cnx == cnx && e.stream_id == stream_id && e.event is picoquic_callback_stream_data {
            e.data + rest
        } else {
            rest
        }
    }
}

/// The stream of connection `cnx`: the one it has, or else the first on which data
/// comes in over `events`.
pub open spec fn stream_of(
    table: Map<u64, Option<u64>>,
    events: Seq<Happening>,
    cnx: u64,
) -> Option<u64>
    decreases events.len(),
{
    if table[cnx] is Some {
        table[cnx]
    } else if events.len() == 0 {
        None
    } else if events[0].cnx == cnx && events[0].event is picoquic_callback_stream_data {
        Some(events[0].stream_id)
    } else {
        stream_of(table, events.drop_first(), cnx)
    }
}

/// Until a connection ends or starts anew, what is handed to the proxy of it is the
/// data that comes in on its stream, byte for byte and in order; its stream is the
/// first on which data comes in. Of a connection that is not ready nothing is
/// handed over.
pub proof fn law_data_reaches_proxy(
    table: Map<u64, Option<u64>>,
    events: Seq<Happening>,
    cnx: u64,
)
    requires
        forall|i: int|
            0 <= i < events.len() && (#[trigger] events[i]).cnx == cnx ==> !starts_or_ends(
                events[i].event,
            ),
    ensures
        handed_over(table, events, cnx) == if table.contains_key(cnx) {
            match stream_of(table, events, cnx) {
                Some(stream_id) => data_on(events, cnx, stream_id),
                None => Seq::empty(),
            }
        } else {
            Seq::empty()
        },
    decreases events.len(),
{
    if events.len() > 0 {
        let e = events[0];
        let rest = events.drop_first();
        let (next, step) = on_event(table, e.cnx, e.stream_id, e.event, e.data);
        assert forall|i: int| 0 <= i < rest.len() && (#[trigger] rest[i]).cnx
            == cnx implies !starts_or_ends(rest[i].event) by {
            assert(rest[i] == events[i + 1]);
        }
        law_data_reaches_proxy(next, rest, cnx);
        law_events_are_answered(table, e.cnx, e.stream_id, e.event, e.data);
        if e.cnx != cnx {
            law_connections_are_separate(table, e.cnx, cnx, e.stream_id, e.event, e.data);
        }
        if e.cnx == cnx {
            if table.contains_key(cnx) {
                if table[cnx] is None && !(e.event is picoquic_callback_stream_data) {
                    lemma_same_stream(table, next, rest, cnx);
                }
            }
            if e.data.len() == 0 {
                assert(e.data =~= Seq::<u8>::empty());
            }
        } else if table.contains_key(cnx) {
            lemma_same_stream(table, next, rest, cnx);
        }
        let later = handed_over(next, rest, cnx);
        assert(Seq::<u8>::empty() + later =~= later);
    }
}

/// The stream of a connection rests on what the table says of that connection.
proof fn lemma_same_stream(
    first: Map<u64, Option<u64>>,
    second: Map<u64, Option<u64>>,
    events: Seq<Happening>,
    cnx: u64,
)
    requires
        first[cnx] == second[cnx],
    ensures
        stream_of(first, events, cnx) == stream_of(second, events, cnx),
    decreases events.len(),
{
    if events.len() > 0 {
        lemma_same_stream(first, second, events.drop_first(), cnx);
    }
}

} // verus!

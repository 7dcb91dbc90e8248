//! The accept loops of the servers and of the client.
//!
//! Each waits for a connection or for the shutdown signal, whichever comes
//! first, takes a permit where the number of connections is limited, and serves
//! the connection. The loops differ in what they do when accepting fails, times
//! out or ends.

use vstd::prelude::*;

verus! {

/// How long a KCP server pauses before it binds again, in seconds.
pub const REBIND_PAUSE_SECS: u64 = 2;

/// How long a server waits for a connection before it takes action, in seconds,
/// unless told otherwise.
pub const DEFAULT_ACCEPT_TIMEOUT_SECS: u64 = 15;

/// How long connections in flight get on shutdown, in seconds, unless told
/// otherwise.
pub const DEFAULT_SHUTDOWN_DRAIN_SECS: u64 = 5;

/// How many connections are served at a time, unless told otherwise.
pub const DEFAULT_MAX_CONNECTIONS: usize = 10000;

/// What an accept loop listens on.
#[derive(Clone, Copy, Debug, PartialEq, Eq, Structural)]
pub enum Listener {
    /// The server's KCP socket. Its listener can die of a socket error without
    /// telling: then accepting times out, and the loop binds again.
    Kcp,
    /// The server's QUIC endpoint.
    Quinn,
    /// The server's slipstream-picoquic thread.
    SlipstreamPicoQuic,
    /// The client's TCP socket.
    Tcp,
}

/// What an accept loop does.
#[derive(Clone, Copy, Debug, PartialEq, Eq, Structural)]
pub enum AcceptStep {
    /// Bind the listener.
    Bind,
    /// Wait for a connection or for shutdown.
    Accept,
    /// Wait for a permit for the connection that was accepted.
    AcquirePermit,
    /// Serve the connection that was accepted, in a task of its own.
    Serve,
    /// Pause before binding again.
    Pause,
    /// Stop: no more connections are accepted.
    Stop,
    /// Stop with an error.
    Fail,
}

/// What came of it.
#[derive(Clone, Copy, Debug, PartialEq, Eq, Structural)]
pub enum AcceptEvent {
    /// The listener is bound.
    Bound,
    /// The listener cannot be bound.
    BindFailed,
    /// The shutdown signal came.
    Shutdown,
    /// A connection was accepted.
    Accepted,
    /// Accepting a connection failed.
    AcceptFailed,
    /// No connection came in time.
    TimedOut,
    /// No connection will come any more.
    Ended,
    /// There is a permit for the connection.
    PermitGranted,
    /// There will be no permit any more; the connection is dropped.
    PermitClosed,
    /// The task that serves the connection was started.
    Serving,
    /// The pause is over.
    Paused,
}

/// The step after `step` in the loop of `listener`, given `event`; `limited` if
/// the number of connections is.
pub open spec fn after_accept(
    listener: Listener,
    limited: bool,
    step: AcceptStep,
    event: AcceptEvent,
) -> AcceptStep {
    match (step, event) {
        (AcceptStep::Bind, AcceptEvent::Bound) => AcceptStep::Accept,
        (AcceptStep::Bind, AcceptEvent::BindFailed) => if listener is Kcp {
            AcceptStep::Pause
        } else {
            AcceptStep::Fail
        },
        (AcceptStep::Accept, AcceptEvent::Shutdown) => AcceptStep::Stop,
        (AcceptStep::Accept, AcceptEvent::Ended) => AcceptStep::Stop,
        (AcceptStep::Accept, AcceptEvent::Accepted) => if limited {
            AcceptStep::AcquirePermit
        } else {
            AcceptStep::Serve
        },
        (AcceptStep::Accept, AcceptEvent::AcceptFailed)
        | (AcceptStep::Accept, AcceptEvent::TimedOut) => if listener is Kcp {
            AcceptStep::Pause
        } else {
            AcceptStep::Accept
        },
        (AcceptStep::AcquirePermit, AcceptEvent::PermitGranted) => AcceptStep::Serve,
        (AcceptStep::AcquirePermit, AcceptEvent::PermitClosed) => AcceptStep::Accept,
        (AcceptStep::Serve, AcceptEvent::Serving) => AcceptStep::Accept,
        (AcceptStep::Pause, AcceptEvent::Paused) => AcceptStep::Bind,
        (_, _) => step,
    }
}

/// The limit that a maximum of `max` connections stands for.
pub open spec fn limit_of(max: usize) -> Option<usize> {
    if max > 0 {
        Some(max)
    } else {
        None
    }
}

/// The limit that a maximum of `max` connections stands for: none for 0.
pub fn connection_limit(max: usize) -> (limit: Option<usize>)
    ensures
        limit == limit_of(max),
        limit == (if max > 0 {
            Some(max)
        } else {
            None
        }),
{
    if max > 0 {
        Some(max)
    } else {
        None
    }
}

/// An accept loop.
#[derive(Clone, Copy, Debug, PartialEq, Eq, Structural)]
pub struct AcceptLoop {
    pub listener: Listener,
    pub limited: bool,
    pub step: AcceptStep,
}

impl AcceptLoop {
    /// The loop of `listener` with at most `max` connections at a time, or any
    /// number if `max` is 0.
    pub fn new(listener: Listener, max: usize) -> (accept: AcceptLoop)
        ensures
            accept == (AcceptLoop { listener, limited: max > 0, step: AcceptStep::Bind }),
            accept.limited <==> limit_of(max) is Some,
    {
        AcceptLoop { listener, limited: connection_limit(max).is_some(), step: AcceptStep::Bind }
    }

    /// Goes on with the loop. An event that the loop does not wait for changes
    /// nothing.
    pub fn next(&mut self, event: AcceptEvent) -> (step: AcceptStep)
        ensures
            step == after_accept(old(self).listener, old(self).limited, old(self).step, event),
            *final(self) == (AcceptLoop { step, ..*old(self) }),
    {
        let kcp = match self.listener {
            Listener::Kcp => true,
            _ => false,
        };
        let step = match (self.step, event) {
            (AcceptStep::Bind, AcceptEvent::Bound) => AcceptStep::Accept,
            (AcceptStep::Bind, AcceptEvent::BindFailed) => if kcp {
                AcceptStep::Pause
            } else {
                AcceptStep::Fail
            },
            (AcceptStep::Accept, AcceptEvent::Shutdown)
            | (AcceptStep::Accept, AcceptEvent::Ended) => AcceptStep::Stop,
            (AcceptStep::Accept, AcceptEvent::Accepted) => if self.limited {
                AcceptStep::AcquirePermit
            } else {
                AcceptStep::Serve
            },
            (AcceptStep::Accept, AcceptEvent::AcceptFailed)
            | (AcceptStep::Accept, AcceptEvent::TimedOut) => if kcp {
                AcceptStep::Pause
            } else {
                AcceptStep::Accept
            },
            (AcceptStep::AcquirePermit, AcceptEvent::PermitGranted) => AcceptStep::Serve,
            (AcceptStep::AcquirePermit, AcceptEvent::PermitClosed) => AcceptStep::Accept,
            (AcceptStep::Serve, AcceptEvent::Serving) => AcceptStep::Accept,
            (AcceptStep::Pause, AcceptEvent::Paused) => AcceptStep::Bind,
            (_, _) => self.step,
        };
        self.step = step;
        step
    }
}

/// How long connections in flight get, inside the loop's own function and after
/// it.
pub open spec fn pauses_of(listener: Listener, drain_secs: u64) -> (u64, u64) {
    if listener is SlipstreamPicoQuic {
        (drain_secs, 0)
    } else {
        (0, drain_secs)
    }
}

/// How long connections in flight get when the loop of `listener` has stopped,
/// in seconds: inside the loop's own function, and after it. It is
/// `drain_secs` once, in the one place or the other.
pub fn drain_pauses(listener: Listener, drain_secs: u64) -> (pauses: (u64, u64))
    ensures
        pauses == pauses_of(listener, drain_secs),
        pauses == (if listener is SlipstreamPicoQuic {
            (drain_secs, 0)
        } else {
            (0, drain_secs)
        }),
        pauses.0 + pauses.1 == drain_secs,
{
    match listener {
        Listener::SlipstreamPicoQuic => (drain_secs, 0),
        _ => (0, drain_secs),
    }
}

/// The steps of a loop that starts at `step` and meets `events`.
pub open spec fn accept_run(
    listener: Listener,
    limited: bool,
    step: AcceptStep,
    events: Seq<AcceptEvent>,
) -> Seq<AcceptStep>
    decreases events.len(),
{
    if events.len() == 0 {
        seq![step]
    } else {
        seq![step] + accept_run(
            listener,
            limited,
            after_accept(listener, limited, step, events[0]),
            events.drop_first(),
        )
    }
}

/// Shutdown is final: a loop that gets the signal while it waits for a
/// connection stops, and serves nothing from then on, whatever happens.
pub proof fn law_shutdown_stops(listener: Listener, limited: bool, events: Seq<AcceptEvent>, i: int)
    requires
        0 <= i <= events.len(),
    ensures
        after_accept(listener, limited, AcceptStep::Accept, AcceptEvent::Shutdown)
            == AcceptStep::Stop,
        accept_run(listener, limited, AcceptStep::Stop, events).len() == events.len() + 1,
        accept_run(listener, limited, AcceptStep::Stop, events)[i] == AcceptStep::Stop,
    decreases events.len(),
{
    if events.len() > 0 {
        if i > 0 {
            law_shutdown_stops(listener, limited, events.drop_first(), i - 1);
        } else {
            law_shutdown_stops(listener, limited, events.drop_first(), 0);
        }
    }
}

/// A KCP server recovers: no failure to bind or to accept and no timeout stops
/// it. It pauses and binds again.
pub proof fn law_kcp_rebinds(limited: bool, event: AcceptEvent)
    requires
        event is AcceptFailed || event is TimedOut || event is BindFailed,
    ensures
        ({
            let at = if event is BindFailed {
                AcceptStep::Bind
            } else {
                AcceptStep::Accept
            };
            let then = after_accept(Listener::Kcp, limited, at, event);
            then == AcceptStep::Pause && after_accept(
                Listener::Kcp,
                limited,
                then,
                AcceptEvent::Paused,
            ) == AcceptStep::Bind
        }),
{
}

/// Of a loop that does not listen on KCP, a failure to accept or a timeout
/// leaves the loop where it is.
pub proof fn law_others_keep_accepting(listener: Listener, limited: bool, event: AcceptEvent)
    requires
        !(listener is Kcp),
        event is AcceptFailed || event is TimedOut,
    ensures
        after_accept(listener, limited, AcceptStep::Accept, event) == AcceptStep::Accept,
{
}

/// A loop stops only when it is told to shut down or that no connection will come
/// any more, and a KCP server's loop never fails: whatever else happens, it goes
/// on.
pub proof fn law_stops_only_when_told(
    listener: Listener,
    limited: bool,
    step: AcceptStep,
    events: Seq<AcceptEvent>,
    i: int,
)
    requires
        0 <= i <= events.len(),
        !(step is Stop),
        forall|k: int|
            0 <= k < events.len() ==> !(#[trigger] events[k] is Shutdown || events[k] is Ended),
    ensures
        accept_run(listener, limited, step, events).len() == events.len() + 1,
        !(accept_run(listener, limited, step, events)[i] is Stop),
        listener is Kcp && !(step is Fail) ==> !(accept_run(listener, limited, step, events)[i]
            is Fail),
    decreases events.len(),
{
    if events.len() > 0 {
        let next = after_accept(listener, limited, step, events[0]);
        let rest = events.drop_first();
        assert forall|k: int| 0 <= k < rest.len() implies !(#[trigger] rest[k] is Shutdown
            || rest[k] is Ended) by {
            assert(rest[k] == events[k + 1]);
        }
        law_stops_only_when_told(
            listener,
            limited,
            next,
            rest,
            if i > 0 {
                i - 1
            } else {
                0
            },
        );
    }
}

/// Something that happens while a loop runs.
pub enum Moment {
    /// The loop is told of an event.
    Loop(AcceptEvent),
    /// A task that serves a connection ends, well or not, and gives the
    /// connection's permit back if it has one.
    HandlerEnds,
}

/// A loop with the tasks that it has started: its step, and how often each of
/// these has happened.
pub struct Serving {
    pub step: AcceptStep,
    /// A connection was accepted.
    pub accepted: nat,
    /// A connection was dropped for want of a permit.
    pub dropped: nat,
    /// A permit was granted.
    pub granted: nat,
    /// A task was started for a connection.
    pub started: nat,
    /// Such a task ended.
    pub ended: nat,
}

impl Serving {
    /// A loop that has not begun.
    pub open spec fn start() -> Serving {
        Serving {
            step: AcceptStep::Bind,
            accepted: 0,
            dropped: 0,
            granted: 0,
            started: 0,
            ended: 0,
        }
    }

    /// How many tasks are running.
    pub open spec fn running(self) -> int {
        self.started - self.ended
    }

    /// How many permits are in use.
    pub open spec fn in_use(self) -> int {
        self.granted - self.ended
    }

    /// How many connections are accepted and not yet served or dropped.
    pub open spec fn waiting(self) -> nat {
        if self.step is AcquirePermit || self.step is Serve {
            1
        } else {
            0
        }
    }
}

/// One more if `happened`.
pub open spec fn counted(count: nat, happened: bool) -> nat {
    if happened {
        count + 1
    } else {
        count
    }
}

/// What is after `moment`.
pub open spec fn after_moment(
    listener: Listener,
    limited: bool,
    s: Serving,
    moment: Moment,
) -> Serving {
    match moment {
        Moment::Loop(event) => Serving {
            step: after_accept(listener, limited, s.step, event),
            accepted: counted(s.accepted, s.step is Accept && event is Accepted),
            dropped: counted(s.dropped, s.step is AcquirePermit && event is PermitClosed),
            granted: counted(s.granted, s.step is AcquirePermit && event is PermitGranted),
            started: counted(s.started, s.step is Serve && event is Serving),
            ended: s.ended,
        },
        Moment::HandlerEnds => Serving { ended: s.ended + 1, ..s },
    }
}

/// Whether `moment` can come where there are `max` permits in all: a permit is
/// granted only while one is left, and only a task that runs can end.
pub open spec fn can_come(s: Serving, moment: Moment, max: nat) -> bool {
    match moment {
        Moment::Loop(AcceptEvent::PermitGranted) => s.in_use() < max,
        Moment::Loop(_) => true,
        Moment::HandlerEnds => s.running() > 0,
    }
}

/// Whether each of `moments` can come, one after the other.
pub open spec fn can_all_come(
    listener: Listener,
    limited: bool,
    s: Serving,
    moments: Seq<Moment>,
    max: nat,
) -> bool
    decreases moments.len(),
{
    moments.len() > 0 ==> can_come(s, moments[0], max) && can_all_come(
        listener,
        limited,
        after_moment(listener, limited, s, moments[0]),
        moments.drop_first(),
        max,
    )
}

/// What is after `moments`.
pub open spec fn after_moments(
    listener: Listener,
    limited: bool,
    s: Serving,
    moments: Seq<Moment>,
) -> Serving
    decreases moments.len(),
{
    if moments.len() == 0 {
        s
    } else {
        after_moments(
            listener,
            limited,
            after_moment(listener, limited, s, moments[0]),
            moments.drop_first(),
        )
    }
}

/// What holds of a loop and its tasks at any time.
spec fn is_consistent(s: Serving, limited: bool, max: nat) -> bool {
    &&& s.accepted == s.started + s.dropped + s.waiting()
    &&& s.ended <= s.started
    &&& limited ==> s.granted == s.started + if s.step is Serve {
        1nat
    } else {
        0nat
    }
    &&& limited ==> s.in_use() <= max
    &&& !limited ==> !(s.step is AcquirePermit) && s.dropped == 0
}

proof fn lemma_moments(
    listener: Listener,
    limited: bool,
    s: Serving,
    moments: Seq<Moment>,
    max: nat,
)
    requires
        is_consistent(s, limited, max),
        can_all_come(listener, limited, s, moments, max),
    ensures
        is_consistent(after_moments(listener, limited, s, moments), limited, max),
    decreases moments.len(),
{
    if moments.len() > 0 {
        let next = after_moment(listener, limited, s, moments[0]);
        assert(is_consistent(next, limited, max));
        lemma_moments(listener, limited, next, moments.drop_first(), max);
    }
}

/// With `max` permits in all, at most `max` connections are served at a time: a
/// connection's permit is in use from before its task starts until it ends.
pub proof fn law_connection_limit(listener: Listener, moments: Seq<Moment>, max: usize)
    requires
        can_all_come(listener, true, Serving::start(), moments, max as nat),
    ensures
        ({
            let end = after_moments(listener, true, Serving::start(), moments);
            0 <= end.running() <= end.in_use() <= max
        }),
{
    lemma_moments(listener, true, Serving::start(), moments, max as nat);
}

/// Every connection that is accepted is served once, or is dropped, or waits for
/// its permit or its task, and none is dropped unless connections are limited.
pub proof fn law_served_once(
    listener: Listener,
    limited: bool,
    moments: Seq<Moment>,
    max: usize,
)
    requires
        can_all_come(listener, limited, Serving::start(), moments, max as nat),
    ensures
        ({
            let end = after_moments(listener, limited, Serving::start(), moments);
            &&& end.accepted == end.started + end.dropped + end.waiting()
            &&& end.waiting() <= 1
            &&& !limited ==> end.dropped == 0
        }),
{
    lemma_moments(listener, limited, Serving::start(), moments, max as nat);
}

/// How a task ends, and that a connection gets no permit, does not stop the loop:
/// after the one it is where it was, and after the other it accepts.
pub proof fn law_loop_outlives_connections(listener: Listener, limited: bool, s: Serving)
    ensures
        after_moment(listener, limited, s, Moment::HandlerEnds).step == s.step,
        s.step is AcquirePermit ==> after_moment(
            listener,
            limited,
            s,
            Moment::Loop(AcceptEvent::PermitClosed),
        ).step == AcceptStep::Accept,
{
}

/// A loop goes on as what came of its step calls for: a bound listener accepts; a
/// connection is served at once or, if connections are limited, once it has its
/// permit; after serving, or without a permit, the loop accepts again; and after
/// its pause it binds. Only what is no KCP listener fails, and only to bind.
pub proof fn law_loop_goes_on(listener: Listener, limited: bool, step: AcceptStep, event: AcceptEvent)
    ensures
        after_accept(listener, limited, AcceptStep::Bind, AcceptEvent::Bound) is Accept,
        after_accept(listener, limited, AcceptStep::Accept, AcceptEvent::Accepted)
            is AcquirePermit <==> limited,
        after_accept(listener, limited, AcceptStep::Accept, AcceptEvent::Accepted) is Serve
            <==> !limited,
        after_accept(listener, limited, AcceptStep::Accept, AcceptEvent::Ended) is Stop,
        after_accept(listener, limited, AcceptStep::AcquirePermit, AcceptEvent::PermitGranted)
            is Serve,
        after_accept(listener, limited, AcceptStep::AcquirePermit, AcceptEvent::PermitClosed)
            is Accept,
        after_accept(listener, limited, AcceptStep::Serve, AcceptEvent::Serving) is Accept,
        after_accept(listener, limited, AcceptStep::Pause, AcceptEvent::Paused) is Bind,
        !(step is Fail) ==> (after_accept(listener, limited, step, event) is Fail <==> !(listener
            is Kcp) && step is Bind && event is BindFailed),
{
}

/// An event that does not come of the loop's step changes nothing.
pub proof fn law_stray_events(
    listener: Listener,
    limited: bool,
    step: AcceptStep,
    event: AcceptEvent,
)
    requires
        match step {
            AcceptStep::Bind => !(event is Bound || event is BindFailed),
            AcceptStep::Accept => !(event is Shutdown || event is Accepted || event is AcceptFailed
                || event is TimedOut || event is Ended),
            AcceptStep::AcquirePermit => !(event is PermitGranted || event is PermitClosed),
            AcceptStep::Serve => !(event is Serving),
            AcceptStep::Pause => !(event is Paused),
            AcceptStep::Stop | AcceptStep::Fail => true,
        },
    ensures
        after_accept(listener, limited, step, event) == step,
{
}

/// A maximum of 0 stands for no limit, and any other for itself.
pub proof fn law_limit(max: usize)
    ensures
        limit_of(0) is None,
        max != 0 ==> limit_of(max) == Some(max),
{
}

/// Connections in flight get their time once, and inside the loop's own function
/// for slipstream-picoquic alone.
pub proof fn law_drain_once(listener: Listener, drain_secs: u64)
    ensures
        pauses_of(listener, drain_secs).0 + pauses_of(listener, drain_secs).1 == drain_secs,
        !(listener is SlipstreamPicoQuic) ==> pauses_of(listener, drain_secs).0 == 0,
        listener is SlipstreamPicoQuic ==> pauses_of(listener, drain_secs).1 == 0,
{
}

} // verus!

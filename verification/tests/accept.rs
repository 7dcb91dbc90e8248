use proxy_server::accept::{
    connection_limit, drain_pauses, AcceptEvent, AcceptLoop, AcceptStep, Listener,
    DEFAULT_ACCEPT_TIMEOUT_SECS, DEFAULT_MAX_CONNECTIONS, DEFAULT_SHUTDOWN_DRAIN_SECS,
    REBIND_PAUSE_SECS,
};

const ALL: [Listener; 4] = [
    Listener::Kcp,
    Listener::Quinn,
    Listener::SlipstreamPicoQuic,
    Listener::Tcp,
];

fn accepting(listener: Listener, max: usize) -> AcceptLoop {
    let mut accept = AcceptLoop::new(listener, max);
    assert_eq!(accept.step, AcceptStep::Bind);
    assert_eq!(accept.next(AcceptEvent::Bound), AcceptStep::Accept);
    accept
}

#[test]
fn accept_defaults() {
    assert_eq!(REBIND_PAUSE_SECS, 2);
    assert_eq!(DEFAULT_ACCEPT_TIMEOUT_SECS, 15);
    assert_eq!(DEFAULT_SHUTDOWN_DRAIN_SECS, 5);
    assert_eq!(DEFAULT_MAX_CONNECTIONS, 10000);
    assert_eq!(connection_limit(0), None);
    assert_eq!(connection_limit(7), Some(7));
}

#[test]
fn limited_loop_takes_a_permit() {
    for listener in ALL {
        let mut accept = accepting(listener, 1);
        assert_eq!(
            accept.next(AcceptEvent::Accepted),
            AcceptStep::AcquirePermit
        );
        assert_eq!(accept.next(AcceptEvent::PermitGranted), AcceptStep::Serve);
        assert_eq!(accept.next(AcceptEvent::Serving), AcceptStep::Accept);
        let _ = accept.next(AcceptEvent::Accepted);
        assert_eq!(accept.next(AcceptEvent::PermitClosed), AcceptStep::Accept);
    }
}

#[test]
fn unlimited_loop_serves_at_once() {
    for listener in ALL {
        let mut accept = accepting(listener, 0);
        assert_eq!(accept.next(AcceptEvent::Accepted), AcceptStep::Serve);
    }
}

#[test]
fn shutdown_is_final() {
    for listener in ALL {
        let mut accept = accepting(listener, 3);
        assert_eq!(accept.next(AcceptEvent::Shutdown), AcceptStep::Stop);
        for event in [
            AcceptEvent::Accepted,
            AcceptEvent::Bound,
            AcceptEvent::PermitGranted,
            AcceptEvent::Paused,
        ] {
            assert_eq!(accept.next(event), AcceptStep::Stop);
        }
    }
}

#[test]
fn ended_listener_stops_the_loop() {
    for listener in ALL {
        let mut accept = accepting(listener, 3);
        assert_eq!(accept.next(AcceptEvent::Ended), AcceptStep::Stop);
    }
}

#[test]
fn kcp_binds_again() {
    for event in [AcceptEvent::AcceptFailed, AcceptEvent::TimedOut] {
        let mut accept = accepting(Listener::Kcp, 3);
        assert_eq!(accept.next(event), AcceptStep::Pause);
        assert_eq!(accept.next(AcceptEvent::Paused), AcceptStep::Bind);
    }
    let mut accept = AcceptLoop::new(Listener::Kcp, 3);
    assert_eq!(accept.next(AcceptEvent::BindFailed), AcceptStep::Pause);
}

#[test]
fn others_keep_accepting_but_must_bind() {
    for listener in [
        Listener::Quinn,
        Listener::SlipstreamPicoQuic,
        Listener::Tcp,
    ] {
        let mut accept = accepting(listener, 3);
        assert_eq!(accept.next(AcceptEvent::AcceptFailed), AcceptStep::Accept);
        assert_eq!(accept.next(AcceptEvent::TimedOut), AcceptStep::Accept);
        let mut accept = AcceptLoop::new(listener, 3);
        assert_eq!(accept.next(AcceptEvent::BindFailed), AcceptStep::Fail);
    }
}

/// Accepts as many connections as come, each with a permit if one is left, and
/// ends a handler after every third. Gives the most handlers that ran at a time,
/// how many were started and how many were accepted.
fn most_at_a_time(listener: Listener, max: usize, rounds: usize) -> (usize, usize, usize) {
    let mut accept = accepting(listener, max);
    let (mut in_use, mut running, mut most) = (0, 0, 0);
    let (mut started, mut accepted) = (0, 0);
    for round in 0..rounds {
        let event = match accept.step {
            AcceptStep::Accept => {
                accepted += 1;
                AcceptEvent::Accepted
            }
            AcceptStep::AcquirePermit if in_use < max => {
                in_use += 1;
                AcceptEvent::PermitGranted
            }
            AcceptStep::Serve => {
                running += 1;
                started += 1;
                AcceptEvent::Serving
            }
            _ => AcceptEvent::Paused,
        };
        let _ = accept.next(event);
        most = most.max(running);
        if round % 7 == 6 && running > 0 {
            running -= 1;
            in_use = if max > 0 { in_use - 1 } else { 0 };
        }
    }
    (most, started, accepted)
}

#[test]
fn no_more_are_served_at_a_time_than_permitted() {
    for listener in ALL {
        let (most, started, accepted) = most_at_a_time(listener, 2, 100);
        assert_eq!(most, 2);
        assert!(started == accepted || started + 1 == accepted);
        assert!(started > 2);
    }
}

#[test]
fn every_connection_is_served_once_without_a_limit() {
    let (most, started, accepted) = most_at_a_time(Listener::Tcp, 0, 100);
    assert!(most > 2);
    assert_eq!((started, accepted), (50, 50));
}

#[test]
fn loop_stops_only_when_told() {
    for listener in ALL {
        for event in [
            AcceptEvent::Bound,
            AcceptEvent::BindFailed,
            AcceptEvent::Accepted,
            AcceptEvent::AcceptFailed,
            AcceptEvent::TimedOut,
            AcceptEvent::PermitGranted,
            AcceptEvent::PermitClosed,
            AcceptEvent::Serving,
            AcceptEvent::Paused,
        ] {
            let mut accept = accepting(listener, 3);
            let step = accept.next(event);
            assert_ne!(step, AcceptStep::Stop);
            assert_ne!(step, AcceptStep::Fail);
        }
    }
}

#[test]
fn connections_in_flight_get_their_time_once() {
    assert_eq!(drain_pauses(Listener::SlipstreamPicoQuic, 5), (5, 0));
    for listener in [Listener::Kcp, Listener::Quinn, Listener::Tcp] {
        assert_eq!(drain_pauses(listener, 5), (0, 5));
    }
}

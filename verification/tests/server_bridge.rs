use proxy_server::picoquic::picoquic_call_back_event_t as Event;
use proxy_server::picoquic::{
    PICOQUIC_PACKET_LOOP_AFTER_RECEIVE, PICOQUIC_PACKET_LOOP_AFTER_SEND,
    PICOQUIC_PACKET_LOOP_READY, PICOQUIC_PACKET_LOOP_TIME_CHECK,
};
use proxy_server::server_bridge::{
    DrainEvent, DrainStep, OpenStream, ServerConnections, ServerDrain, ServerStage, ServerStep,
};
use std::collections::{HashMap, VecDeque};

fn accepted(table: &mut ServerConnections, cnx: u64, stream_id: u64) {
    assert!(matches!(
        table.on_event(cnx, 0, Event::picoquic_callback_ready, b""),
        ServerStep::Register
    ));
    match table.on_event(cnx, stream_id, Event::picoquic_callback_stream_data, b"hi") {
        ServerStep::Accept(bytes) => assert_eq!(bytes, b"hi"),
        other => panic!("{:?}", other),
    }
}

#[test]
fn first_data_opens_the_stream() {
    let mut table = ServerConnections::new();
    assert!(matches!(
        table.on_event(1, 0, Event::picoquic_callback_stream_data, b"early"),
        ServerStep::Nothing
    ));
    accepted(&mut table, 1, 0);
    match table.on_event(1, 0, Event::picoquic_callback_stream_data, b"more") {
        ServerStep::Deliver(bytes) => assert_eq!(bytes, b"more"),
        other => panic!("{:?}", other),
    }
    assert!(matches!(
        table.on_event(1, 0, Event::picoquic_callback_stream_data, b""),
        ServerStep::Nothing
    ));
    match table.on_event(1, 0, Event::picoquic_callback_stream_fin, b"") {
        ServerStep::Deliver(bytes) => assert!(bytes.is_empty()),
        other => panic!("{:?}", other),
    }
}

#[test]
fn empty_first_data_opens_the_stream_too() {
    let mut table = ServerConnections::new();
    let _ = table.on_event(1, 0, Event::picoquic_callback_ready, b"");
    match table.on_event(1, 4, Event::picoquic_callback_stream_data, b"") {
        ServerStep::Accept(bytes) => assert!(bytes.is_empty()),
        other => panic!("{:?}", other),
    }
}

#[test]
fn other_streams_of_a_connection_are_ignored() {
    let mut table = ServerConnections::new();
    accepted(&mut table, 1, 0);
    for event in [
        Event::picoquic_callback_stream_data,
        Event::picoquic_callback_stream_fin,
        Event::picoquic_callback_stream_reset,
        Event::picoquic_callback_stop_sending,
    ] {
        assert!(matches!(
            table.on_event(1, 4, event, b"x"),
            ServerStep::Nothing
        ));
    }
    assert_eq!(
        table.open_streams(),
        vec![OpenStream {
            cnx: 1,
            stream_id: 0
        }]
    );
}

#[test]
fn connections_are_separate() {
    let mut table = ServerConnections::new();
    accepted(&mut table, 1, 0);
    accepted(&mut table, 2, 8);
    let _ = table.on_event(3, 0, Event::picoquic_callback_ready, b"");
    assert!(matches!(
        table.on_event(1, 0, Event::picoquic_callback_close, b""),
        ServerStep::Forget
    ));
    assert_eq!(
        table.open_streams(),
        vec![OpenStream {
            cnx: 2,
            stream_id: 8
        }]
    );
    for event in [
        Event::picoquic_callback_application_close,
        Event::picoquic_callback_stateless_reset,
    ] {
        assert!(matches!(
            table.on_event(2, 8, event, b""),
            ServerStep::Forget
        ));
    }
    assert_eq!(table.open_streams(), vec![]);
}

#[test]
fn ready_starts_a_connection_anew() {
    let mut table = ServerConnections::new();
    accepted(&mut table, 1, 0);
    accepted(&mut table, 1, 4);
    assert_eq!(
        table.open_streams(),
        vec![OpenStream {
            cnx: 1,
            stream_id: 4
        }]
    );
}

#[test]
fn connection_is_accepted_once() {
    let mut table = ServerConnections::new();
    let _ = table.on_event(1, 0, Event::picoquic_callback_ready, b"");
    let _ = table.on_event(2, 0, Event::picoquic_callback_ready, b"");
    let mut accepts = 0;
    for (cnx, stream_id, event) in [
        (1, 0, Event::picoquic_callback_stream_fin),
        (2, 0, Event::picoquic_callback_stream_data),
        (1, 4, Event::picoquic_callback_stream_data),
        (1, 8, Event::picoquic_callback_stream_data),
        (2, 0, Event::picoquic_callback_close),
        (1, 4, Event::picoquic_callback_stream_data),
        (1, 4, Event::picoquic_callback_stream_fin),
    ] {
        let step = table.on_event(cnx, stream_id, event, b"x");
        accepts += (cnx == 1 && matches!(step, ServerStep::Accept(_))) as usize;
    }
    assert_eq!(accepts, 1);
}

#[test]
fn loop_is_told_to_check_and_to_wake_soon() {
    let table = ServerConnections::new();
    for (mode, arg, time_check, wake_soon) in [
        (PICOQUIC_PACKET_LOOP_READY, true, true, false),
        (PICOQUIC_PACKET_LOOP_READY, false, false, false),
        (PICOQUIC_PACKET_LOOP_TIME_CHECK, true, false, true),
        (PICOQUIC_PACKET_LOOP_TIME_CHECK, false, false, false),
        (1, true, false, false),
    ] {
        match table.loop_start(mode, arg) {
            ServerStage::Answer {
                time_check: check,
                wake_soon: soon,
            } => assert_eq!((check, soon), (time_check, wake_soon)),
            other => panic!("{:?}", other),
        }
    }
}

#[test]
fn drain_sends_every_queue_in_order() {
    let mut table = ServerConnections::new();
    accepted(&mut table, 1, 0);
    accepted(&mut table, 2, 8);
    let _ = table.on_event(3, 0, Event::picoquic_callback_ready, b"");
    for mode in [
        PICOQUIC_PACKET_LOOP_AFTER_RECEIVE,
        PICOQUIC_PACKET_LOOP_AFTER_SEND,
    ] {
        let mut queues: HashMap<u64, VecDeque<Vec<u8>>> = HashMap::new();
        queues.insert(1, VecDeque::from(vec![b"a".to_vec(), b"".to_vec()]));
        queues.insert(2, VecDeque::from(vec![b"b".to_vec(), b"c".to_vec()]));
        queues.insert(3, VecDeque::from(vec![b"never".to_vec()]));
        let mut drain = match table.loop_start(mode, false) {
            ServerStage::Drain(drain) => drain,
            other => panic!("{:?}", other),
        };
        let mut sent: HashMap<u64, Vec<(u64, Vec<u8>, bool)>> = HashMap::new();
        let mut wakes: HashMap<u64, usize> = HashMap::new();
        let mut step = drain.step(DrainEvent::Begin);
        loop {
            step = match step {
                DrainStep::TryRecv { cnx, wake } => {
                    *wakes.entry(cnx).or_default() += wake as usize;
                    let event = match queues.get_mut(&cnx).unwrap().pop_front() {
                        Some(data) => DrainEvent::Received(data),
                        None => DrainEvent::NoMore,
                    };
                    drain.step(event)
                }
                DrainStep::AddToStream {
                    cnx,
                    stream_id,
                    fin,
                } => {
                    sent.entry(cnx)
                        .or_default()
                        .push((stream_id, drain.outgoing().clone(), fin));
                    drain.step(DrainEvent::Added)
                }
                DrainStep::Done => break,
            }
        }
        assert_eq!(
            sent[&1],
            vec![(0, b"a".to_vec(), false), (0, b"".to_vec(), true)]
        );
        assert_eq!(
            sent[&2],
            vec![(8, b"b".to_vec(), false), (8, b"c".to_vec(), false)]
        );
        assert!(!sent.contains_key(&3));
        assert_eq!(queues[&3].len(), 1);
        assert_eq!((wakes[&1], wakes[&2]), (2, 2));
    }
}

#[test]
fn drain_of_no_connections_is_done_at_once() {
    let mut drain = ServerDrain::new(vec![]);
    assert_eq!(drain.step(DrainEvent::Begin), DrainStep::Done);
    assert_eq!(drain.step(DrainEvent::NoMore), DrainStep::Done);
    assert_eq!(drain.step(DrainEvent::Received(vec![1])), DrainStep::Done);
}

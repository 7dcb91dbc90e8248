use proxy_server::client_bridge::{ClientBridge, LoopEvent, LoopStep, StreamStep};
use proxy_server::picoquic::picoquic_call_back_event_t as Event;
use proxy_server::picoquic::{
    PICOQUIC_NO_ERROR_TERMINATE_PACKET_LOOP, PICOQUIC_PACKET_LOOP_AFTER_RECEIVE,
    PICOQUIC_PACKET_LOOP_AFTER_SEND, PICOQUIC_PACKET_LOOP_READY, PICOQUIC_PACKET_LOOP_TIME_CHECK,
};
use std::collections::VecDeque;

/// A stage of the packet loop, run against a queue and picoquic's answers.
struct Outside {
    queue: VecDeque<Vec<u8>>,
    closed: bool,
    answers: VecDeque<i32>,
    added: Vec<(Vec<u8>, bool)>,
    wakes: usize,
}

impl Outside {
    fn new(queue: &[&[u8]]) -> Outside {
        Outside {
            queue: queue.iter().map(|e| e.to_vec()).collect(),
            closed: false,
            answers: VecDeque::new(),
            added: Vec::new(),
            wakes: 0,
        }
    }

    fn run(&mut self, bridge: &mut ClientBridge, mode: i32) -> LoopStep {
        let mut step = bridge.loop_start(mode, true);
        loop {
            step = match step {
                LoopStep::TryRecv { wake } => {
                    self.wakes += wake as usize;
                    let event = match self.queue.pop_front() {
                        Some(data) => LoopEvent::Received(data),
                        None if self.closed => LoopEvent::Disconnected,
                        None => LoopEvent::Empty,
                    };
                    bridge.loop_resume(event)
                }
                LoopStep::AddToStream {
                    cnx,
                    stream_id,
                    fin,
                } => {
                    assert_eq!((cnx, stream_id), (77, 4));
                    self.added.push((bridge.outgoing().clone(), fin));
                    let code = self.answers.pop_front().unwrap_or(0);
                    bridge.loop_resume(LoopEvent::Added(code))
                }
                LoopStep::Return { wake, .. } => {
                    self.wakes += wake as usize;
                    return step;
                }
            }
        }
    }
}

fn answer(code: i32, wake_soon: bool, wake: bool) -> LoopStep {
    LoopStep::Return {
        code,
        time_check: false,
        wake_soon,
        wake,
    }
}

fn connected() -> ClientBridge {
    let mut bridge = ClientBridge::new();
    assert!(matches!(
        bridge.on_event(77, Event::picoquic_callback_ready, &[]),
        StreamStep::OpenStream
    ));
    assert_eq!(bridge.on_stream_opened(4, 0), 0);
    bridge
}

#[test]
fn ready_loop_asks_for_time_checks() {
    let mut bridge = ClientBridge::new();
    assert_eq!(
        bridge.loop_start(PICOQUIC_PACKET_LOOP_READY, true),
        LoopStep::Return {
            code: 0,
            time_check: true,
            wake_soon: false,
            wake: false
        }
    );
    assert_eq!(
        bridge.loop_start(PICOQUIC_PACKET_LOOP_READY, false),
        answer(0, false, false)
    );
    assert_eq!(bridge.loop_start(1, true), answer(0, false, false));
}

#[test]
fn nothing_is_sent_before_the_stream_is_open() {
    let mut bridge = ClientBridge::new();
    let mut outside = Outside::new(&[b"a"]);
    for mode in [
        PICOQUIC_PACKET_LOOP_TIME_CHECK,
        PICOQUIC_PACKET_LOOP_AFTER_RECEIVE,
        PICOQUIC_PACKET_LOOP_AFTER_SEND,
    ] {
        assert_eq!(outside.run(&mut bridge, mode), answer(0, false, false));
    }
    assert_eq!(outside.queue.len(), 1);
    let _ = bridge.on_event(77, Event::picoquic_callback_ready, &[]);
    assert_eq!(bridge.on_stream_opened(4, 1), -1);
    assert_eq!(
        outside.run(&mut bridge, PICOQUIC_PACKET_LOOP_TIME_CHECK),
        answer(0, false, false)
    );
    assert_eq!(outside.queue.len(), 1);
}

#[test]
fn first_stream_of_a_client_counts_as_open() {
    let mut bridge = ClientBridge::new();
    let _ = bridge.on_event(77, Event::picoquic_callback_ready, &[]);
    assert_eq!(bridge.on_stream_opened(0, 0), 0);
    assert_eq!(
        bridge.loop_start(PICOQUIC_PACKET_LOOP_TIME_CHECK, true),
        LoopStep::TryRecv { wake: false }
    );
}

#[test]
fn time_check_takes_one_entry_and_wakes_soon() {
    let mut bridge = connected();
    let mut outside = Outside::new(&[b"a", b"b"]);
    assert_eq!(
        outside.run(&mut bridge, PICOQUIC_PACKET_LOOP_TIME_CHECK),
        answer(0, true, false)
    );
    assert_eq!(outside.queue.len(), 1);
    assert_eq!(
        outside.run(&mut bridge, PICOQUIC_PACKET_LOOP_TIME_CHECK),
        answer(0, true, false)
    );
    assert_eq!(outside.queue.len(), 1);
    assert!(outside.added.is_empty());
}

#[test]
fn time_check_with_nothing_to_send_lets_the_loop_sleep() {
    let mut bridge = connected();
    let mut outside = Outside::new(&[]);
    assert_eq!(
        outside.run(&mut bridge, PICOQUIC_PACKET_LOOP_TIME_CHECK),
        answer(0, false, false)
    );
    outside.closed = true;
    assert_eq!(
        outside.run(&mut bridge, PICOQUIC_PACKET_LOOP_TIME_CHECK),
        answer(0, false, false)
    );
}

#[test]
fn drain_needs_a_time_check_first() {
    let mut bridge = connected();
    let mut outside = Outside::new(&[b"a", b"b"]);
    assert_eq!(
        outside.run(&mut bridge, PICOQUIC_PACKET_LOOP_AFTER_SEND),
        answer(0, false, false)
    );
    assert_eq!(outside.queue.len(), 2);
    assert!(outside.added.is_empty());
}

#[test]
fn drain_sends_all_in_order() {
    let mut bridge = connected();
    let mut outside = Outside::new(&[b"a", b"bc", b"", b"d"]);
    let _ = outside.run(&mut bridge, PICOQUIC_PACKET_LOOP_TIME_CHECK);
    assert_eq!(
        outside.run(&mut bridge, PICOQUIC_PACKET_LOOP_AFTER_RECEIVE),
        answer(0, false, true)
    );
    assert_eq!(
        outside.added,
        vec![
            (b"a".to_vec(), false),
            (b"bc".to_vec(), false),
            (b"".to_vec(), true),
            (b"d".to_vec(), false),
        ]
    );
    assert_eq!(outside.wakes, 2);
}

#[test]
fn drain_ends_the_loop_when_the_writer_is_gone() {
    let mut bridge = connected();
    let mut outside = Outside::new(&[b"a"]);
    let _ = outside.run(&mut bridge, PICOQUIC_PACKET_LOOP_TIME_CHECK);
    outside.closed = true;
    assert_eq!(
        outside.run(&mut bridge, PICOQUIC_PACKET_LOOP_AFTER_SEND),
        answer(PICOQUIC_NO_ERROR_TERMINATE_PACKET_LOOP, false, false)
    );
    assert_eq!(PICOQUIC_NO_ERROR_TERMINATE_PACKET_LOOP, 1071);
    assert_eq!(outside.wakes, 1);
}

#[test]
fn refused_entry_is_offered_again() {
    let mut bridge = connected();
    let mut outside = Outside::new(&[b"a"]);
    let _ = outside.run(&mut bridge, PICOQUIC_PACKET_LOOP_TIME_CHECK);
    outside.answers.push_back(-1);
    let _ = outside.run(&mut bridge, PICOQUIC_PACKET_LOOP_AFTER_SEND);
    let _ = outside.run(&mut bridge, PICOQUIC_PACKET_LOOP_AFTER_SEND);
    assert_eq!(
        outside.added,
        vec![(b"a".to_vec(), false), (b"a".to_vec(), false)]
    );
    let _ = outside.run(&mut bridge, PICOQUIC_PACKET_LOOP_AFTER_SEND);
    assert_eq!(outside.added.len(), 2);
}

#[test]
fn refused_later_entry_stops_the_drain() {
    let mut bridge = connected();
    let mut outside = Outside::new(&[b"a", b"b", b"c"]);
    let _ = outside.run(&mut bridge, PICOQUIC_PACKET_LOOP_TIME_CHECK);
    outside.answers = VecDeque::from(vec![0, 1]);
    assert_eq!(
        outside.run(&mut bridge, PICOQUIC_PACKET_LOOP_AFTER_SEND),
        answer(0, false, true)
    );
    assert_eq!(
        outside.added,
        vec![(b"a".to_vec(), false), (b"b".to_vec(), false)]
    );
    assert_eq!(outside.queue, VecDeque::from(vec![b"c".to_vec()]));
}

#[test]
fn stages_send_what_is_written_in_order() {
    let mut bridge = connected();
    let mut outside = Outside::new(&[b"1"]);
    for round in 2..6u8 {
        let _ = outside.run(&mut bridge, PICOQUIC_PACKET_LOOP_TIME_CHECK);
        outside.queue.push_back(vec![b'0' + round]);
        let _ = outside.run(&mut bridge, PICOQUIC_PACKET_LOOP_AFTER_RECEIVE);
        let _ = outside.run(&mut bridge, PICOQUIC_PACKET_LOOP_AFTER_SEND);
    }
    let sent: Vec<u8> = outside.added.iter().flat_map(|(d, _)| d.clone()).collect();
    let waiting: Vec<u8> = outside.queue.iter().flatten().copied().collect();
    assert_eq!([sent, waiting].concat(), b"12345".to_vec());
}

#[test]
fn events_reach_the_reader() {
    let mut bridge = connected();
    match bridge.on_event(77, Event::picoquic_callback_stream_data, b"xy") {
        StreamStep::Deliver(bytes) => assert_eq!(bytes, b"xy"),
        other => panic!("{:?}", other),
    }
    assert!(matches!(
        bridge.on_event(77, Event::picoquic_callback_stream_data, b""),
        StreamStep::Nothing
    ));
    for event in [
        Event::picoquic_callback_stream_fin,
        Event::picoquic_callback_stream_reset,
        Event::picoquic_callback_stop_sending,
    ] {
        match bridge.on_event(77, event, b"z") {
            StreamStep::Deliver(bytes) => assert!(bytes.is_empty()),
            other => panic!("{:?}", other),
        }
        assert!(!bridge.disconnected());
    }
    assert!(matches!(
        bridge.on_event(77, Event::picoquic_callback_datagram, b"z"),
        StreamStep::Nothing
    ));
}

#[test]
fn closing_events_disconnect() {
    for event in [
        Event::picoquic_callback_close,
        Event::picoquic_callback_application_close,
        Event::picoquic_callback_stateless_reset,
    ] {
        let mut bridge = connected();
        match bridge.on_event(77, event, b"") {
            StreamStep::Deliver(bytes) => assert!(bytes.is_empty()),
            other => panic!("{:?}", other),
        }
        assert!(bridge.disconnected());
    }
}

use proxy_server::relay::{after_echo, Relay, RelayEvent, RelayStep, BUFFER_SIZE};

#[test]
fn relay_copies_and_counts() {
    assert_eq!(BUFFER_SIZE, 8192);
    let mut relay = Relay::new();
    let mut out: Vec<u8> = Vec::new();
    for chunk in [b"abc".to_vec(), b"d".to_vec()] {
        match relay.next(RelayEvent::Read(chunk)) {
            RelayStep::Write(bytes) => out.extend(bytes),
            other => panic!("{:?}", other),
        }
        assert!(matches!(
            relay.next(RelayEvent::Written),
            RelayStep::Flush
        ));
        assert!(relay.can_count());
        assert!(matches!(relay.next(RelayEvent::Flushed), RelayStep::Read));
    }
    assert!(matches!(
        relay.next(RelayEvent::Read(vec![])),
        RelayStep::Finish(4)
    ));
    assert_eq!(out, b"abcd");
}

#[test]
fn relay_fails_with_its_calls() {
    let mut relay = Relay::new();
    assert!(matches!(relay.next(RelayEvent::Failed), RelayStep::Fail));
    let mut relay = Relay::new();
    let _ = relay.next(RelayEvent::Read(vec![1]));
    assert!(matches!(relay.next(RelayEvent::Failed), RelayStep::Fail));
}

#[test]
fn empty_reader_copies_nothing() {
    let mut relay = Relay::new();
    assert!(matches!(
        relay.next(RelayEvent::Read(vec![])),
        RelayStep::Finish(0)
    ));
}

#[test]
fn echo_writes_back_what_it_reads() {
    match after_echo(RelayEvent::Read(vec![5, 6])) {
        RelayStep::Write(bytes) => assert_eq!(bytes, vec![5, 6]),
        other => panic!("{:?}", other),
    }
    assert!(matches!(after_echo(RelayEvent::Written), RelayStep::Flush));
    assert!(matches!(after_echo(RelayEvent::Flushed), RelayStep::Read));
    assert!(matches!(
        after_echo(RelayEvent::Read(vec![])),
        RelayStep::Finish(0)
    ));
    assert!(matches!(after_echo(RelayEvent::Failed), RelayStep::Fail));
}

/// Echoes `input` in chunks of `size`, with the `fails`-th call failing if any.
/// Gives what was written and whether the echo came to its end.
fn echo(input: &[u8], size: usize, fails: Option<usize>) -> (Vec<u8>, bool) {
    let mut chunks: Vec<Vec<u8>> = input.chunks(size).rev().map(|c| c.to_vec()).collect();
    let mut written = Vec::new();
    let mut step = RelayStep::Read;
    let mut calls = 0;
    loop {
        let failed = fails == Some(calls);
        calls += 1;
        step = match step {
            RelayStep::Finish(_) => return (written, true),
            RelayStep::Fail => return (written, false),
            _ if failed => after_echo(RelayEvent::Failed),
            RelayStep::Read => after_echo(RelayEvent::Read(chunks.pop().unwrap_or_default())),
            RelayStep::Write(bytes) => {
                written.extend(bytes);
                after_echo(RelayEvent::Written)
            }
            RelayStep::Flush => after_echo(RelayEvent::Flushed),
        };
    }
}

#[test]
fn echo_gives_back_what_it_gets() {
    assert_eq!(echo(b"abcdefg", 3, None), (b"abcdefg".to_vec(), true));
    assert_eq!(echo(b"", 3, None), (vec![], true));
    assert_eq!(echo(b"abcdefg", 3, Some(0)), (vec![], false));
    assert_eq!(echo(b"abcdefg", 3, Some(3)), (b"abc".to_vec(), false));
    assert_eq!(echo(b"abcdefg", 3, Some(5)), (b"abcdef".to_vec(), false));
}

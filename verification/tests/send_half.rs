use proxy_server::send_half::{
    copy_of, end_mark, SlipstreamSendHalf, TrySend, WakePoll, WriteStep,
};

#[test]
fn write_is_queued_at_once() {
    let mut half = SlipstreamSendHalf::new();
    let len = match half.start_write(&[1, 2, 3]) {
        WriteStep::TrySend { data, len } => {
            assert_eq!(data, vec![1, 2, 3]);
            len
        }
        other => panic!("{:?}", other),
    };
    assert!(matches!(
        half.after_send(len, TrySend::Sent),
        WriteStep::Written(3)
    ));
}

#[test]
fn full_queue_holds_the_data_until_woken() {
    let mut half = SlipstreamSendHalf::new();
    let _ = half.start_write(&[1, 2, 3]);
    assert!(matches!(
        half.after_send(3, TrySend::Full(vec![1, 2, 3])),
        WriteStep::PollWake
    ));
    match half.after_wake(WakePoll::Woken) {
        WriteStep::TrySend { data, len } => {
            assert_eq!(data, vec![1, 2, 3]);
            assert_eq!(len, 3);
        }
        other => panic!("{:?}", other),
    }
    assert!(matches!(
        half.after_send(3, TrySend::Sent),
        WriteStep::Written(3)
    ));
}

#[test]
fn waiting_write_goes_before_the_next_buffer() {
    let mut half = SlipstreamSendHalf::new();
    let _ = half.start_write(&[1, 2, 3]);
    let _ = half.after_send(3, TrySend::Full(vec![1, 2, 3]));
    assert!(matches!(
        half.after_wake(WakePoll::Pending),
        WriteStep::Pending
    ));
    match half.start_write(&[9]) {
        WriteStep::TrySend { data, len } => {
            assert_eq!(data, vec![1, 2, 3]);
            assert_eq!(len, 3);
        }
        other => panic!("{:?}", other),
    }
}

#[test]
fn held_length_is_that_of_the_data() {
    let mut half = SlipstreamSendHalf::new();
    let _ = half.start_write(&[4, 5]);
    let _ = half.after_send(2, TrySend::Full(vec![4, 5]));
    match half.start_write(&[]) {
        WriteStep::TrySend { data, len } => assert_eq!(data.len(), len),
        other => panic!("{:?}", other),
    }
}

#[test]
fn lost_queue_breaks_the_pipe() {
    let mut half = SlipstreamSendHalf::new();
    let _ = half.start_write(&[1]);
    assert!(matches!(
        half.after_send(1, TrySend::Disconnected),
        WriteStep::BrokenPipe
    ));
}

#[test]
fn lost_wake_signal_resets_the_connection() {
    let mut half = SlipstreamSendHalf::new();
    let _ = half.start_write(&[1]);
    let _ = half.after_send(1, TrySend::Full(vec![1]));
    assert!(matches!(
        half.after_wake(WakePoll::Closed),
        WriteStep::ConnectionReset
    ));
}

#[test]
fn copies_and_end_mark() {
    assert_eq!(copy_of(&[7, 0, 7]), vec![7, 0, 7]);
    assert_eq!(copy_of(&[]), Vec::<u8>::new());
    assert_eq!(end_mark(), Vec::<u8>::new());
}

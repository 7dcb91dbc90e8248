use proxy_server::load::{
    exit_code, failures, frame_len, message_limit, payload, LoadClient, LoadStats, LoadStep,
};

fn header(client: &LoadClient) -> String {
    match client.next(false) {
        LoadStep::Send(bytes) => String::from_utf8(bytes).unwrap(),
        LoadStep::Stop => panic!("stopped"),
    }
}

#[test]
fn payload_counts_up() {
    let bytes = payload(600);
    assert_eq!(bytes.len(), 600);
    assert_eq!((bytes[0], bytes[255], bytes[256], bytes[599]), (0, 255, 0, 87));
    assert_eq!(payload(0), Vec::<u8>::new());
    assert_eq!(frame_len(512), 528);
}

#[test]
fn header_is_padded_hex() {
    let mut client = LoadClient::new(255, None);
    assert_eq!(header(&client), "000000ff00000000");
    client.count();
    assert_eq!(header(&client), "000000ff00000001");
    client.sent = 0xabcdef01;
    assert_eq!(header(&client), "000000ffabcdef01");
    assert_eq!(header(&client).len(), 16);
    client.sent = 0x1_2345_6789;
    assert_eq!(header(&client), format!("{:08x}{:08x}", 255, 0x1_2345_6789u64));
    assert_eq!(header(&client).len(), 17);
}

#[test]
fn headers_tell_messages_apart() {
    let mut all: Vec<String> = Vec::new();
    for id in 0..20 {
        let mut client = LoadClient::new(id, Some(20));
        while let LoadStep::Send(bytes) = client.next(false) {
            let text = String::from_utf8(bytes).unwrap();
            assert!(!all.contains(&text));
            all.push(text);
            client.count();
        }
    }
    assert_eq!(all.len(), 400);
}

#[test]
fn client_sends_as_many_as_its_limit() {
    let mut client = LoadClient::new(1, Some(3));
    let mut sent = 0;
    while let LoadStep::Send(_) = client.next(false) {
        client.count();
        sent += 1;
    }
    assert_eq!(sent, 3);
    assert!(matches!(
        LoadClient::new(1, Some(0)).next(false),
        LoadStep::Stop
    ));
}

#[test]
fn client_stops_at_its_deadline() {
    assert!(matches!(
        LoadClient::new(1, None).next(true),
        LoadStep::Stop
    ));
    assert!(matches!(
        LoadClient::new(1, Some(9)).next(true),
        LoadStep::Stop
    ));
}

#[test]
fn duration_lifts_the_limit() {
    assert_eq!(message_limit(Some(3), 100), None);
    assert_eq!(message_limit(None, 100), Some(100));
}

#[test]
fn statistics() {
    let mut stats = LoadStats::new();
    stats.record_sent();
    stats.record_sent();
    stats.record_reply(7);
    assert_eq!(
        stats,
        LoadStats {
            sent: 2,
            received: 1,
            latency_ms: 7,
            latency_count: 1
        }
    );
    stats.latency_ms = u64::MAX;
    stats.record_reply(2);
    assert_eq!(stats.latency_ms, 1);
}

#[test]
fn failed_clients_fail_the_test() {
    assert_eq!(failures(&[]), 0);
    assert_eq!(failures(&[true, false, true]), 2);
    assert_eq!(exit_code(0), 0);
    assert_eq!(exit_code(2), 1);
}

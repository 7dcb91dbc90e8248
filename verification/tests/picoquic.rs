use proxy_server::picoquic::picoquic_call_back_event_t as Event;
use proxy_server::picoquic::{
    get_openssl_last_error, get_tls_fail_detail, packet_loop_time_check_arg_t,
    picoquic_packet_loop_options_t,
};

#[test]
fn event_codes() {
    assert_eq!(
        Event::from_code(0),
        Some(Event::picoquic_callback_stream_data)
    );
    assert_eq!(Event::from_code(5), Some(Event::picoquic_callback_close));
    assert_eq!(Event::from_code(10), Some(Event::picoquic_callback_ready));
    assert_eq!(
        Event::from_code(25),
        Some(Event::picoquic_callback_app_wakeup)
    );
    assert_eq!(Event::from_code(26), None);
    assert_eq!(Event::from_code(-1), None);
    let all: Vec<Event> = (0..26).map(|code| Event::from_code(code).unwrap()).collect();
    for i in 0..26 {
        for j in 0..i {
            assert_ne!(all[i], all[j]);
        }
    }
}

#[test]
fn loop_arguments() {
    let mut options = picoquic_packet_loop_options_t { _flags: 6 };
    options.request_time_check();
    assert_eq!(options._flags, 1);
    let mut arg = packet_loop_time_check_arg_t {
        current_time: 9,
        delta_t: 1_000_000,
    };
    arg.wake_soon();
    assert_eq!((arg.current_time, arg.delta_t), (9, 2000));
}

#[test]
fn openssl_error_text() {
    assert_eq!(get_openssl_last_error(None), None);
    assert_eq!(get_openssl_last_error(Some(String::new())), None);
    assert_eq!(get_openssl_last_error(Some(" \t\r\n".to_string())), None);
    for c in "\u{9}\u{b}\u{c}\u{85}\u{a0}\u{1680}\u{2000}\u{200a}\u{2028}\u{2029}\u{202f}\u{205f}\u{3000}".chars() {
        assert_eq!(get_openssl_last_error(Some(c.to_string())), None);
    }
    for c in "a\u{8}\u{e}\u{180e}\u{200b}\u{feff}".chars() {
        assert_eq!(get_openssl_last_error(Some(c.to_string())), Some(c.to_string()));
    }
    for c in (0..=0x10ffff).filter_map(char::from_u32) {
        let code = c as u32;
        let white = matches!(code, 0x9..=0xd | 0x20 | 0x85 | 0xa0 | 0x1680 | 0x2000..=0x200a)
            || matches!(code, 0x2028 | 0x2029 | 0x202f | 0x205f | 0x3000);
        assert_eq!(c.is_whitespace(), white);
    }
    assert_eq!(
        get_openssl_last_error(Some(" no start line\n".to_string())),
        Some(" no start line\n".to_string())
    );
}

#[test]
fn tls_failure_text() {
    assert_eq!(get_tls_fail_detail(None), None);
    assert_eq!(get_tls_fail_detail(Some(String::new())), None);
    assert_eq!(get_tls_fail_detail(Some("success".to_string())), None);
    assert_eq!(
        get_tls_fail_detail(Some("success ".to_string())),
        Some("success ".to_string())
    );
    assert_eq!(
        get_tls_fail_detail(Some("cert_load: a.pem".to_string())),
        Some("cert_load: a.pem".to_string())
    );
}

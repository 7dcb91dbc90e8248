use proxy_server::{default_kcp_config, kcp_config_with};
use std::time::Duration;

#[test]
fn default_config_builds() {
    let _ = default_kcp_config();
}

#[test]
fn default_config_is_for_low_latency() {
    let c = default_kcp_config();
    assert_eq!(c.mtu, 1400);
    assert_eq!((c.snd_wnd, c.rcv_wnd), (128, 128));
    assert!(c.nodelay.nodelay);
    assert_eq!(c.nodelay.interval, 8);
    assert_eq!(c.nodelay.resend, 2);
    assert!(!c.nodelay.no_congestion_control);
    assert_eq!(c.max_retries, 20);
    assert!(c.stream_mode);
    assert_eq!(c.connect_timeout, Duration::from_secs(10));
    assert_eq!(c.keep_alive, Some(Duration::from_secs(30)));
    assert_eq!(c.socket_buffer_size, None);
    assert!(c.simulate_packet_loss.is_none());
    assert_eq!(c.max_pending_connections, 256);
    assert_eq!(c.cleanup_interval, Duration::from_secs(30));
}

#[test]
fn settings_are_overridden_one_by_one() {
    let c = kcp_config_with(Some(64), None, None);
    assert_eq!((c.snd_wnd, c.rcv_wnd, c.mtu), (64, 64, 1400));
    assert_eq!(c.connect_timeout, Duration::from_secs(10));
    let c = kcp_config_with(None, Some(1200), None);
    assert_eq!((c.snd_wnd, c.rcv_wnd, c.mtu), (128, 128, 1200));
    let c = kcp_config_with(None, None, Some(3));
    assert_eq!((c.snd_wnd, c.rcv_wnd, c.mtu), (128, 128, 1400));
    assert_eq!(c.connect_timeout, Duration::from_secs(3));
    let c = kcp_config_with(Some(0), Some(0), Some(0));
    assert_eq!((c.snd_wnd, c.rcv_wnd, c.mtu), (0, 0, 0));
    assert_eq!(c.connect_timeout, Duration::ZERO);
}

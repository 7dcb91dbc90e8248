//! The KCP configuration of the proxy.

use kcp_tokio::config::NodeDelayConfig;
use kcp_tokio::KcpConfig;
use std::time::Duration;
use vstd::prelude::*;

verus! {

/// The send and receive window, unless told otherwise.
pub const DEFAULT_WINDOW: u32 = 128;

/// The maximum transmission unit, unless told otherwise.
pub const DEFAULT_MTU: u32 = 1400;

/// The time to connect in, in seconds, unless told otherwise.
pub const DEFAULT_CONNECT_TIMEOUT_SECS: u64 = 10;

/// `kcp_tokio::config::NodeDelayConfig`, whose fields are all public.
#[verifier::external_type_specification]
pub struct ExNodeDelayConfig(NodeDelayConfig);

/// `kcp_tokio::KcpConfig`, whose fields are all public.
#[verifier::external_type_specification]
pub struct ExKcpConfig(KcpConfig);

/// The length of a span of time, in nanoseconds.
pub uninterp spec fn duration_nanos(d: Duration) -> nat;

/// A number of seconds, in nanoseconds.
pub open spec fn secs(n: nat) -> nat {
    n * 1_000_000_000
}

/// `Duration::from_secs` makes a span of the given number of whole seconds.
pub assume_specification[ Duration::from_secs ](n: u64) -> (d: Duration)
    ensures
        duration_nanos(d) == secs(n as nat),
;

/// Whether `c` is the configuration that kcp-tokio starts from.
pub open spec fn is_kcp_default(c: KcpConfig) -> bool {
    &&& c.mtu == 1400
    &&& c.snd_wnd == 32
    &&& c.rcv_wnd == 128
    &&& c.nodelay == (NodeDelayConfig {
        nodelay: false,
        interval: 40,
        resend: 0,
        no_congestion_control: false,
    })
    &&& c.max_retries == 20
    &&& !c.stream_mode
    &&& duration_nanos(c.connect_timeout) == secs(10)
    &&& c.keep_alive matches Some(interval) && duration_nanos(interval) == secs(30)
    &&& c.socket_buffer_size is None
    &&& c.simulate_packet_loss is None
    &&& c.max_pending_connections == 256
    &&& duration_nanos(c.cleanup_interval) == secs(30)
}

/// `KcpConfig::new` makes kcp-tokio's default configuration.
pub assume_specification[ KcpConfig::new ]() -> (c: KcpConfig)
    ensures
        is_kcp_default(c),
;

/// `KcpConfig::fast_mode` sets the node delay settings to those for low latency
/// and keeps the rest.
pub assume_specification[ KcpConfig::fast_mode ](config: KcpConfig) -> (c: KcpConfig)
    ensures
        c == (KcpConfig {
            nodelay: NodeDelayConfig {
                nodelay: true,
                interval: 8,
                resend: 2,
                no_congestion_control: false,
            },
            ..config
        }),
;

/// `KcpConfig::window_size` sets the two windows and keeps the rest.
pub assume_specification[ KcpConfig::window_size ](
    config: KcpConfig,
    snd_wnd: u32,
    rcv_wnd: u32,
) -> (c: KcpConfig)
    ensures
        c == (KcpConfig { snd_wnd, rcv_wnd, ..config }),
;

/// `KcpConfig::mtu` sets the maximum transmission unit and keeps the rest.
pub assume_specification[ KcpConfig::mtu ](config: KcpConfig, mtu: u32) -> (c: KcpConfig)
    ensures
        c == (KcpConfig { mtu, ..config }),
;

/// `KcpConfig::connect_timeout` sets the time to connect in and keeps the rest.
pub assume_specification[ KcpConfig::connect_timeout ](
    config: KcpConfig,
    timeout: Duration,
) -> (c: KcpConfig)
    ensures
        c == (KcpConfig { connect_timeout: timeout, ..config }),
;

/// `KcpConfig::stream_mode` switches stream mode on or off and keeps the rest.
pub assume_specification[ KcpConfig::stream_mode ](config: KcpConfig, enabled: bool) -> (c:
    KcpConfig)
    ensures
        c == (KcpConfig { stream_mode: enabled, ..config }),
;

/// Whether `c` is the proxy's configuration with the given window, MTU and time
/// to connect in: fast mode, stream mode, one window for sending and receiving,
/// and otherwise what kcp-tokio starts from.
pub open spec fn is_proxy_config(c: KcpConfig, window: u32, mtu: u32, timeout_secs: u64) -> bool {
    &&& c.mtu == mtu
    &&& c.snd_wnd == window
    &&& c.rcv_wnd == window
    &&& c.nodelay == (NodeDelayConfig {
        nodelay: true,
        interval: 8,
        resend: 2,
        no_congestion_control: false,
    })
    &&& c.max_retries == 20
    &&& c.stream_mode
    &&& duration_nanos(c.connect_timeout) == secs(timeout_secs as nat)
    &&& c.keep_alive matches Some(interval) && duration_nanos(interval) == secs(30)
    &&& c.socket_buffer_size is None
    &&& c.simulate_packet_loss is None
    &&& c.max_pending_connections == 256
    &&& duration_nanos(c.cleanup_interval) == secs(30)
}

/// `given`, or else `default`.
pub open spec fn given_or<T>(given: Option<T>, default: T) -> T {
    match given {
        Some(value) => value,
        None => default,
    }
}

/// The proxy's KCP configuration, for low latency and reliable delivery.
pub fn default_kcp_config() -> (c: KcpConfig)
    ensures
        is_proxy_config(c, DEFAULT_WINDOW, DEFAULT_MTU, DEFAULT_CONNECT_TIMEOUT_SECS),
{
    kcp_config_with(None, None, None)
}

/// The proxy's KCP configuration with some settings overridden: the window for
/// sending and receiving, the MTU, and the time to connect in.
pub fn kcp_config_with(
    window: Option<u32>,
    mtu: Option<u32>,
    connect_timeout_secs: Option<u64>,
) -> (c: KcpConfig)
    ensures
        is_proxy_config(
            c,
            given_or(window, DEFAULT_WINDOW),
            given_or(mtu, DEFAULT_MTU),
            given_or(connect_timeout_secs, DEFAULT_CONNECT_TIMEOUT_SECS),
        ),
{
    let w: u32 = window.unwrap_or(DEFAULT_WINDOW);
    let mtu: u32 = mtu.unwrap_or(DEFAULT_MTU);
    let timeout = Duration::from_secs(
        connect_timeout_secs.unwrap_or(DEFAULT_CONNECT_TIMEOUT_SECS),
    );
    KcpConfig::new().fast_mode().window_size(w, w).mtu(mtu).connect_timeout(timeout).stream_mode(
        true,
    )
}

/// A configuration has the window, for sending and for receiving alike, the MTU
/// and the time to connect in that it is made with, whichever they are; it is for
/// low latency and for streams.
pub proof fn law_settings_are_kept(c: KcpConfig, window: u32, mtu: u32, timeout_secs: u64)
    requires
        is_proxy_config(c, window, mtu, timeout_secs),
    ensures
        c.snd_wnd == window,
        c.rcv_wnd == window,
        c.mtu == mtu,
        duration_nanos(c.connect_timeout) == timeout_secs * 1_000_000_000,
        c.stream_mode,
        c.nodelay.nodelay && c.nodelay.interval == 8 && c.nodelay.resend == 2,
        !c.nodelay.no_congestion_control,
        c.max_retries == 20,
        c.max_pending_connections == 256,
        c.socket_buffer_size is None && c.simulate_packet_loss is None,
        c.keep_alive matches Some(interval) && duration_nanos(interval) == 30_000_000_000,
        duration_nanos(c.cleanup_interval) == 30_000_000_000,
{
}

/// A setting that is given is taken as it is, and only one that is not is the
/// default.
pub proof fn law_given_settings_win<T>(value: T, default: T)
    ensures
        given_or(Some(value), default) == value,
        given_or(None, default) == default,
{
}

} // verus!

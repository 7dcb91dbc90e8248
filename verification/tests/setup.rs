use proxy_server::paths::{short_path, temp_dir_name, PathStep};
use proxy_server::setup::{
    bridge_gone_text, connect_timeout_text, goes_on_after, is_c_string, trusted_root, wait_error,
    ClientSetup, ReadyWait, ServerSetup, TlsInit, CLIENT_CONNECTIONS, CONNECT_TIMEOUT_SECS,
    RECV_QUEUE, SEND_QUEUE, SERVER_CONNECTIONS, WAKE_QUEUE,
};

#[test]
fn c_strings_hold_no_zero() {
    assert!(is_c_string(b"proxy-server"));
    assert!(is_c_string(b""));
    assert!(!is_c_string(b"a\0"));
    assert!(!is_c_string(b"\0a"));
}

#[test]
fn sizes_and_times() {
    assert_eq!((CLIENT_CONNECTIONS, SERVER_CONNECTIONS), (1, 8));
    assert_eq!((RECV_QUEUE, SEND_QUEUE, WAKE_QUEUE), (256, 64, 64));
    assert_eq!(CONNECT_TIMEOUT_SECS, 30);
}

/// The steps of a client whose step `fails`, if any, does not work.
fn client_steps(fails: Option<ClientSetup>) -> Vec<ClientSetup> {
    let mut step = ClientSetup::first();
    let mut steps = vec![step];
    while step != ClientSetup::Finished {
        step = step.next(Some(step) != fails);
        steps.push(step);
    }
    steps
}

#[test]
fn client_runs_its_loop() {
    assert_eq!(
        client_steps(None),
        vec![
            ClientSetup::CheckHost,
            ClientSetup::CheckAlpn,
            ClientSetup::CheckServerName,
            ClientSetup::MakeContext,
            ClientSetup::Resolve,
            ClientSetup::CreateQuic,
            ClientSetup::CreateConnection,
            ClientSetup::StartConnection,
            ClientSetup::RunLoop,
            ClientSetup::FreeQuic,
            ClientSetup::ReclaimContext,
            ClientSetup::Finished,
        ]
    );
}

#[test]
fn client_cleans_up_whatever_fails() {
    for fails in client_steps(None) {
        let steps = client_steps(Some(fails));
        let made = steps.contains(&ClientSetup::CreateConnection);
        assert_eq!(steps.contains(&ClientSetup::FreeQuic), made);
        let context = steps.contains(&ClientSetup::MakeContext);
        assert_eq!(steps.contains(&ClientSetup::ReclaimContext), context);
    }
    assert_eq!(
        client_steps(Some(ClientSetup::CheckServerName)).last(),
        Some(&ClientSetup::Finished)
    );
    assert_eq!(
        ClientSetup::StartConnection.next(false),
        ClientSetup::FreeQuic
    );
}

fn server_steps(fails: &[ServerSetup]) -> Vec<ServerSetup> {
    let mut step = ServerSetup::first();
    let mut steps = vec![step];
    while step != ServerSetup::Finished {
        step = step.next(!fails.contains(&step));
        steps.push(step);
    }
    steps
}

#[test]
fn server_runs_its_loop() {
    assert_eq!(
        server_steps(&[]),
        vec![
            ServerSetup::InitTls,
            ServerSetup::ReadPem,
            ServerSetup::CopyPem,
            ServerSetup::CheckPaths,
            ServerSetup::MakeContext,
            ServerSetup::CreateQuic,
            ServerSetup::RunLoop,
            ServerSetup::FreeQuic,
            ServerSetup::Finished,
        ]
    );
}

#[test]
fn server_passes_unreadable_paths_on() {
    let steps = server_steps(&[ServerSetup::ReadPem]);
    assert!(!steps.contains(&ServerSetup::CopyPem));
    assert!(steps.contains(&ServerSetup::RunLoop));
}

#[test]
fn server_falls_back_to_its_own_certificate() {
    let steps = server_steps(&[ServerSetup::CreateQuic]);
    assert_eq!(
        &steps[5..],
        &[
            ServerSetup::CreateQuic,
            ServerSetup::MakeFallback,
            ServerSetup::CreateFallback,
            ServerSetup::RunLoop,
            ServerSetup::FreeQuic,
            ServerSetup::Finished,
        ]
    );
    for fallback in [ServerSetup::MakeFallback, ServerSetup::CreateFallback] {
        let steps = server_steps(&[ServerSetup::CreateQuic, fallback]);
        assert!(!steps.contains(&ServerSetup::RunLoop));
        assert!(steps.contains(&ServerSetup::ReclaimContext));
    }
}

#[test]
fn server_cleans_up_whatever_fails() {
    for fails in server_steps(&[ServerSetup::CreateQuic]) {
        let steps = server_steps(&[fails]);
        let ran = steps.contains(&ServerSetup::RunLoop);
        assert_eq!(steps.contains(&ServerSetup::FreeQuic), ran);
        let unused = steps.contains(&ServerSetup::MakeContext) && !ran;
        assert_eq!(steps.contains(&ServerSetup::ReclaimContext), unused);
    }
    let steps = server_steps(&[ServerSetup::CreateQuic, ServerSetup::CreateFallback]);
    assert!(steps.contains(&ServerSetup::ReclaimContext));
}

#[test]
fn server_gives_up_without_files_or_paths() {
    for fails in [ServerSetup::CopyPem, ServerSetup::CheckPaths] {
        assert_eq!(fails.next(false), ServerSetup::Finished);
    }
}

#[test]
fn warm_up_frees_what_it_made() {
    let mut step = TlsInit::first();
    let mut steps = vec![step];
    while step != TlsInit::Finished {
        step = step.next(true);
        steps.push(step);
    }
    assert_eq!(
        steps,
        vec![
            TlsInit::InitTls,
            TlsInit::CheckAlpn,
            TlsInit::MakePem,
            TlsInit::CheckPaths,
            TlsInit::CreateQuic,
            TlsInit::FreeQuic,
            TlsInit::Finished,
        ]
    );
    assert_eq!(TlsInit::InitTls.next(false), TlsInit::CheckAlpn);
    for fails in [
        TlsInit::CheckAlpn,
        TlsInit::MakePem,
        TlsInit::CheckPaths,
        TlsInit::CreateQuic,
    ] {
        assert_eq!(fails.next(false), TlsInit::Finished);
    }
}

#[test]
fn client_goes_on_only_when_its_connection_is_ready() {
    assert!(goes_on_after(ReadyWait::Signalled));
    assert!(!goes_on_after(ReadyWait::BridgeGone));
    assert!(!goes_on_after(ReadyWait::TimedOut));
    assert_eq!(wait_error(ReadyWait::Signalled), None);
    assert_eq!(
        wait_error(ReadyWait::BridgeGone),
        Some("slipstream-picoquic connection failed".to_string())
    );
    assert_eq!(
        wait_error(ReadyWait::TimedOut),
        Some("slipstream-picoquic connection timeout (30s)".to_string())
    );
    assert_eq!(bridge_gone_text(), "slipstream-picoquic connection failed");
    assert_eq!(
        connect_timeout_text(),
        "slipstream-picoquic connection timeout (30s)"
    );
}

#[test]
fn server_name_that_is_no_c_string_is_not_connected_to() {
    assert!(!is_c_string(b"a\0b"));
    assert_eq!(ClientSetup::CheckServerName.next(false), ClientSetup::Finished);
    assert!(wait_error(ReadyWait::BridgeGone).is_some());
}

#[test]
fn trusted_root_is_a_c_string_or_none() {
    assert_eq!(trusted_root(None), None);
    assert_eq!(
        trusted_root(Some(b"/tmp/a.pem".to_vec())),
        Some(b"/tmp/a.pem".to_vec())
    );
    assert_eq!(trusted_root(Some(b"/tmp/a\0.pem".to_vec())), None);
    assert_eq!(trusted_root(Some(vec![])), Some(vec![]));
}

#[test]
fn paths_for_the_tls_library() {
    assert_eq!(PathStep::start(false, true), PathStep::Given);
    assert_eq!(PathStep::start(false, false), PathStep::Given);
    assert_eq!(PathStep::start(true, true), PathStep::Canonicalize);
    assert_eq!(PathStep::start(true, false), PathStep::MeasureShort);
    assert_eq!(PathStep::after_canonicalize(true), PathStep::Canonical);
    assert_eq!(PathStep::after_canonicalize(false), PathStep::Given);
    assert_eq!(PathStep::after_measure(0), PathStep::Given);
    assert_eq!(
        PathStep::after_measure(12),
        PathStep::ReadShort { room: 13 }
    );
    assert_eq!(PathStep::after_read(0), PathStep::Given);
    assert_eq!(
        PathStep::after_read(11),
        PathStep::Short { written: 11 }
    );
}

#[test]
fn short_path_is_cut_to_what_was_written() {
    assert_eq!(short_path(vec![67, 58, 92, 0, 0], 3), vec![67, 58, 92]);
    assert_eq!(short_path(vec![67, 58], 9), vec![67, 58]);
    assert_eq!(temp_dir_name(true), "proxy_server_picoquic_temp");
    assert_eq!(temp_dir_name(false), "proxy_server_picoquic");
}

use proxy_server::text::{contains_text, joined, same_text};
use proxy_server::transport::Transport;

#[test]
fn kcp_is_the_default() {
    assert_eq!(Transport::default(), Transport::KcpTokio);
}

#[test]
fn names_stand_for_transports() {
    for name in ["kcp-tokio", "kcptokio", "kcp", "KCP", "Kcp-Tokio"] {
        assert_eq!(name.parse::<Transport>(), Ok(Transport::KcpTokio));
    }
    for name in ["quinn", "quic", "QUIC", "Quinn"] {
        assert_eq!(name.parse::<Transport>(), Ok(Transport::Quinn));
    }
    for name in ["slipstream-picoquic", "slipstream", "picoquic", "PicoQUIC"] {
        assert_eq!(
            Transport::from_str_with(name, true),
            Ok(Transport::SlipstreamPicoQuic)
        );
    }
}

#[test]
fn unknown_names_are_answered() {
    assert_eq!(
        "Tcp".parse::<Transport>(),
        Err("unknown transport 'Tcp'; use kcp-tokio or quinn".to_string())
    );
    assert_eq!(
        "".parse::<Transport>(),
        Err("unknown transport ''; use kcp-tokio or quinn".to_string())
    );
    assert_eq!(
        Transport::from_str_with("my-picoquic", true),
        Err(
            "unknown transport 'my-picoquic'; use kcp-tokio, quinn, or slipstream-picoquic"
                .to_string()
        )
    );
    assert_eq!(
        " quic".parse::<Transport>(),
        Err("unknown transport ' quic'; use kcp-tokio or quinn".to_string())
    );
}

#[test]
fn missing_picoquic_is_told() {
    for name in ["Slipstream", "picoquic", "slipstream-picoquic", "my-picoquic2"] {
        assert_eq!(
            name.parse::<Transport>(),
            Err(format!(
                "transport '{}' requires building with --features slipstream-picoquic; see README",
                name
            ))
        );
    }
}

#[test]
fn letters_outside_ascii_are_lowered_too() {
    // The Kelvin sign becomes an ordinary k.
    assert_eq!("\u{212A}CP".parse::<Transport>(), Ok(Transport::KcpTokio));
    assert_eq!(
        Transport::from_lowercase("\u{212A}CP", "kcp", false),
        Ok(Transport::KcpTokio)
    );
}

#[test]
fn available_names_stand_for_transports() {
    assert_eq!(Transport::available(), &["kcp-tokio", "quinn"]);
    assert_eq!(
        Transport::available_with(true),
        &["kcp-tokio", "quinn", "slipstream-picoquic"]
    );
    let all: Vec<Transport> = Transport::available_with(true)
        .iter()
        .map(|name| Transport::from_str_with(name, true).unwrap())
        .collect();
    assert_eq!(
        all,
        vec![
            Transport::KcpTokio,
            Transport::Quinn,
            Transport::SlipstreamPicoQuic
        ]
    );
    for name in Transport::available() {
        assert_eq!(
            name.parse::<Transport>(),
            Transport::from_str_with(name, true)
        );
    }
}

#[test]
fn texts_are_compared_searched_and_joined() {
    assert!(same_text("quic", "quic"));
    assert!(!same_text("quic", "quick"));
    assert!(contains_text("a picoquic b", "picoquic"));
    assert!(contains_text("quic", ""));
    assert!(contains_text("aab", "ab"));
    assert!(!contains_text("quic", "quick"));
    assert!(!contains_text("picoqui", "picoquic"));
    assert_eq!(joined("a", "\u{e4}", "b"), "a\u{e4}b");
}

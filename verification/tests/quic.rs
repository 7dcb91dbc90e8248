use proxy_server::quic::{
    alpn_protocol, pem_pair, quinn_client_config_for, quinn_server_config_for,
    quinn_server_config_from_der, quinn_server_config_of, quinn_server_config_over,
    self_signed_pem, self_signed_pem_of, subject_name, unverified_schemes, QuinnConfigError,
    VerifyScheme,
};
use proxy_server::transport::{quinn_client_config_with_cert, quinn_server_config};
use quinn::crypto::rustls::{HandshakeData, QuicClientConfig};
use quinn_proto::{Connection, ConnectionHandle, DatagramEvent, Dir, Endpoint, EndpointConfig};
use rustls::client::danger::{HandshakeSignatureValid, ServerCertVerified, ServerCertVerifier};
use rustls::pki_types::pem::PemObject;
use rustls::pki_types::{CertificateDer, PrivateKeyDer, ServerName, UnixTime};
use std::sync::Arc;
use std::time::Instant;

fn holds(whole: &[u8], part: &[u8]) -> bool {
    whole.windows(part.len()).any(|w| w == part)
}

#[test]
fn names_of_protocol_and_subject() {
    assert_eq!(alpn_protocol(), b"proxy-server".to_vec());
    assert_eq!(subject_name(), "localhost");
}

#[test]
fn server_identity_belongs_together() {
    let (_, cert, key) = quinn_server_config().ok().unwrap();
    let pair = rcgen::KeyPair::from_der(key.secret_der()).unwrap();
    assert!(holds(&cert, pair.public_key_raw()));
    assert!(holds(&cert, b"localhost"));
    let (_, other, _) = quinn_server_config().ok().unwrap();
    assert!(!holds(&other, pair.public_key_raw()));
}

#[test]
fn pem_identity_belongs_together() {
    let pem = self_signed_pem().ok().unwrap();
    let pair = rcgen::KeyPair::from_pem(&pem.key).unwrap();
    let cert = CertificateDer::from_pem_slice(pem.cert.as_bytes()).unwrap();
    assert!(holds(&cert, pair.public_key_raw()));
    assert!(holds(&cert, b"localhost"));
    let key = PrivateKeyDer::from_pem_slice(pem.key.as_bytes()).unwrap();
    assert!(quinn_server_config_for(&cert, &key).is_ok());
}

#[test]
fn foreign_key_is_refused() {
    let (_, cert, _) = quinn_server_config().ok().unwrap();
    let (_, _, key) = quinn_server_config().ok().unwrap();
    assert!(matches!(
        quinn_server_config_for(&cert, &key),
        Err(QuinnConfigError::Tls(_))
    ));
}

#[test]
fn malformed_certificate_is_not_trusted() {
    let cert = CertificateDer::from(vec![1, 2, 3]);
    assert!(matches!(
        quinn_client_config_with_cert(&cert),
        Err(QuinnConfigError::Tls(_))
    ));
    let (_, cert, _) = quinn_server_config().ok().unwrap();
    assert!(quinn_client_config_with_cert(&cert).is_ok());
}

#[test]
fn schemes_of_a_client_that_does_not_verify() {
    assert_eq!(
        unverified_schemes(),
        vec![
            VerifyScheme::EcdsaNistp256Sha256,
            VerifyScheme::EcdsaNistp384Sha384,
            VerifyScheme::Ed25519
        ]
    );
}

/// Takes any server.
#[derive(Debug)]
struct AnyServer;

impl ServerCertVerifier for AnyServer {
    fn verify_server_cert(
        &self,
        _: &CertificateDer<'_>,
        _: &[CertificateDer<'_>],
        _: &ServerName<'_>,
        _: &[u8],
        _: UnixTime,
    ) -> Result<ServerCertVerified, rustls::Error> {
        Ok(ServerCertVerified::assertion())
    }

    fn verify_tls12_signature(
        &self,
        _: &[u8],
        _: &CertificateDer<'_>,
        _: &rustls::DigitallySignedStruct,
    ) -> Result<HandshakeSignatureValid, rustls::Error> {
        Ok(HandshakeSignatureValid::assertion())
    }

    fn verify_tls13_signature(
        &self,
        _: &[u8],
        _: &CertificateDer<'_>,
        _: &rustls::DigitallySignedStruct,
    ) -> Result<HandshakeSignatureValid, rustls::Error> {
        Ok(HandshakeSignatureValid::assertion())
    }

    fn supported_verify_schemes(&self) -> Vec<rustls::SignatureScheme> {
        unverified_schemes()
            .into_iter()
            .map(|scheme| match scheme {
                VerifyScheme::EcdsaNistp256Sha256 => {
                    rustls::SignatureScheme::ECDSA_NISTP256_SHA256
                }
                VerifyScheme::EcdsaNistp384Sha384 => {
                    rustls::SignatureScheme::ECDSA_NISTP384_SHA384
                }
                VerifyScheme::Ed25519 => rustls::SignatureScheme::ED25519,
            })
            .collect()
    }
}

/// A TLS client that takes any server.
fn client_of_any_server() -> rustls::ClientConfig {
    rustls::ClientConfig::builder()
        .dangerous()
        .with_custom_certificate_verifier(Arc::new(AnyServer))
        .with_no_client_auth()
}

/// One side of a connection in memory.
struct Side {
    endpoint: Endpoint,
    connection: Option<(ConnectionHandle, Connection)>,
}

impl Side {
    /// Takes in a datagram from the other side.
    fn take(&mut self, now: Instant, datagram: &[u8]) {
        let mut buf = Vec::new();
        let from = "127.0.0.1:4433".parse().unwrap();
        match self.endpoint.handle(now, from, None, None, datagram.into(), &mut buf) {
            Some(DatagramEvent::NewConnection(incoming)) => {
                let accepted = self.endpoint.accept(incoming, now, &mut buf, None);
                self.connection = accepted.ok();
            }
            Some(DatagramEvent::ConnectionEvent(_, event)) => {
                if let Some((_, connection)) = &mut self.connection {
                    connection.handle_event(event);
                }
            }
            _ => {}
        }
    }

    /// The datagrams that this side has to send.
    fn give(&mut self, now: Instant) -> Vec<Vec<u8>> {
        let mut datagrams = Vec::new();
        if let Some((handle, connection)) = &mut self.connection {
            while let Some(event) = connection.poll_endpoint_events() {
                if let Some(event) = self.endpoint.handle_event(*handle, event) {
                    connection.handle_event(event);
                }
            }
            let mut buf = Vec::new();
            while let Some(transmit) = connection.poll_transmit(now, 1, &mut buf) {
                datagrams.push(buf[..transmit.size].to_vec());
                buf.clear();
            }
        }
        datagrams
    }

    /// The connection, if it is established.
    fn established(self) -> Option<Connection> {
        let (_, connection) = self.connection?;
        if connection.is_handshaking() || connection.is_closed() {
            None
        } else {
            Some(connection)
        }
    }
}

/// Connects a client to a server called `localhost`, both in memory. Gives the
/// client's and the server's connection if they are established.
fn connect(
    server: quinn::ServerConfig,
    client: quinn::ClientConfig,
) -> Option<(Connection, Connection)> {
    let now = Instant::now();
    let config = Arc::new(EndpointConfig::default());
    let mut server = Side {
        endpoint: Endpoint::new(config.clone(), Some(Arc::new(server)), false, None),
        connection: None,
    };
    let mut endpoint = Endpoint::new(config, None, false, None);
    let to = "127.0.0.1:4433".parse().unwrap();
    let connection = endpoint.connect(now, client, to, "localhost").unwrap();
    let mut client = Side {
        endpoint,
        connection: Some(connection),
    };
    for _ in 0..20 {
        for datagram in client.give(now) {
            server.take(now, &datagram);
        }
        for datagram in server.give(now) {
            client.take(now, &datagram);
        }
    }
    Some((client.established()?, server.established()?))
}

fn protocol_of(connection: &Connection) -> Option<Vec<u8>> {
    connection
        .crypto_session()
        .handshake_data()
        .unwrap()
        .downcast::<HandshakeData>()
        .unwrap()
        .protocol
}

/// A certificate that is valid for the server name `localhost`, and its key.
fn localhost_identity() -> (CertificateDer<'static>, PrivateKeyDer<'static>) {
    let made = rcgen::generate_simple_self_signed(vec!["localhost".to_string()]).unwrap();
    let cert = CertificateDer::from(made.serialize_der().unwrap());
    let key = PrivateKeyDer::try_from(made.serialize_private_key_der()).unwrap();
    (cert, key)
}

#[test]
fn server_shows_its_certificate_and_protocol() {
    let (config, cert, _) = quinn_server_config().ok().unwrap();
    let client = quinn_client_config_for(client_of_any_server()).ok().unwrap();
    let (client, server) = connect(config, client).unwrap();
    let shown = client
        .crypto_session()
        .peer_identity()
        .unwrap()
        .downcast::<Vec<CertificateDer<'static>>>()
        .unwrap();
    assert_eq!(*shown, vec![cert]);
    assert_eq!(protocol_of(&client), Some(alpn_protocol()));
    assert_eq!(protocol_of(&server), Some(alpn_protocol()));
}

#[test]
fn server_refuses_another_protocol() {
    let (config, _, _) = quinn_server_config().ok().unwrap();
    let mut tls = client_of_any_server();
    tls.alpn_protocols = vec![b"h3".to_vec()];
    let quic = QuicClientConfig::try_from(tls).unwrap();
    let client = quinn::ClientConfig::new(Arc::new(quic));
    assert!(connect(config, client).is_none());
}

#[test]
fn client_speaks_the_protocol_whatever_it_was_given() {
    let (config, _, _) = quinn_server_config().ok().unwrap();
    let mut tls = client_of_any_server();
    tls.alpn_protocols = vec![b"h3".to_vec()];
    let client = quinn_client_config_for(tls).ok().unwrap();
    let (client, _) = connect(config, client).unwrap();
    assert_eq!(protocol_of(&client), Some(alpn_protocol()));
}

#[test]
fn client_trusts_the_server_with_its_certificate() {
    let (cert, key) = localhost_identity();
    let config = quinn_server_config_for(&cert, &key).ok().unwrap();
    let client = quinn_client_config_with_cert(&cert).ok().unwrap();
    let (client, _) = connect(config, client).unwrap();
    assert_eq!(protocol_of(&client), Some(alpn_protocol()));
}

#[test]
fn client_looks_for_the_name_among_the_alternative_names() {
    let (config, cert, _) = quinn_server_config().ok().unwrap();
    let client = quinn_client_config_with_cert(&cert).ok().unwrap();
    assert!(connect(config, client).is_none());
}

#[test]
fn client_trusts_no_other_server() {
    let (cert, _) = localhost_identity();
    let (other, key) = localhost_identity();
    let config = quinn_server_config_for(&other, &key).ok().unwrap();
    let client = quinn_client_config_with_cert(&cert).ok().unwrap();
    assert!(connect(config, client).is_none());
}

#[test]
fn server_takes_no_unidirectional_streams() {
    let (config, _, _) = quinn_server_config().ok().unwrap();
    let client = quinn_client_config_for(client_of_any_server()).ok().unwrap();
    let (mut client, _) = connect(config, client).unwrap();
    assert!(client.streams().open(Dir::Uni).is_none());
    assert!(client.streams().open(Dir::Bi).is_some());
}

#[test]
fn client_needs_the_cipher_suite_that_quic_starts_with() {
    let mut provider = rustls::crypto::ring::default_provider();
    provider
        .cipher_suites
        .retain(|suite| suite.suite() != rustls::CipherSuite::TLS13_AES_128_GCM_SHA256);
    let tls = rustls::ClientConfig::builder_with_provider(Arc::new(provider))
        .with_protocol_versions(&[&rustls::version::TLS13])
        .unwrap()
        .dangerous()
        .with_custom_certificate_verifier(Arc::new(AnyServer))
        .with_no_client_auth();
    assert!(matches!(
        quinn_client_config_for(tls),
        Err(QuinnConfigError::NoCipherSuite(_))
    ));
}

fn p256() -> rcgen::KeyPair {
    rcgen::KeyPair::generate(&rcgen::PKCS_ECDSA_P256_SHA256).unwrap()
}

#[test]
fn server_config_of_a_key_pair() {
    let pair = p256();
    let (der, public) = (pair.serialize_der(), pair.public_key_raw().to_vec());
    let (config, cert, key) = quinn_server_config_of(pair).ok().unwrap();
    assert_eq!(key.secret_der(), &der[..]);
    assert!(holds(&cert, &public));
    let client = quinn_client_config_for(client_of_any_server()).ok().unwrap();
    assert!(connect(config, client).is_some());
}

#[test]
fn pem_of_a_key_pair() {
    let pair = p256();
    let (pem, public) = (pair.serialize_pem(), pair.public_key_raw().to_vec());
    let made = self_signed_pem_of(pair).ok().unwrap();
    assert_eq!(made.key, pem);
    let cert = CertificateDer::from_pem_slice(made.cert.as_bytes()).unwrap();
    assert!(holds(&cert, &public));
}

#[test]
fn certificate_names_itself_as_issuer() {
    let (_, cert, _) = quinn_server_config().ok().unwrap();
    let names = cert.windows(9).filter(|w| w == b"localhost").count();
    assert_eq!(names, 2);
}

#[test]
fn errors_of_encoding() {
    assert!(matches!(
        quinn_server_config_from_der(Err(rcgen::Error::CertificateKeyPairMismatch), vec![]),
        Err(QuinnConfigError::CertificateEncoding(
            rcgen::Error::CertificateKeyPairMismatch
        ))
    ));
    assert!(matches!(
        pem_pair(Err(rcgen::Error::CertificateKeyPairMismatch), String::new()),
        Err(QuinnConfigError::CertificateEncoding(
            rcgen::Error::CertificateKeyPairMismatch
        ))
    ));
    let made = pem_pair(Ok("c".to_string()), "k".to_string()).ok().unwrap();
    assert_eq!((made.cert, made.key), ("c".to_string(), "k".to_string()));
}

#[test]
fn private_keys_are_told_by_how_they_begin() {
    for (bytes, is_key) in [
        (vec![], false),
        (vec![0x30], false),
        (vec![0x30, 3], false),
        (vec![0x30, 3, 2, 1, 0], true),
        (vec![0x30, 3, 2, 1, 1], true),
        (vec![0x30, 3, 2, 1, 2], false),
        (vec![0x30, 4, 2, 1, 2, 0x30], true),
        (vec![0x30, 0x81, 3, 2, 1, 0], true),
        (vec![0x30, 0x81, 2, 1, 0], false),
        (vec![0x30, 0xff, 2, 1, 0], false),
        (vec![0x31, 3, 2, 1, 0], false),
    ] {
        let r = quinn_server_config_from_der(Ok(vec![]), bytes);
        match r {
            Err(QuinnConfigError::KeyEncoding(_)) => assert!(!is_key),
            Err(QuinnConfigError::Tls(_)) => assert!(is_key),
            _ => panic!("a key of a few bytes was taken"),
        }
    }
}

#[test]
fn server_needs_the_cipher_suite_that_quic_starts_with() {
    for has_suite in [true, false] {
        let (cert, key) = localhost_identity();
        let mut provider = rustls::crypto::ring::default_provider();
        provider.cipher_suites.retain(|suite| {
            has_suite || suite.suite() != rustls::CipherSuite::TLS13_AES_128_GCM_SHA256
        });
        let tls = rustls::ServerConfig::builder_with_provider(Arc::new(provider))
            .with_protocol_versions(&[&rustls::version::TLS13])
            .unwrap()
            .with_no_client_auth()
            .with_single_cert(vec![cert], key)
            .unwrap();
        match quinn_server_config_over(tls) {
            Ok(_) => assert!(has_suite),
            Err(e) => assert!(!has_suite && matches!(e, QuinnConfigError::NoCipherSuite(_))),
        }
    }
}

/// The parts of an encoded sequence, each with its tag and length.
fn parts(sequence: &[u8]) -> Vec<&[u8]> {
    fn header(bytes: &[u8]) -> (usize, usize) {
        let len = bytes[1] as usize;
        if len < 128 {
            return (2, len);
        }
        let more = len - 128;
        let len = bytes[2..2 + more].iter().fold(0, |n, b| n * 256 + *b as usize);
        (2 + more, len)
    }
    let (start, len) = header(sequence);
    let mut rest = &sequence[start..start + len];
    let mut found = Vec::new();
    while !rest.is_empty() {
        let (start, len) = header(rest);
        found.push(&rest[..start + len]);
        rest = &rest[start + len..];
    }
    found
}

#[test]
fn certificate_is_signed_by_its_own_key() {
    let (_, cert, key) = quinn_server_config().ok().unwrap();
    let pair = rcgen::KeyPair::from_der(key.secret_der()).unwrap();
    let parts = parts(&cert);
    let (signed, signature) = (parts[0], &parts[2][3..]);
    let provider = rustls::crypto::ring::default_provider();
    let verifies = |key: &[u8]| {
        provider
            .signature_verification_algorithms
            .all
            .iter()
            .any(|a| a.verify_signature(key, signed, signature).is_ok())
    };
    assert!(verifies(pair.public_key_raw()));
    assert!(!verifies(p256().public_key_raw()));
}

//! QUIC with TLS: the identity of a server, and the configurations of servers
//! and clients.

use quinn::crypto::rustls::{NoInitialCipherSuite, QuicClientConfig, QuicServerConfig};
use rustls::pki_types::{CertificateDer, PrivateKeyDer, TrustAnchor};
use std::sync::Arc;
use vstd::prelude::*;

verus! {

/// `quinn::RecvStream`.
#[verifier::external_type_specification]
#[verifier::external_body]
pub struct ExRecvStream(quinn::RecvStream);

/// `quinn::SendStream`.
#[verifier::external_type_specification]
#[verifier::external_body]
pub struct ExSendStream(quinn::SendStream);

/// `rcgen::KeyPair`.
#[verifier::external_type_specification]
#[verifier::external_body]
pub struct ExKeyPair(rcgen::KeyPair);

/// `rcgen::Certificate`.
#[verifier::external_type_specification]
#[verifier::external_body]
pub struct ExCertificate(rcgen::Certificate);

/// `rcgen::Error`.
#[verifier::external_type_specification]
#[verifier::external_body]
pub struct ExRcgenError(rcgen::Error);

/// `rustls::pki_types::CertificateDer`.
#[verifier::external_type_specification]
#[verifier::external_body]
pub struct ExCertificateDer<'a>(CertificateDer<'a>);

/// `rustls::pki_types::PrivateKeyDer`.
#[verifier::external_type_specification]
#[verifier::external_body]
pub struct ExPrivateKeyDer<'a>(PrivateKeyDer<'a>);

/// `rustls::pki_types::TrustAnchor`.
#[verifier::external_type_specification]
#[verifier::external_body]
pub struct ExTrustAnchor<'a>(TrustAnchor<'a>);

/// `rustls::RootCertStore`, whose one field is public.
#[verifier::external_type_specification]
pub struct ExRootCertStore(rustls::RootCertStore);

/// `rustls::Error`.
#[verifier::external_type_specification]
#[verifier::external_body]
pub struct ExTlsError(rustls::Error);

/// `rustls::ServerConfig`.
#[verifier::external_type_specification]
#[verifier::external_body]
pub struct ExTlsServerConfig(rustls::ServerConfig);

/// `rustls::ClientConfig`.
#[verifier::external_type_specification]
#[verifier::external_body]
pub struct ExTlsClientConfig(rustls::ClientConfig);

/// `quinn::crypto::rustls::QuicServerConfig`.
#[verifier::external_type_specification]
#[verifier::external_body]
pub struct ExQuicServerConfig(QuicServerConfig);

/// `quinn::crypto::rustls::QuicClientConfig`.
#[verifier::external_type_specification]
#[verifier::external_body]
pub struct ExQuicClientConfig(QuicClientConfig);

/// `quinn::crypto::rustls::NoInitialCipherSuite`.
#[verifier::external_type_specification]
#[verifier::external_body]
pub struct ExNoInitialCipherSuite(NoInitialCipherSuite);

/// `quinn::ServerConfig`.
#[verifier::external_type_specification]
#[verifier::external_body]
pub struct ExServerConfig(quinn::ServerConfig);

/// `quinn::ClientConfig`.
#[verifier::external_type_specification]
#[verifier::external_body]
pub struct ExClientConfig(quinn::ClientConfig);

/// The two directions of a QUIC stream.
pub struct QuinnBiStream {
    pub recv: quinn::RecvStream,
    pub send: quinn::SendStream,
}

impl QuinnBiStream {
    /// The stream that reads from `recv` and writes to `send`.
    pub fn new(recv: quinn::RecvStream, send: quinn::SendStream) -> (stream: QuinnBiStream)
        ensures
            stream.recv == recv,
            stream.send == send,
    {
        QuinnBiStream { recv, send }
    }
}

/// The application protocol that client and server speak.
pub open spec fn alpn() -> Seq<u8> {
    seq![112, 114, 111, 120, 121, 45, 115, 101, 114, 118, 101, 114]
}

/// The application protocol that client and server speak: `proxy-server`.
pub fn alpn_protocol() -> (protocol: Vec<u8>)
    ensures
        protocol@ == alpn(),
{
    let protocol: Vec<u8> = vec![112, 114, 111, 120, 121, 45, 115, 101, 114, 118, 101, 114];
    assert(protocol@ =~= alpn());
    protocol
}

/// The list of application protocols: the one.
fn alpn_protocols() -> (protocols: Vec<Vec<u8>>)
    ensures
        protocols@.len() == 1,
        protocols@[0]@ == alpn(),
{
    let mut protocols: Vec<Vec<u8>> = Vec::new();
    protocols.push(alpn_protocol());
    protocols
}

/// The texts of `protocols`.
pub open spec fn bytes_of(protocols: Seq<Vec<u8>>) -> Seq<Seq<u8>> {
    protocols.map_values(|p: Vec<u8>| p@)
}

/// Why a configuration could not be made.
pub enum QuinnConfigError {
    /// No key pair could be made.
    Key(rcgen::Error),
    /// No certificate could be made for it.
    Certificate(rcgen::Error),
    /// The certificate could not be encoded.
    CertificateEncoding(rcgen::Error),
    /// The encoded key is no private key.
    KeyEncoding(&'static str),
    /// The TLS library does not take the certificate or the key.
    Tls(rustls::Error),
    /// The TLS library lacks the cipher suite that QUIC starts with.
    NoCipherSuite(NoInitialCipherSuite),
}

/// Whether the private key of a key pair is held here and not elsewhere.
pub uninterp spec fn is_local(k: rcgen::KeyPair) -> bool;

/// Whether a key pair is for ECDSA on the curve P-256 with SHA-256.
pub uninterp spec fn is_p256(k: rcgen::KeyPair) -> bool;

/// The private key of a key pair in PKCS#8, encoded in DER.
pub uninterp spec fn key_pair_der(k: rcgen::KeyPair) -> Seq<u8>;

/// The public key of a key pair.
pub uninterp spec fn public_key(k: rcgen::KeyPair) -> Seq<u8>;

/// What a certificate says.
pub struct CertificateView {
    /// The name of its subject.
    pub common_name: Seq<char>,
    /// The name of its issuer.
    pub issuer: Seq<char>,
    /// The public key of its subject.
    pub public_key: Seq<u8>,
    /// Whether its signature is one by the key of its subject.
    pub signed_by_itself: bool,
}

/// What a certificate is to say once it is encoded and has signed itself.
pub uninterp spec fn certificate_view(c: rcgen::Certificate) -> CertificateView;

/// Whether a certificate can be encoded: the texts in it fit the kinds of text
/// that they are to be encoded as, and its private key is held here.
pub uninterp spec fn is_encodable(c: rcgen::Certificate) -> bool;

/// What a certificate says that is encoded in DER.
pub uninterp spec fn der_says(der: Seq<u8>) -> CertificateView;

/// What a certificate says that is encoded in PEM.
pub uninterp spec fn pem_says(pem: Seq<char>) -> CertificateView;

/// `rcgen::KeyPair::generate` makes a random key pair for the algorithm given
/// here, ECDSA on the curve P-256 with SHA-256, and fails if the system's
/// random numbers do. The private key of one that is made here is held here, and
/// its encoding begins as PKCS#8 says. (Random numbers are drawn twice; should
/// they fail the second time alone, the call panics.)
#[verifier::external_body]
fn generate_p256_key_pair() -> (r: Result<rcgen::KeyPair, rcgen::Error>)
    ensures
        r matches Ok(k) ==> is_local(k) && is_p256(k) && is_private_key(key_pair_der(k)),
{
    rcgen::KeyPair::generate(&rcgen::PKCS_ECDSA_P256_SHA256)
}

/// `rcgen::KeyPair::serialize_der` gives the private key in PKCS#8, encoded in
/// DER. It panics if the private key is held elsewhere.
pub assume_specification[ rcgen::KeyPair::serialize_der ](k: &rcgen::KeyPair) -> (der: Vec<u8>)
    requires
        is_local(*k),
    ensures
        der@ == key_pair_der(*k),
;

/// `rcgen::Certificate::from_params` takes the parameters of a certificate,
/// here the defaults with the given subject name and key pair. It fails if the
/// key pair is not for the algorithm of the defaults, ECDSA on the curve P-256
/// with SHA-256, and then only. The certificate can be encoded: its one text is
/// the subject name, encoded as UTF-8, which takes any text. Encoded by itself,
/// it names its subject as its issuer and is signed by its subject's key.
#[verifier::external_body]
fn self_signed(common_name: &str, key_pair: rcgen::KeyPair) -> (r: Result<
    rcgen::Certificate,
    rcgen::Error,
>)
    requires
        is_local(key_pair),
    ensures
        r is Ok <==> is_p256(key_pair),
        r matches Ok(c) ==> is_encodable(c),
        r matches Ok(c) ==> certificate_view(c) == (CertificateView {
            common_name: common_name@,
            issuer: common_name@,
            public_key: public_key(key_pair),
            signed_by_itself: true,
        }),
{
    let mut params = rcgen::CertificateParams::default();
    params.distinguished_name.push(rcgen::DnType::CommonName, common_name);
    params.key_pair = Some(key_pair);
    rcgen::Certificate::from_params(params)
}

/// `rcgen::Certificate::serialize_der` encodes the certificate in DER and signs
/// it with its own key. The signature is made with random numbers, so the bytes
/// are not fixed; what they say is. It panics if a text in the certificate does
/// not fit the kind of text that it is to be encoded as.
pub assume_specification[ rcgen::Certificate::serialize_der ](c: &rcgen::Certificate) -> (r: Result<
    Vec<u8>,
    rcgen::Error,
>)
    requires
        is_encodable(*c),
    ensures
        r matches Ok(der) ==> der_says(der@) == certificate_view(*c),
;

/// The bytes of an encoded certificate.
pub uninterp spec fn certificate_bytes(c: CertificateDer<'static>) -> Seq<u8>;

/// `CertificateDer::from` takes the bytes of an encoded certificate as they are.
#[verifier::external_body]
fn certificate_der(bytes: Vec<u8>) -> (c: CertificateDer<'static>)
    ensures
        certificate_bytes(c) == bytes@,
{
    CertificateDer::from(bytes)
}

/// Where the content of the encoded sequence `bytes` starts: behind its tag and
/// its length, which takes one byte, or as many more as that byte says.
pub open spec fn content_start(bytes: Seq<u8>) -> int {
    if bytes[1] >= 128 {
        2 + (bytes[1] - 128)
    } else {
        2
    }
}

/// Whether `bytes` begin like an encoded private key: a sequence whose content
/// begins with a version, an integer of one byte, which is 0 (as in PKCS#1), or 1
/// (as in SEC1), or which a sequence follows (as in PKCS#8).
pub open spec fn is_private_key(bytes: Seq<u8>) -> bool {
    let start = content_start(bytes);
    &&& bytes.len() >= 2
    &&& bytes[0] == 0x30
    &&& start + 3 <= bytes.len()
    &&& bytes[start] == 2
    &&& bytes[start + 1] == 1
    &&& bytes[start + 2] == 0 || bytes[start + 2] == 1 || (start + 4 <= bytes.len() && bytes[start
        + 3] == 0x30)
}

/// The bytes of an encoded private key.
pub uninterp spec fn private_key_bytes(k: PrivateKeyDer<'static>) -> Seq<u8>;

/// `PrivateKeyDer::try_from` looks at how the bytes begin to tell the three
/// encodings of a private key apart, takes the bytes as they are, and fails if
/// it is none of the three.
#[verifier::external_body]
fn private_key_der(bytes: Vec<u8>) -> (r: Result<PrivateKeyDer<'static>, &'static str>)
    ensures
        r is Ok <==> is_private_key(bytes@),
        r matches Ok(k) ==> private_key_bytes(k) == bytes@,
{
    PrivateKeyDer::try_from(bytes)
}

/// What a server's TLS configuration holds.
pub struct TlsServerView {
    /// The application protocols, in order of preference.
    pub alpn: Seq<Seq<u8>>,
    /// The certificates that the server shows.
    pub chain: Seq<Seq<u8>>,
    /// The private key that goes with the first, as it was given.
    pub key: Seq<u8>,
    /// Whether the server asks clients for a certificate.
    pub asks_clients: bool,
}

/// What a server's TLS configuration holds.
pub uninterp spec fn tls_server_view(c: rustls::ServerConfig) -> TlsServerView;

/// `rustls::ServerConfig::builder` and the steps after it make a server's TLS
/// configuration that asks clients for no certificate and shows the given one,
/// with no application protocol. `with_single_cert` fails if the private key is
/// invalid or is not that of the certificate. The cryptography is that of the
/// process's default provider, or of the one that the crate features leave;
/// should there be neither, `builder` panics, whatever its caller passes. With
/// ring as the one provider among the crate features there always is one.
#[verifier::external_body]
fn tls_server_config(cert: &CertificateDer<'static>, key: &PrivateKeyDer<'static>) -> (r: Result<
    rustls::ServerConfig,
    rustls::Error,
>)
    ensures
        r matches Ok(c) ==> tls_server_view(c) == (TlsServerView {
            alpn: Seq::empty(),
            chain: seq![certificate_bytes(*cert)],
            key: private_key_bytes(*key),
            asks_clients: false,
        }),
{
    rustls::ServerConfig::builder()
        .with_no_client_auth()
        .with_single_cert(vec![cert.clone()], key.clone_key())
}

/// Whether the cryptography of a server's TLS configuration has the cipher suite
/// that QUIC starts with.
pub uninterp spec fn server_has_quic_suite(c: rustls::ServerConfig) -> bool;

/// Sets the field `alpn_protocols` of `rustls::ServerConfig`.
#[verifier::external_body]
fn set_server_alpn(config: &mut rustls::ServerConfig, protocols: Vec<Vec<u8>>)
    ensures
        tls_server_view(*final(config)) == (TlsServerView {
            alpn: bytes_of(protocols@),
            ..tls_server_view(*old(config))
        }),
        server_has_quic_suite(*final(config)) == server_has_quic_suite(*old(config)),
{
    config.alpn_protocols = protocols;
}

/// What the TLS configuration of a QUIC server holds.
pub uninterp spec fn quic_tls_server_view(c: QuicServerConfig) -> TlsServerView;

/// `QuicServerConfig::try_from` wraps a TLS configuration for QUIC, and fails
/// exactly if its cryptography lacks the cipher suite that QUIC starts with.
#[verifier::external_body]
fn quic_tls_server(config: rustls::ServerConfig) -> (r: Result<
    QuicServerConfig,
    NoInitialCipherSuite,
>)
    ensures
        r is Ok <==> server_has_quic_suite(config),
        r matches Ok(c) ==> quic_tls_server_view(c) == tls_server_view(config),
{
    QuicServerConfig::try_from(config)
}

/// What a QUIC server's configuration holds.
pub struct QuicServerView {
    pub tls: TlsServerView,
    /// How many unidirectional streams a client may have open at a time.
    pub max_uni_streams: nat,
}

/// What a QUIC server's configuration holds.
pub uninterp spec fn quic_server_view(c: quinn::ServerConfig) -> QuicServerView;

/// `quinn::ServerConfig::with_crypto` makes a QUIC server's configuration around
/// a TLS configuration, with quinn's default transport settings, which allow
/// 100 unidirectional streams, and with a random key for its tokens.
#[verifier::external_body]
fn quic_server(config: QuicServerConfig) -> (c: quinn::ServerConfig)
    ensures
        quic_server_view(c) == (QuicServerView {
            tls: quic_tls_server_view(config),
            max_uni_streams: 100,
        }),
{
    quinn::ServerConfig::with_crypto(Arc::new(config))
}

/// `TransportConfig::max_concurrent_uni_streams` sets how many unidirectional
/// streams a client may have open at a time. Here it is set in quinn's default
/// transport settings, which then take the place of those of `config`.
#[verifier::external_body]
fn set_max_uni_streams(config: &mut quinn::ServerConfig, limit: u8)
    ensures
        quic_server_view(*final(config)) == (QuicServerView {
            max_uni_streams: limit as nat,
            ..quic_server_view(*old(config))
        }),
{
    let mut transport = quinn::TransportConfig::default();
    transport.max_concurrent_uni_streams(limit.into());
    config.transport = Arc::new(transport);
}

/// Whether `config` is that of a server that shows `cert`, whose private key is
/// `key`, asks clients for no certificate, speaks the proxy's application
/// protocol and takes no unidirectional streams.
pub open spec fn serves(
    config: quinn::ServerConfig,
    cert: CertificateDer<'static>,
    key: PrivateKeyDer<'static>,
) -> bool {
    quic_server_view(config) == (QuicServerView {
        tls: TlsServerView {
            alpn: seq![alpn()],
            chain: seq![certificate_bytes(cert)],
            key: private_key_bytes(key),
            asks_clients: false,
        },
        max_uni_streams: 0,
    })
}

/// The configuration of a QUIC server with the TLS configuration `tls`, except
/// that it speaks the proxy's application protocol. It takes no unidirectional
/// streams.
pub fn quinn_server_config_over(tls: rustls::ServerConfig) -> (r: Result<
    quinn::ServerConfig,
    QuinnConfigError,
>)
    ensures
        r is Ok <==> server_has_quic_suite(tls),
        r matches Ok(config) ==> quic_server_view(config) == (QuicServerView {
            tls: TlsServerView { alpn: seq![alpn()], ..tls_server_view(tls) },
            max_uni_streams: 0,
        }),
        r matches Err(e) ==> e is NoCipherSuite,
{
    let mut tls = tls;
    let protocols = alpn_protocols();
    assert(bytes_of(protocols@) =~= seq![alpn()]);
    set_server_alpn(&mut tls, protocols);
    let quic = match quic_tls_server(tls) {
        Ok(quic) => quic,
        Err(e) => return Err(QuinnConfigError::NoCipherSuite(e)),
    };
    let mut config = quic_server(quic);
    set_max_uni_streams(&mut config, 0);
    Ok(config)
}

/// The configuration of a QUIC server that shows `cert`, whose private key is
/// `key`: it asks clients for no certificate, speaks the proxy's application
/// protocol and takes no unidirectional streams.
pub fn quinn_server_config_for(
    cert: &CertificateDer<'static>,
    key: &PrivateKeyDer<'static>,
) -> (r: Result<quinn::ServerConfig, QuinnConfigError>)
    ensures
        r matches Ok(config) ==> serves(config, *cert, *key),
        r matches Err(e) ==> e is Tls || e is NoCipherSuite,
{
    match tls_server_config(cert, key) {
        Ok(tls) => quinn_server_config_over(tls),
        Err(e) => Err(QuinnConfigError::Tls(e)),
    }
}

/// The configuration of a QUIC server with an encoded certificate, or what came
/// of encoding it, and its encoded private key.
pub fn quinn_server_config_from_der(cert: Result<Vec<u8>, rcgen::Error>, key: Vec<u8>) -> (r:
    Result<(quinn::ServerConfig, CertificateDer<'static>, PrivateKeyDer<'static>), QuinnConfigError>)
    ensures
        match cert {
            Err(e) => r matches Err(QuinnConfigError::CertificateEncoding(f)) && f == e,
            Ok(der) => match r {
                Ok((config, c, k)) => {
                    &&& is_private_key(key@)
                    &&& certificate_bytes(c) == der@
                    &&& private_key_bytes(k) == key@
                    &&& serves(config, c, k)
                },
                Err(e) => if is_private_key(key@) {
                    e is Tls || e is NoCipherSuite
                } else {
                    e is KeyEncoding
                },
            },
        },
{
    let cert = match cert {
        Ok(bytes) => certificate_der(bytes),
        Err(e) => return Err(QuinnConfigError::CertificateEncoding(e)),
    };
    let key = match private_key_der(key) {
        Ok(key) => key,
        Err(e) => return Err(QuinnConfigError::KeyEncoding(e)),
    };
    match quinn_server_config_for(&cert, &key) {
        Ok(config) => Ok((config, cert, key)),
        Err(e) => Err(e),
    }
}

/// The name that certificates are made out to.
pub fn subject_name() -> (name: &'static str)
    ensures
        name@ == "localhost"@,
{
    "localhost"
}

/// Whether a certificate that says `says` is one made out to `localhost` by
/// itself, for the key pair `k`.
pub open spec fn is_identity(k: rcgen::KeyPair, says: CertificateView) -> bool {
    says == (CertificateView {
        common_name: "localhost"@,
        issuer: "localhost"@,
        public_key: public_key(k),
        signed_by_itself: true,
    })
}

/// The configuration of a QUIC server with the key pair `k`, for which a
/// certificate is made out to `localhost` and signed by itself; with it the
/// certificate and the private key.
pub fn quinn_server_config_of(k: rcgen::KeyPair) -> (r: Result<
    (quinn::ServerConfig, CertificateDer<'static>, PrivateKeyDer<'static>),
    QuinnConfigError,
>)
    requires
        is_local(k),
        is_p256(k),
    ensures
        r matches Ok((config, cert, key)) ==> {
            &&& serves(config, cert, key)
            &&& is_identity(k, der_says(certificate_bytes(cert)))
            &&& private_key_bytes(key) == key_pair_der(k)
        },
        r matches Err(e) ==> e !is Key && e !is Certificate && (e is KeyEncoding
            ==> !is_private_key(key_pair_der(k))),
        !is_private_key(key_pair_der(k)) ==> (r matches Err(e) && (e is CertificateEncoding || e
            is KeyEncoding)),
{
    let key_bytes = k.serialize_der();
    match self_signed(subject_name(), k) {
        Ok(certificate) => quinn_server_config_from_der(certificate.serialize_der(), key_bytes),
        Err(e) => Err(QuinnConfigError::Certificate(e)),
    }
}

/// The configuration of a QUIC server with a certificate of its own, made out
/// to `localhost` and signed by itself; with it the certificate, for clients
/// that are to trust it, and its private key.
pub fn quinn_server_config() -> (r: Result<
    (quinn::ServerConfig, CertificateDer<'static>, PrivateKeyDer<'static>),
    QuinnConfigError,
>)
    ensures
        r matches Ok((config, cert, key)) ==> {
            &&& serves(config, cert, key)
            &&& exists|k: rcgen::KeyPair|
                is_p256(k) && is_identity(k, der_says(certificate_bytes(cert)))
                    && private_key_bytes(key) == key_pair_der(k)
        },
        r matches Err(e) ==> e !is Certificate && e !is KeyEncoding,
{
    match generate_p256_key_pair() {
        Ok(key_pair) => quinn_server_config_of(key_pair),
        Err(e) => Err(QuinnConfigError::Key(e)),
    }
}

/// The private key of a key pair in PKCS#8, encoded in PEM.
pub uninterp spec fn key_pair_pem(k: rcgen::KeyPair) -> Seq<char>;

/// `rcgen::KeyPair::serialize_pem` gives the private key in PKCS#8, encoded in
/// PEM. It panics if the private key is held elsewhere.
pub assume_specification[ rcgen::KeyPair::serialize_pem ](k: &rcgen::KeyPair) -> (pem: String)
    requires
        is_local(*k),
    ensures
        pem@ == key_pair_pem(*k),
;

/// `rcgen::Certificate::serialize_pem` encodes the certificate in PEM and signs
/// it with its own key. The signature is made with random numbers, so the text is
/// not fixed; what it says is. It panics where `serialize_der` does.
pub assume_specification[ rcgen::Certificate::serialize_pem ](c: &rcgen::Certificate) -> (r: Result<
    String,
    rcgen::Error,
>)
    requires
        is_encodable(*c),
    ensures
        r matches Ok(pem) ==> pem_says(pem@) == certificate_view(*c),
;

/// A certificate and its private key, encoded in PEM.
pub struct PemPair {
    pub cert: String,
    pub key: String,
}

/// An encoded private key with its encoded certificate, or what came of encoding
/// that.
pub fn pem_pair(cert: Result<String, rcgen::Error>, key: String) -> (r: Result<
    PemPair,
    QuinnConfigError,
>)
    ensures
        match cert {
            Ok(text) => r == Ok::<PemPair, QuinnConfigError>(PemPair { cert: text, key }),
            Err(e) => r matches Err(QuinnConfigError::CertificateEncoding(f)) && f == e,
        },
{
    match cert {
        Ok(cert) => Ok(PemPair { cert, key }),
        Err(e) => Err(QuinnConfigError::CertificateEncoding(e)),
    }
}

/// A certificate for the key pair `k`, made out to `localhost` and signed by
/// itself, and the private key.
pub fn self_signed_pem_of(k: rcgen::KeyPair) -> (r: Result<PemPair, QuinnConfigError>)
    requires
        is_local(k),
        is_p256(k),
    ensures
        r matches Ok(pair) ==> is_identity(k, pem_says(pair.cert@)) && pair.key@ == key_pair_pem(k),
        r matches Err(e) ==> e is CertificateEncoding,
{
    let key = k.serialize_pem();
    match self_signed(subject_name(), k) {
        Ok(certificate) => pem_pair(certificate.serialize_pem(), key),
        Err(e) => Err(QuinnConfigError::Certificate(e)),
    }
}

/// A certificate made out to `localhost` and signed by itself, and its private
/// key.
pub fn self_signed_pem() -> (r: Result<PemPair, QuinnConfigError>)
    ensures
        r matches Ok(pair) ==> exists|k: rcgen::KeyPair|
            is_p256(k) && is_identity(k, pem_says(pair.cert@)) && pair.key@ == key_pair_pem(k),
        r matches Err(e) ==> e is Key || e is CertificateEncoding,
{
    match generate_p256_key_pair() {
        Ok(key_pair) => self_signed_pem_of(key_pair),
        Err(e) => Err(QuinnConfigError::Key(e)),
    }
}

/// What trusting the certificate with the given bytes means: the trust anchor
/// that is made of it, or `None` if it is malformed.
pub uninterp spec fn trust_anchor(der: Seq<u8>) -> Option<TrustAnchor<'static>>;

/// `rustls::RootCertStore::empty` makes a store that trusts nothing.
pub assume_specification[ rustls::RootCertStore::empty ]() -> (store: rustls::RootCertStore)
    ensures
        store.roots@ == Seq::<TrustAnchor<'static>>::empty(),
;

/// `rustls::RootCertStore::add` makes a trust anchor of a certificate and
/// appends it. It fails, and changes nothing, if the certificate is malformed.
#[verifier::external_body]
fn add_root(store: &mut rustls::RootCertStore, cert: &CertificateDer<'static>) -> (r: Result<
    (),
    rustls::Error,
>)
    ensures
        match trust_anchor(certificate_bytes(*cert)) {
            Some(anchor) => r is Ok && final(store).roots@ == old(store).roots@.push(anchor),
            None => r is Err && final(store).roots@ == old(store).roots@,
        },
{
    store.add(cert.clone())
}

/// What a client's TLS configuration holds.
pub struct TlsClientView {
    /// The application protocols, in order of preference.
    pub alpn: Seq<Seq<u8>>,
    /// The trust anchors, or `None` where something else decides which servers
    /// are trusted.
    pub roots: Option<Seq<TrustAnchor<'static>>>,
    /// Whether the client has a certificate to show to servers.
    pub shows_certificate: bool,
}

/// What a client's TLS configuration holds.
pub uninterp spec fn tls_client_view(c: rustls::ClientConfig) -> TlsClientView;

/// Whether the cryptography of a client's TLS configuration has the cipher suite
/// that QUIC starts with.
pub uninterp spec fn has_quic_suite(c: rustls::ClientConfig) -> bool;

/// `rustls::ClientConfig::builder` and the steps after it make a client's TLS
/// configuration that trusts the given anchors and shows no certificate, with
/// no application protocol. The cryptography is that of the process's default
/// provider, or of the one that the crate features leave; should there be
/// neither, `builder` panics, whatever its caller passes. With ring as the one
/// provider among the crate features there always is one.
#[verifier::external_body]
fn tls_client_config(store: rustls::RootCertStore) -> (c: rustls::ClientConfig)
    ensures
        tls_client_view(c) == (TlsClientView {
            alpn: Seq::empty(),
            roots: Some(store.roots@),
            shows_certificate: false,
        }),
{
    rustls::ClientConfig::builder().with_root_certificates(store).with_no_client_auth()
}

/// Sets the field `alpn_protocols` of `rustls::ClientConfig`.
#[verifier::external_body]
fn set_client_alpn(config: &mut rustls::ClientConfig, protocols: Vec<Vec<u8>>)
    ensures
        tls_client_view(*final(config)) == (TlsClientView {
            alpn: bytes_of(protocols@),
            ..tls_client_view(*old(config))
        }),
        has_quic_suite(*final(config)) == has_quic_suite(*old(config)),
{
    config.alpn_protocols = protocols;
}

/// What the TLS configuration of a QUIC client holds.
pub uninterp spec fn quic_tls_client_view(c: QuicClientConfig) -> TlsClientView;

/// `QuicClientConfig::try_from` wraps a TLS configuration for QUIC, and fails
/// exactly if its cryptography lacks the cipher suite that QUIC starts with.
#[verifier::external_body]
fn quic_tls_client(config: rustls::ClientConfig) -> (r: Result<
    QuicClientConfig,
    NoInitialCipherSuite,
>)
    ensures
        r is Ok <==> has_quic_suite(config),
        r matches Ok(c) ==> quic_tls_client_view(c) == tls_client_view(config),
{
    QuicClientConfig::try_from(config)
}

/// What a QUIC client's configuration holds, besides quinn's defaults.
pub uninterp spec fn quic_client_view(c: quinn::ClientConfig) -> TlsClientView;

/// `quinn::ClientConfig::new` makes a QUIC client's configuration around a TLS
/// configuration, with quinn's defaults.
#[verifier::external_body]
fn quic_client(config: QuicClientConfig) -> (c: quinn::ClientConfig)
    ensures
        quic_client_view(c) == quic_tls_client_view(config),
{
    quinn::ClientConfig::new(Arc::new(config))
}

/// The configuration of a QUIC client that trusts what `tls` trusts and speaks
/// the proxy's application protocol.
pub fn quinn_client_config_for(tls: rustls::ClientConfig) -> (r: Result<
    quinn::ClientConfig,
    QuinnConfigError,
>)
    ensures
        r is Ok <==> has_quic_suite(tls),
        r matches Ok(config) ==> quic_client_view(config) == (TlsClientView {
            alpn: seq![alpn()],
            ..tls_client_view(tls)
        }),
        r matches Err(e) ==> e is NoCipherSuite,
{
    let mut tls = tls;
    let protocols = alpn_protocols();
    assert(bytes_of(protocols@) =~= seq![alpn()]);
    set_client_alpn(&mut tls, protocols);
    match quic_tls_client(tls) {
        Ok(quic) => Ok(quic_client(quic)),
        Err(e) => Err(QuinnConfigError::NoCipherSuite(e)),
    }
}

/// Whether `config` is that of a client whose one trust anchor is that of the
/// given certificate, that shows no certificate of its own, and that speaks the
/// proxy's application protocol.
pub open spec fn trusts(config: quinn::ClientConfig, cert: CertificateDer<'static>) -> bool {
    trust_anchor(certificate_bytes(cert)) matches Some(anchor) && quic_client_view(config) == (
    TlsClientView { alpn: seq![alpn()], roots: Some(seq![anchor]), shows_certificate: false })
}

/// The configuration of a QUIC client whose one trust anchor is that of the given
/// certificate, such as the one of `quinn_server_config`.
///
/// A trust anchor is not all that it takes: rustls looks for the server's name
/// among the subject alternative names of its certificate and disregards the
/// common name. The certificate of `quinn_server_config` has a common name alone,
/// so this client refuses a server that shows it.
pub fn quinn_client_config_with_cert(cert: &CertificateDer<'static>) -> (r: Result<
    quinn::ClientConfig,
    QuinnConfigError,
>)
    ensures
        r matches Ok(config) ==> trusts(config, *cert),
        r matches Err(e) ==> e is Tls || e is NoCipherSuite,
        trust_anchor(certificate_bytes(*cert)) is None <==> (r matches Err(e) && e is Tls),
{
    let mut roots = rustls::RootCertStore::empty();
    match add_root(&mut roots, cert) {
        Ok(_) => {},
        Err(e) => return Err(QuinnConfigError::Tls(e)),
    }
    proof {
        let anchor = trust_anchor(certificate_bytes(*cert))->0;
        assert(roots.roots@ =~= seq![anchor]);
    }
    quinn_client_config_for(tls_client_config(roots))
}

/// A client made for the certificate of a server has the trust anchors of what the
/// server shows and no others, the two speak the same application protocols, and
/// the server asks for no certificate, of which the client has none.
///
/// This is of trust anchors alone. The client also looks for the server's name
/// among the subject alternative names of what the server shows.
pub proof fn law_client_trusts_server(
    server: quinn::ServerConfig,
    client: quinn::ClientConfig,
    cert: CertificateDer<'static>,
    key: PrivateKeyDer<'static>,
)
    requires
        serves(server, cert, key),
        trusts(client, cert),
    ensures
        quic_client_view(client).alpn == quic_server_view(server).tls.alpn,
        !quic_server_view(server).tls.asks_clients,
        !quic_client_view(client).shows_certificate,
        quic_client_view(client).roots == Some(
            quic_server_view(server).tls.chain.map_values(|der: Seq<u8>| trust_anchor(der)->0),
        ),
        forall|i: int|
            0 <= i < quic_server_view(server).tls.chain.len() ==> trust_anchor(
                #[trigger] quic_server_view(server).tls.chain[i],
            ) is Some,
{
    assert(seq![trust_anchor(certificate_bytes(cert))->0] =~= quic_server_view(
        server,
    ).tls.chain.map_values(|der: Seq<u8>| trust_anchor(der)->0));
}

/// A signature scheme that a client takes from a server.
#[derive(Clone, Copy, Debug, PartialEq, Eq, Structural)]
pub enum VerifyScheme {
    EcdsaNistp256Sha256,
    EcdsaNistp384Sha384,
    Ed25519,
}

/// The signature schemes that a client takes from a server it does not verify,
/// in order of preference.
pub fn unverified_schemes() -> (schemes: Vec<VerifyScheme>)
    ensures
        schemes@ == seq![
            VerifyScheme::EcdsaNistp256Sha256,
            VerifyScheme::EcdsaNistp384Sha384,
            VerifyScheme::Ed25519,
        ],
{
    let schemes: Vec<VerifyScheme> = vec![
        VerifyScheme::EcdsaNistp256Sha256,
        VerifyScheme::EcdsaNistp384Sha384,
        VerifyScheme::Ed25519,
    ];
    assert(schemes@ =~= seq![
        VerifyScheme::EcdsaNistp256Sha256,
        VerifyScheme::EcdsaNistp384Sha384,
        VerifyScheme::Ed25519,
    ]);
    schemes
}

/// The application protocol is the text `proxy-server`, a byte for each letter.
pub proof fn law_alpn(i: int)
    ensures
        alpn().len() == "proxy-server"@.len(),
        0 <= i < alpn().len() ==> alpn()[i] as int == "proxy-server"@[i] as int,
{
    reveal_strlit("proxy-server");
}

/// A server shows the one certificate that it is made with, holds its key, asks
/// clients for none, speaks the one protocol, and takes no unidirectional streams,
/// whichever certificate and key that are.
pub proof fn law_server_shows_certificate(
    server: quinn::ServerConfig,
    cert: CertificateDer<'static>,
    key: PrivateKeyDer<'static>,
)
    requires
        serves(server, cert, key),
    ensures
        quic_server_view(server).tls.chain.len() == 1,
        quic_server_view(server).tls.chain[0] == certificate_bytes(cert),
        quic_server_view(server).tls.key == private_key_bytes(key),
        !quic_server_view(server).tls.asks_clients,
        quic_server_view(server).tls.alpn.len() == 1,
        quic_server_view(server).tls.alpn[0] == alpn(),
        quic_server_view(server).max_uni_streams == 0,
{
}

/// A client has the trust anchor of the certificate that it is made with, and no
/// other; it shows none of its own, and speaks the one protocol.
pub proof fn law_client_has_anchor(client: quinn::ClientConfig, cert: CertificateDer<'static>)
    requires
        trusts(client, cert),
    ensures
        trust_anchor(certificate_bytes(cert)) is Some,
        quic_client_view(client).roots matches Some(roots) && roots.len() == 1 && Some(roots[0])
            == trust_anchor(certificate_bytes(cert)),
        !quic_client_view(client).shows_certificate,
        quic_client_view(client).alpn.len() == 1,
        quic_client_view(client).alpn[0] == alpn(),
{
}

/// The certificate of a server is made out to `localhost`, by itself, and its key
/// is that of the key pair, whichever that is.
pub proof fn law_identity(k: rcgen::KeyPair, says: CertificateView)
    requires
        is_identity(k, says),
    ensures
        says.common_name == "localhost"@,
        says.issuer == says.common_name,
        says.signed_by_itself,
        says.public_key == public_key(k),
{
}

/// A key is told by how its encoding begins: the version at the start of its
/// content is 0 or 1, or a sequence follows it, however the length is encoded and
/// whatever comes after.
pub proof fn law_private_key_forms(len: Seq<u8>, version: u8, rest: Seq<u8>)
    requires
        len.len() > 0,
        len[0] < 128 && len.len() == 1 || len[0] >= 128 && len.len() == 1 + (len[0] - 128),
    ensures
        ({
            let key = seq![0x30u8] + len + seq![2u8, 1u8, version] + rest;
            is_private_key(key) <==> version == 0 || version == 1 || (rest.len() > 0 && rest[0]
                == 0x30)
        }),
{
    let key = seq![0x30u8] + len + seq![2u8, 1u8, version] + rest;
    let start: int = 1 + len.len() as int;
    assert(key[0] == 0x30);
    assert(key[1] == len[0]);
    assert(content_start(key) == start);
    assert(key[start] == 2 && key[start + 1] == 1 && key[start + 2] == version);
    if rest.len() > 0 {
        assert(key[start + 3] == rest[0]);
    }
}

} // verus!

//! The server's TLS side: building the immutable configuration that demands
//! and verifies a client certificate against the trusted CA set, the acceptor
//! shared by every handshake, and the reading of a handshake's outcome.
use std::sync::Arc;
use vstd::prelude::*;
use crate::admission::AuthError;

verus! {

#[verifier::external_type_specification]
#[verifier::external_body]
pub struct ExServerConfig(rustls::ServerConfig);

#[verifier::external_type_specification]
#[verifier::external_body]
pub struct ExRootCertStore(rustls::RootCertStore);

#[verifier::external_type_specification]
#[verifier::external_body]
pub struct ExCertificate(rustls::Certificate);

#[verifier::external_type_specification]
#[verifier::external_body]
pub struct ExTlsAcceptor(tokio_rustls::TlsAcceptor);

/// The DER certificates that rustls_pemfile::certs finds in a PEM text, or
/// `None` where it reports a read error.
pub uninterp spec fn pem_certs_of(pem: Seq<u8>) -> Option<Seq<Seq<u8>>>;

/// The DER PKCS#8 keys that rustls_pemfile::pkcs8_private_keys finds in a PEM
/// text, or `None` where it reports a read error.
pub uninterp spec fn pem_pkcs8_keys_of(pem: Seq<u8>) -> Option<Seq<Seq<u8>>>;

/// Whether rustls takes a DER certificate as a trust anchor.
pub uninterp spec fn is_trust_anchor(der: Seq<u8>) -> bool;

/// The trust anchors a rustls::RootCertStore holds, in the order they were
/// added, each given as the DER certificate it was parsed from.
pub uninterp spec fn anchors_of(store: rustls::RootCertStore) -> Seq<Seq<u8>>;

/// Relies on rustls_pemfile::certs: the certificates of a PEM text, read from
/// memory.
#[verifier::external_body]
fn parse_pem_certs(pem: &[u8]) -> (r: Option<Vec<Vec<u8>>>)
    ensures
        r is Some <==> pem_certs_of(pem@) is Some,
        r is Some ==> r->0.deep_view() == pem_certs_of(pem@)->0,
{
    let mut rd: &[u8] = pem;
    rustls_pemfile::certs(&mut rd).ok()
}

/// Relies on rustls_pemfile::pkcs8_private_keys: the PKCS#8 keys of a PEM
/// text, read from memory.
#[verifier::external_body]
fn parse_pem_pkcs8_keys(pem: &[u8]) -> (r: Option<Vec<Vec<u8>>>)
    ensures
        r is Some <==> pem_pkcs8_keys_of(pem@) is Some,
        r is Some ==> r->0.deep_view() == pem_pkcs8_keys_of(pem@)->0,
{
    let mut rd: &[u8] = pem;
    rustls_pemfile::pkcs8_private_keys(&mut rd).ok()
}

/// Relies on rustls::RootCertStore::empty: a store with no trust anchor.
pub assume_specification[ rustls::RootCertStore::empty ]() -> (r: rustls::RootCertStore)
    ensures
        anchors_of(r) == Seq::<Seq<u8>>::empty(),
;

/// Relies on rustls::RootCertStore::add: whether the certificate parses as a
/// trust anchor; if it does, it joins the end of the store, and if not, the
/// store is left as it was.
#[verifier::external_body]
fn add_trust_anchor(store: &mut rustls::RootCertStore, der: &Vec<u8>) -> (r: bool)
    ensures
        r == is_trust_anchor(der@),
        r ==> anchors_of(*final(store)) == anchors_of(*old(store)).push(der@),
        !r ==> anchors_of(*final(store)) == anchors_of(*old(store)),
{
    store.add(&rustls::Certificate(der.clone())).is_ok()
}

/// Relies on rustls's ServerConfig builder with its safe defaults, a
/// verifier that demands a client certificate chaining to `roots`
/// (rustls::server::AllowAnyAuthenticatedClient), and one certificate chain
/// with its key; `None` where rustls cannot use the key.
#[verifier::external_body]
fn build_server_config(roots: rustls::RootCertStore, chain: Vec<Vec<u8>>, key: &Vec<u8>) -> (r:
    Option<rustls::ServerConfig>) {
    let verifier = rustls::server::AllowAnyAuthenticatedClient::new(roots).boxed();
    let chain: Vec<rustls::Certificate> = chain.into_iter().map(rustls::Certificate).collect();
    rustls::ServerConfig::builder()
        .with_safe_defaults()
        .with_client_cert_verifier(verifier)
        .with_single_cert(chain, rustls::PrivateKey(key.clone()))
        .ok()
}

/// Relies on tokio_rustls::TlsAcceptor's `From<Arc<ServerConfig>>`: one
/// acceptor that shares the configuration, read only, across handshakes.
#[verifier::external_body]
pub fn create_tls_acceptor(config: rustls::ServerConfig) -> tokio_rustls::TlsAcceptor {
    tokio_rustls::TlsAcceptor::from(Arc::new(config))
}

/// What a failed TLS handshake reported, as far as admission cares: the
/// peer sent no certificate, sent one that failed validation, or something
/// else went wrong.
#[derive(Clone, Copy, Debug, PartialEq, Eq, Structural)]
pub enum TlsErrorKind {
    NoCertificatesPresented,
    InvalidCertificate,
    Other,
}

/// Why the TLS configuration could not be built.
#[derive(Clone, Copy, Debug, PartialEq, Eq, Structural)]
pub enum ConfigError {
    /// The server certificate text could not be read.
    CertificatePem,
    /// The server certificate text holds no certificate.
    NoCertificate,
    /// The private key text could not be read.
    KeyPem,
    /// The private key text holds no PKCS#8 key.
    NoPrivateKey,
    /// The trusted CA text could not be read.
    CaPem,
    /// The trusted CA text holds no certificate.
    NoTrustAnchor,
    /// A trusted CA certificate is not a usable trust anchor.
    InvalidTrustAnchor,
    /// rustls could not use the private key.
    Rejected,
}

/// The first problem found in the three PEM inputs, in the order they are
/// looked at, or `None` when only rustls's own checks remain.
pub open spec fn config_problem(cert_pem: Seq<u8>, key_pem: Seq<u8>, ca_pem: Seq<u8>) -> Option<
    ConfigError,
> {
    match pem_certs_of(cert_pem) {
        None => Some(ConfigError::CertificatePem),
        Some(chain) => if chain.len() == 0 {
            Some(ConfigError::NoCertificate)
        } else {
            match pem_pkcs8_keys_of(key_pem) {
                None => Some(ConfigError::KeyPem),
                Some(keys) => if keys.len() == 0 {
                    Some(ConfigError::NoPrivateKey)
                } else {
                    match pem_certs_of(ca_pem) {
                        None => Some(ConfigError::CaPem),
                        Some(cas) => if cas.len() == 0 {
                            Some(ConfigError::NoTrustAnchor)
                        } else if exists|i: int| 0 <= i < cas.len() && !is_trust_anchor(#[trigger] cas[i]) {
                            Some(ConfigError::InvalidTrustAnchor)
                        } else {
                            None
                        },
                    }
                },
            }
        },
    }
}

/// What the server configuration is built from: the server's certificate
/// chain, its private key and the store of trusted client CAs.
pub struct ServerConfigInputs {
    pub chain: Vec<Vec<u8>>,
    pub key: Vec<u8>,
    pub roots: rustls::RootCertStore,
}

/// Reads the three PEM inputs: the chain is every certificate of `cert_pem`
/// in order, the key is the first PKCS#8 key of `key_pem`, and the store
/// holds every certificate of `ca_pem` in order.
pub fn server_config_inputs(cert_pem: &[u8], key_pem: &[u8], ca_pem: &[u8]) -> (r: Result<
    ServerConfigInputs,
    ConfigError,
>)
    ensures
        match config_problem(cert_pem@, key_pem@, ca_pem@) {
            Some(e) => r == Err::<ServerConfigInputs, ConfigError>(e),
            None => r matches Ok(inputs) && {
                &&& inputs.chain.deep_view() == pem_certs_of(cert_pem@)->0
                &&& inputs.key@ == pem_pkcs8_keys_of(key_pem@)->0[0]
                &&& anchors_of(inputs.roots) == pem_certs_of(ca_pem@)->0
            },
        },
{
    let chain = match parse_pem_certs(cert_pem) {
        None => return Err(ConfigError::CertificatePem),
        Some(c) => c,
    };
    if chain.len() == 0 {
        return Err(ConfigError::NoCertificate);
    }
    let keys = match parse_pem_pkcs8_keys(key_pem) {
        None => return Err(ConfigError::KeyPem),
        Some(k) => k,
    };
    if keys.len() == 0 {
        return Err(ConfigError::NoPrivateKey);
    }
    let cas = match parse_pem_certs(ca_pem) {
        None => return Err(ConfigError::CaPem),
        Some(c) => c,
    };
    if cas.len() == 0 {
        return Err(ConfigError::NoTrustAnchor);
    }
    let mut roots = rustls::RootCertStore::empty();
    let mut i: usize = 0;
    while i < cas.len()
        invariant
            i <= cas@.len(),
            cas.deep_view() == pem_certs_of(ca_pem@)->0,
            pem_certs_of(ca_pem@) is Some,
            cas@.len() > 0,
            pem_certs_of(cert_pem@) matches Some(c) && c.len() > 0,
            pem_pkcs8_keys_of(key_pem@) matches Some(k) && k.len() > 0,
            forall|j: int| 0 <= j < i ==> is_trust_anchor(#[trigger] cas.deep_view()[j]),
            anchors_of(roots) == cas.deep_view().take(i as int),
        decreases cas@.len() - i,
    {
        assert(cas.deep_view()[i as int] =~= cas@[i as int]@);
        if !add_trust_anchor(&mut roots, &cas[i]) {
            return Err(ConfigError::InvalidTrustAnchor);
        }
        assert(cas.deep_view().take(i + 1) =~= cas.deep_view().take(i as int).push(cas@[i as int]@));
        i = i + 1;
    }
    assert(cas.deep_view().take(i as int) =~= cas.deep_view());
    let key = keys[0].clone();
    assert(keys.deep_view()[0] =~= keys@[0]@);
    Ok(ServerConfigInputs { chain, key, roots })
}

/// Builds the server configuration from the server's certificate chain, its
/// private key (the first PKCS#8 key of `key_pem`) and the trusted client CA
/// bundle, all PEM text, as `server_config_inputs` reads them. Client
/// certificates are mandatory.
pub fn load_server_config(cert_pem: &[u8], key_pem: &[u8], ca_pem: &[u8]) -> (r: Result<
    rustls::ServerConfig,
    ConfigError,
>)
    ensures
        match config_problem(cert_pem@, key_pem@, ca_pem@) {
            Some(e) => r == Err::<rustls::ServerConfig, ConfigError>(e),
            None => r is Ok || r == Err::<rustls::ServerConfig, ConfigError>(ConfigError::Rejected),
        },
{
    match server_config_inputs(cert_pem, key_pem, ca_pem) {
        Err(e) => Err(e),
        Ok(inputs) => match build_server_config(inputs.roots, inputs.chain, &inputs.key) {
            Some(config) => Ok(config),
            None => Err(ConfigError::Rejected),
        },
    }
}

/// Whether a completed handshake's peer presented a client certificate.
pub fn verify_client_cert(certs: &[rustls::Certificate]) -> (r: bool)
    ensures
        r == (certs@.len() > 0),
{
    certs.len() > 0
}

/// The admission failure for a TLS error.
pub fn auth_error_of(kind: TlsErrorKind) -> (r: AuthError)
    ensures
        r == match kind {
            TlsErrorKind::NoCertificatesPresented => AuthError::NoCertificate,
            TlsErrorKind::InvalidCertificate => AuthError::UntrustedOrInvalidCertificate,
            TlsErrorKind::Other => AuthError::HandshakeFailure,
        },
{
    match kind {
        TlsErrorKind::NoCertificatesPresented => AuthError::NoCertificate,
        TlsErrorKind::InvalidCertificate => AuthError::UntrustedOrInvalidCertificate,
        TlsErrorKind::Other => AuthError::HandshakeFailure,
    }
}

} // verus!

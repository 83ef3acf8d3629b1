use ws_server::admission::AuthError;
use ws_server::tls::{
    auth_error_of, create_tls_acceptor, load_server_config, server_config_inputs, verify_client_cert, ConfigError,
    TlsErrorKind,
};

const CA_PEM: &str = "\
-----BEGIN CERTIFICATE-----\n\
MIIBijCCATGgAwIBAgIUT2rSLVEykqoNdmJA3bK1N7/4t9IwCgYIKoZIzj0EAwIw\n\
EjEQMA4GA1UEAwwHVGVzdCBDQTAgFw0yNjEwMTkxNzQwNDdaGA8yMTI2MDkyNTE3\n\
NDA0N1owEjEQMA4GA1UEAwwHVGVzdCBDQTBZMBMGByqGSM49AgEGCCqGSM49AwEH\n\
A0IABJVkmUVHr6hloD/URIokBHPWAjlTB17NmV/fshSsmcFAuWVZEhWvEP0clN7c\n\
gSFlFF95FapmKPbr0RCBA1YCVaCjYzBhMB0GA1UdDgQWBBQVxMs6YExxCh6D7FT5\n\
lpR7x78AqjAfBgNVHSMEGDAWgBQVxMs6YExxCh6D7FT5lpR7x78AqjAPBgNVHRMB\n\
Af8EBTADAQH/MA4GA1UdDwEB/wQEAwICBDAKBggqhkjOPQQDAgNHADBEAiB7q70i\n\
+Vs39WjdLD8JSPokSy8ZBbNZ6TsfAsPvIgn9xgIgf0tHIlrxQoPUlhwi1Q6KF9IX\n\
Kk49vfslf6Oqt2bOBzM=\n\
-----END CERTIFICATE-----\n\
";

const SERVER_PEM: &str = "\
-----BEGIN CERTIFICATE-----\n\
MIIBjDCCATOgAwIBAgIUTtuMVRvsVo5DmcHq+d2WDBot2wMwCgYIKoZIzj0EAwIw\n\
EjEQMA4GA1UEAwwHVGVzdCBDQTAgFw0yNjEwMTkxNzQwNDhaGA8yMTI2MDkyNTE3\n\
NDA0OFowFDESMBAGA1UEAwwJbG9jYWxob3N0MFkwEwYHKoZIzj0CAQYIKoZIzj0D\n\
AQcDQgAERUUlajGMojxHo1s7BHL/caokOqE9Bchx2nAzeyxDF51wVLcHd6nzeXr4\n\
iukref+Yo2Ihxoaj6//rWJdhMuDk+KNjMGEwFAYDVR0RBA0wC4IJbG9jYWxob3N0\n\
MAkGA1UdEwQCMAAwHQYDVR0OBBYEFFuPlF2qN5UlhcNlgw/vjHfba8MEMB8GA1Ud\n\
IwQYMBaAFBXEyzpgTHEKHoPsVPmWlHvHvwCqMAoGCCqGSM49BAMCA0cAMEQCIByK\n\
+VN3JT5JnRUwvYMHr0c7dOqWXutHqI9kz8juD9awAiARUIhhiPrI+4U9E1j+R3BI\n\
OGh0+Y/W1neJoa7WAer68Q==\n\
-----END CERTIFICATE-----\n\
";

const SERVER_KEY_DER: [u8; 138] = [
    48, 129, 135, 2, 1, 0, 48, 19, 6, 7, 42, 134, 72, 206, 61, 2, 1, 6, 8, 42, 134, 72, 206, 61,
    3, 1, 7, 4, 109, 48, 107, 2, 1, 1, 4, 32, 215, 111, 210, 155, 128, 50, 192, 63, 238, 36,
    235, 216, 196, 63, 216, 145, 36, 193, 236, 77, 80, 181, 53, 113, 177, 211, 50, 9, 153, 78,
    78, 143, 161, 68, 3, 66, 0, 4, 69, 69, 37, 106, 49, 140, 162, 60, 71, 163, 91, 59, 4, 114,
    255, 113, 170, 36, 58, 161, 61, 5, 200, 113, 218, 112, 51, 123, 44, 67, 23, 157, 112, 84,
    183, 7, 119, 169, 243, 121, 122, 248, 138, 233, 43, 121, 255, 152, 163, 98, 33, 198, 134,
    163, 235, 255, 235, 88, 151, 97, 50, 224, 228, 248,
];

const JUNK_CERT_PEM: &str = "-----BEGIN CERTIFICATE-----\nAAEC\n-----END CERTIFICATE-----\n";
const JUNK_KEY_DER: [u8; 3] = [0, 1, 2];

/// Standard base64 with padding, for writing a DER key as PEM text.
fn base64(der: &[u8]) -> String {
    const ALPHABET: &[u8] = b"ABCDEFGHIJKLMNOPQRSTUVWXYZabcdefghijklmnopqrstuvwxyz0123456789+/";
    let mut out = String::new();
    for chunk in der.chunks(3) {
        let b = [chunk[0], *chunk.get(1).unwrap_or(&0), *chunk.get(2).unwrap_or(&0)];
        let n = (u32::from(b[0]) << 16) | (u32::from(b[1]) << 8) | u32::from(b[2]);
        for k in 0..4 {
            if k <= chunk.len() {
                out.push(char::from(ALPHABET[((n >> (18 - 6 * k)) & 63) as usize]));
            } else {
                out.push('=');
            }
        }
    }
    out
}

/// A PKCS#8 key as PEM text.
fn key_pem(der: &[u8]) -> String {
    let label = "PRIVATE KEY";
    format!("-----BEGIN {}-----\n{}\n-----END {}-----\n", label, base64(der), label)
}

fn load(cert: &str, key: &str, ca: &str) -> Result<(), ConfigError> {
    load_server_config(cert.as_bytes(), key.as_bytes(), ca.as_bytes()).map(|_| ())
}

#[test]
fn valid_inputs_build_a_config() {
    let config = load_server_config(SERVER_PEM.as_bytes(), key_pem(&SERVER_KEY_DER).as_bytes(), CA_PEM.as_bytes());
    assert!(config.is_ok());
    let _acceptor = create_tls_acceptor(config.unwrap());
}

#[test]
fn empty_certificate_text_has_no_certificate() {
    assert_eq!(load("", &key_pem(&SERVER_KEY_DER), CA_PEM), Err(ConfigError::NoCertificate));
}

#[test]
fn key_text_without_pkcs8_key_is_refused() {
    assert_eq!(load(SERVER_PEM, SERVER_PEM, CA_PEM), Err(ConfigError::NoPrivateKey));
}

#[test]
fn empty_ca_text_has_no_trust_anchor() {
    assert_eq!(load(SERVER_PEM, &key_pem(&SERVER_KEY_DER), ""), Err(ConfigError::NoTrustAnchor));
}

#[test]
fn undecodable_ca_is_not_a_trust_anchor() {
    assert_eq!(load(SERVER_PEM, &key_pem(&SERVER_KEY_DER), JUNK_CERT_PEM), Err(ConfigError::InvalidTrustAnchor));
}

#[test]
fn undecodable_key_is_rejected_by_rustls() {
    assert_eq!(load(SERVER_PEM, &key_pem(&JUNK_KEY_DER), CA_PEM), Err(ConfigError::Rejected));
}

#[test]
fn broken_pem_is_a_read_error() {
    let broken = "-----BEGIN CERTIFICATE-----\n!!!!\n-----END CERTIFICATE-----\n";
    assert_eq!(load(broken, &key_pem(&SERVER_KEY_DER), CA_PEM), Err(ConfigError::CertificatePem));
}

#[test]
fn no_client_certificate_fails_verification() {
    assert!(!verify_client_cert(&[]));
    assert!(verify_client_cert(&[rustls::Certificate(vec![1, 2, 3])]));
}

#[test]
fn tls_errors_map_to_auth_errors() {
    assert_eq!(auth_error_of(TlsErrorKind::NoCertificatesPresented), AuthError::NoCertificate);
    assert_eq!(
        auth_error_of(TlsErrorKind::InvalidCertificate),
        AuthError::UntrustedOrInvalidCertificate
    );
    assert_eq!(auth_error_of(TlsErrorKind::Other), AuthError::HandshakeFailure);
}

#[test]
fn inputs_are_the_chain_the_first_key_and_every_ca() {
    let key = key_pem(&SERVER_KEY_DER);
    let two_keys = format!("{}{}", key, key_pem(&JUNK_KEY_DER));
    let inputs = server_config_inputs(SERVER_PEM.as_bytes(), two_keys.as_bytes(), CA_PEM.as_bytes())
        .map_err(|_| ())
        .unwrap();
    let mut rd: &[u8] = SERVER_PEM.as_bytes();
    assert_eq!(inputs.chain, rustls_pemfile::certs(&mut rd).unwrap());
    assert_eq!(inputs.chain.len(), 1);
    assert_eq!(inputs.key, SERVER_KEY_DER.to_vec());
    assert_eq!(inputs.roots.len(), 1);
}

#[test]
fn inputs_report_the_first_problem() {
    assert_eq!(
        server_config_inputs(SERVER_PEM.as_bytes(), b"", CA_PEM.as_bytes()).map(|_| ()).err(),
        Some(ConfigError::NoPrivateKey)
    );
}

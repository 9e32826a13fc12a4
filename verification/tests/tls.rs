//! The preparation of TLS options, and encrypted dials.

use std::io::{Error, ErrorKind};
use std::path::PathBuf;
use std::time::Duration;

use rcgen::{
    BasicConstraints, CertificateParams, CertifiedIssuer, DnType, ExtendedKeyUsagePurpose, IsCa,
    KeyPair, KeyUsagePurpose,
};
use yadgar_dial::tls::{check_bundle, require_certificates, require_trust_anchor};
use yadgar_dial::{
    connect_tls, connect_tls_with_request_timeout, AddressSet, BalanceError, Boot, Change,
    Connecting, Peer, Preparation, SocketAddr, TlsOptions,
};

const SERVED_NAME: &str = "localhost";
const CALLER_NAME: &str = "yadgar-dial-test-caller";
const PORT: u16 = 50051;

/// A certificate authority, and a certificate and a key that it issued.
struct Pki {
    ca_pem: String,
    cert_pem: String,
    key_pem: String,
}

fn pki(san: &str, purpose: ExtendedKeyUsagePurpose) -> Pki {
    let ca_key = KeyPair::generate().unwrap();
    let mut ca_params = CertificateParams::new(Vec::<String>::new()).unwrap();
    ca_params.is_ca = IsCa::Ca(BasicConstraints::Unconstrained);
    ca_params.key_usages = vec![KeyUsagePurpose::KeyCertSign, KeyUsagePurpose::CrlSign];
    ca_params
        .distinguished_name
        .push(DnType::CommonName, "yadgar-dial test authority");
    let ca = CertifiedIssuer::self_signed(ca_params, ca_key).unwrap();

    let key = KeyPair::generate().unwrap();
    let mut params = CertificateParams::new(vec![san.to_string()]).unwrap();
    params.extended_key_usages = vec![purpose];
    params.distinguished_name.push(DnType::CommonName, san);
    let cert = params.signed_by(&key, &ca).unwrap();

    Pki {
        ca_pem: ca.pem(),
        cert_pem: cert.pem(),
        key_pem: key.serialize_pem(),
    }
}

fn missing() -> Error {
    Error::new(ErrorKind::NotFound, "No such file or directory (os error 2)")
}

/// The files of a test: what each path holds. A path that is not listed is missing.
type Files<'a> = &'a [(&'a str, &'a str)];

fn read(files: Files, path: &PathBuf) -> Result<Vec<u8>, Error> {
    for (name, contents) in files {
        if PathBuf::from(name) == *path {
            return Ok(contents.as_bytes().to_vec());
        }
    }
    Err(missing())
}

/// Dials with the files there are.
fn dial(host: &str, options: &TlsOptions, files: Files) -> Result<Boot, BalanceError> {
    let mut preparing = connect_tls(host, PORT, options);
    loop {
        let contents = read(files, preparing.path());
        match preparing.read(contents)? {
            Connecting::Read(next) => preparing = next,
            Connecting::Resolve(boot) => return Ok(boot),
        }
    }
}

/// The configuration as text, prepared from the files there are.
fn prepared(host: &str, options: &TlsOptions, files: Files) -> String {
    let mut reading = options.prepare(host);
    loop {
        let contents = read(files, reading.path());
        match reading.read(contents).unwrap_or_else(|e| panic!("{}", e.message())) {
            Preparation::Read(next) => reading = next,
            Preparation::Ready(config) => return format!("{config:?}"),
        }
    }
}

fn error_of(outcome: Result<Boot, BalanceError>) -> BalanceError {
    match outcome {
        Err(error) => error,
        Ok(_) => panic!("the dial must be refused"),
    }
}

#[test]
fn a_ca_bundle_with_no_certificate_in_it_is_an_error() {
    for contents in ["", "   ", "\n", "there is no certificate in this file\n"] {
        let outcome = dial(SERVED_NAME, &TlsOptions::new("ca.pem"), &[("ca.pem", contents)]);
        let error = error_of(outcome);
        assert!(
            matches!(error, BalanceError::CaEmpty { .. }),
            "a bundle containing {contents:?} must be rejected, not connected: {error:?}"
        );
    }
}

/// The body is a real private key's base64 in the frame of a certificate: it decodes,
/// and is no certificate.
#[test]
fn a_ca_bundle_whose_sections_are_not_trust_anchors_is_an_error() {
    let p = pki(SERVED_NAME, ExtendedKeyUsagePurpose::ServerAuth);
    let body = p
        .key_pem
        .lines()
        .filter(|line| !line.starts_with("-----"))
        .collect::<Vec<_>>()
        .join("\n");
    let contents = format!("-----BEGIN CERTIFICATE-----\n{body}\n-----END CERTIFICATE-----\n");

    let outcome = dial(SERVED_NAME, &TlsOptions::new("ca.pem"), &[("ca.pem", &contents)]);
    let error = error_of(outcome);
    assert!(
        matches!(error, BalanceError::CaNoTrustAnchor { sections: 1, .. }),
        "a bundle holding one PEM section and no trust anchor must be rejected, not connected: \
         {error:?}"
    );

    let twice = format!("{contents}{contents}");
    let outcome = dial(SERVED_NAME, &TlsOptions::new("ca.pem"), &[("ca.pem", &twice)]);
    assert!(matches!(
        error_of(outcome),
        BalanceError::CaNoTrustAnchor { sections: 2, .. }
    ));

    // One certificate that can anchor trust is enough.
    let mixed = format!("{contents}{}", p.ca_pem);
    assert!(dial(SERVED_NAME, &TlsOptions::new("ca.pem"), &[("ca.pem", &mixed)]).is_ok());
}

#[test]
fn a_ca_bundle_that_is_not_pem_is_an_error() {
    for contents in [
        "-----BEGIN CERTIFICATE-----\nnot base64!\n-----END CERTIFICATE-----\n",
        "-----BEGIN CERTIFICATE-----\nAAAA\n",
    ] {
        let outcome = dial(SERVED_NAME, &TlsOptions::new("ca.pem"), &[("ca.pem", contents)]);
        match error_of(outcome) {
            BalanceError::CaUnparsable { path, .. } => assert_eq!(path, PathBuf::from("ca.pem")),
            other => panic!("expected a bundle that cannot be decoded: {other:?}"),
        }
    }
}

#[test]
fn a_ca_bundle_that_cannot_be_read_is_an_error() {
    let options = TlsOptions::new("/tmp/yadgar-dial-no-such-bundle-9d3f1a.pem");
    match error_of(dial(SERVED_NAME, &options, &[])) {
        BalanceError::CaUnreadable { path, source } => {
            assert_eq!(
                path,
                PathBuf::from("/tmp/yadgar-dial-no-such-bundle-9d3f1a.pem")
            );
            assert_eq!(source.kind(), ErrorKind::NotFound);
        }
        other => panic!("a CA path that does not exist must be rejected: {other:?}"),
    }
}

#[test]
fn the_bundle_is_checked_before_the_host_is_resolved() {
    let options = TlsOptions::new("/tmp/yadgar-dial-no-such-bundle-4b7e02.pem");
    let error = error_of(dial("a-host-that-does-not-resolve.invalid", &options, &[]));
    assert!(
        matches!(error, BalanceError::CaUnreadable { .. }),
        "the configuration error must win over the DNS failure: {error:?}"
    );
}

#[test]
fn a_client_certificate_that_cannot_be_read_is_an_error() {
    let p = pki(CALLER_NAME, ExtendedKeyUsagePurpose::ClientAuth);
    let missing = "/tmp/yadgar-dial-no-such-identity-6c02af.pem";
    let files: Files = &[
        ("ca.pem", &p.ca_pem),
        ("cert.pem", &p.cert_pem),
        ("key.pem", &p.key_pem),
    ];

    let options = TlsOptions::new("ca.pem").identity(missing, "key.pem");
    match error_of(dial(SERVED_NAME, &options, files)) {
        BalanceError::ClientCertificateUnreadable { path, .. } => {
            assert_eq!(path, PathBuf::from(missing));
        }
        other => panic!("a client certificate that is not there must be rejected: {other:?}"),
    }

    let options = TlsOptions::new("ca.pem").identity("cert.pem", missing);
    match error_of(dial(SERVED_NAME, &options, files)) {
        BalanceError::ClientKeyUnreadable { path, .. } => {
            assert_eq!(path, PathBuf::from(missing));
        }
        other => panic!("a client key that is not there must be rejected: {other:?}"),
    }
}

#[test]
fn an_empty_client_certificate_is_an_error_rather_than_an_anonymous_dial() {
    let p = pki(CALLER_NAME, ExtendedKeyUsagePurpose::ClientAuth);
    let options = TlsOptions::new("ca.pem").identity("empty.pem", "key.pem");
    let files: Files = &[
        ("ca.pem", &p.ca_pem),
        ("empty.pem", ""),
        ("key.pem", &p.key_pem),
    ];
    let error = error_of(dial(SERVED_NAME, &options, files));
    assert!(
        matches!(error, BalanceError::Tls { .. }),
        "an empty client certificate must be refused where the connector is built, not produce \
         a channel that dials anonymously: {error:?}"
    );
}

/// What is presented has to decode, and an empty key is no key.
#[test]
fn a_client_certificate_that_does_not_decode_is_refused() {
    let p = pki(CALLER_NAME, ExtendedKeyUsagePurpose::ClientAuth);
    let broken = "-----BEGIN CERTIFICATE-----\nnot base64!\n-----END CERTIFICATE-----\n";
    let files: Files = &[
        ("ca.pem", &p.ca_pem),
        ("cert.pem", &p.cert_pem),
        ("key.pem", &p.key_pem),
        ("broken.pem", broken),
        ("empty.pem", ""),
    ];
    for (certificate, key) in [
        ("broken.pem", "key.pem"),
        ("cert.pem", "empty.pem"),
        ("cert.pem", "cert.pem"),
    ] {
        let options = TlsOptions::new("ca.pem").identity(certificate, key);
        let error = error_of(dial(SERVED_NAME, &options, files));
        assert!(
            matches!(error, BalanceError::Tls { .. }),
            "{certificate} with {key}: {error:?}"
        );
    }
    let options = TlsOptions::new("ca.pem").identity("cert.pem", "key.pem");
    assert!(dial(SERVED_NAME, &options, files).is_ok());
}

#[test]
fn an_encrypted_dial_is_encrypted_at_the_name_and_at_every_address() {
    let p = pki(SERVED_NAME, ExtendedKeyUsagePurpose::ServerAuth);
    let files: Files = &[("ca.pem", &p.ca_pem)];
    let address = SocketAddr::V4 { ip: 0x7f00_0001, port: PORT };

    let boot = dial(SERVED_NAME, &TlsOptions::new("ca.pem"), files)
        .unwrap_or_else(|e| panic!("{}", e.message()));
    assert!(boot.secured());
    let launch = boot
        .resolved(Ok(AddressSet::new()))
        .unwrap_or_else(|e| panic!("{}", e.message()));
    match &launch.inserts[..] {
        [Change::Insert(Peer::Unresolved, endpoint)] => {
            assert_eq!(endpoint.uri().to_string(), "https://localhost:50051/");
        }
        _ => panic!("the name alone is held"),
    }

    let boot = dial(SERVED_NAME, &TlsOptions::new("ca.pem"), files)
        .unwrap_or_else(|e| panic!("{}", e.message()));
    let launch = boot
        .resolved(Ok(AddressSet::from_addresses(&vec![address])))
        .unwrap_or_else(|e| panic!("{}", e.message()));
    match &launch.inserts[..] {
        [Change::Insert(Peer::Address(at), endpoint)] => {
            assert_eq!(*at, address);
            assert_eq!(endpoint.uri().to_string(), "https://127.0.0.1:50051/");
        }
        _ => panic!("the address alone is held"),
    }
}

/// The files are asked for in order, and a client certificate only where one is
/// configured.
#[test]
fn the_files_are_read_in_order() {
    let p = pki(CALLER_NAME, ExtendedKeyUsagePurpose::ClientAuth);
    let options = TlsOptions::new("ca.pem").identity("cert.pem", "key.pem");
    let preparing = connect_tls_with_request_timeout(
        SERVED_NAME,
        PORT,
        &options,
        Duration::from_millis(750),
    );
    assert_eq!(preparing.path(), &PathBuf::from("ca.pem"));
    let preparing = match preparing.read(Ok(p.ca_pem.clone().into_bytes())) {
        Ok(Connecting::Read(next)) => next,
        _ => panic!("a client certificate is configured"),
    };
    assert_eq!(preparing.path(), &PathBuf::from("cert.pem"));
    let preparing = match preparing.read(Ok(p.cert_pem.into_bytes())) {
        Ok(Connecting::Read(next)) => next,
        _ => panic!("the certificate has a key"),
    };
    assert_eq!(preparing.path(), &PathBuf::from("key.pem"));
    match preparing.read(Ok(p.key_pem.into_bytes())) {
        Ok(Connecting::Resolve(boot)) => assert_eq!(boot.host(), SERVED_NAME),
        _ => panic!("there is nothing else to read"),
    }

    let plain = TlsOptions::new("ca.pem");
    match connect_tls(SERVED_NAME, PORT, &plain).read(Ok(p.ca_pem.into_bytes())) {
        Ok(Connecting::Resolve(boot)) => assert_eq!(boot.port(), PORT),
        _ => panic!("there is nothing else to read"),
    }
}

/// What the configuration holds: the bundle, the name and the bound, and no
/// certificate of this side unless one is set.
#[test]
fn the_configuration_holds_what_was_asked_for() {
    let p = pki(SERVED_NAME, ExtendedKeyUsagePurpose::ServerAuth);
    let bundle = format!("certs: [Certificate {{ pem: {:?} }}]", p.ca_pem.as_bytes());
    let files: Files = &[
        ("ca.pem", &p.ca_pem),
        ("cert.pem", "certificate"),
        ("key.pem", "key"),
    ];

    let by_host = prepared(SERVED_NAME, &TlsOptions::new("ca.pem"), files);
    assert!(by_host.contains("domain: Some(\"localhost\")"), "{by_host}");
    assert!(by_host.contains(&bundle), "{by_host}");
    assert!(by_host.contains("identity: None"), "{by_host}");
    assert!(by_host.contains("timeout: Some(2s)"), "{by_host}");
    assert!(by_host.contains("trust_anchors: []"), "{by_host}");

    let options = TlsOptions::new("ca.pem")
        .domain_name("dial-pins-this-name.invalid")
        .identity("cert.pem", "key.pem");
    let by_name = prepared(SERVED_NAME, &options, files);
    assert!(
        by_name.contains("domain: Some(\"dial-pins-this-name.invalid\")"),
        "{by_name}"
    );
    assert!(by_name.contains(&bundle), "{by_name}");
    assert!(
        by_name.contains(&format!(
            "identity: Some(Identity {{ cert: Certificate {{ pem: {:?} }}, key: {:?} }})",
            b"certificate", b"key"
        )),
        "{by_name}"
    );
    assert!(by_name.contains("timeout: Some(2s)"), "{by_name}");
}

#[test]
fn the_last_option_that_is_set_counts() {
    let p = pki(SERVED_NAME, ExtendedKeyUsagePurpose::ServerAuth);
    let options = TlsOptions::new(PathBuf::from("ca.pem"))
        .domain_name("first.invalid")
        .domain_name(String::from("second.invalid"));
    let text = prepared(SERVED_NAME, &options.clone(), &[("ca.pem", &p.ca_pem)]);
    assert!(text.contains("domain: Some(\"second.invalid\")"), "{text}");
}

#[test]
fn a_bundle_is_judged_by_what_decoding_it_gave() {
    let path = PathBuf::from("ca.pem");
    let refused = rustls_pki_types::pem::Error::Base64Decode("why".to_string());
    match require_certificates(&path, Err(refused)) {
        Err(BalanceError::CaUnparsable { path: at, source }) => {
            assert_eq!(at, path);
            assert!(source.to_string().contains("why"));
        }
        other => panic!("expected a bundle that cannot be decoded: {other:?}"),
    }
    assert!(matches!(
        require_certificates(&path, Ok(vec![])),
        Err(BalanceError::CaEmpty { .. })
    ));
    assert_eq!(
        require_certificates(&path, Ok(vec![vec![1], vec![2, 3]])).unwrap(),
        vec![vec![1], vec![2, 3]]
    );

    assert!(require_trust_anchor(&path, 3, 1).is_ok());
    match require_trust_anchor(&path, 3, 0) {
        Err(BalanceError::CaNoTrustAnchor { path: at, sections }) => {
            assert_eq!(at, path);
            assert_eq!(sections, 3);
        }
        other => panic!("expected a bundle without a trust anchor: {other:?}"),
    }

    let p = pki(SERVED_NAME, ExtendedKeyUsagePurpose::ServerAuth);
    assert!(check_bundle(&path, &p.ca_pem.into_bytes()).is_ok());
    assert!(matches!(
        check_bundle(&path, &p.key_pem.into_bytes()),
        Err(BalanceError::CaEmpty { .. })
    ));
}

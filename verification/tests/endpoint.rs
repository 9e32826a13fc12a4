//! Authorities and endpoints.

use std::time::Duration;

use tonic::transport::ClientTlsConfig;
use yadgar_dial::endpoint::{authority_for, host_outcome, tls_outcome};
use yadgar_dial::{
    authority, default_request_timeout, endpoint, lookup_target, BalanceError, SocketAddr,
};

const ADDR: SocketAddr = SocketAddr::V4 { ip: 0x0a00_0001, port: 50051 };

fn flattened(error: &dyn std::error::Error) -> String {
    let mut rendered = error.to_string();
    let mut source = error.source();
    while let Some(current) = source {
        rendered.push_str(": ");
        rendered.push_str(&current.to_string());
        source = current.source();
    }
    rendered
}

#[test]
fn the_scheme_follows_the_tls_configuration() {
    assert_eq!(ADDR.text(), "10.0.0.1:50051");

    let cleartext = endpoint(&ADDR.text(), None, default_request_timeout()).unwrap();
    assert_eq!(cleartext.uri().scheme_str(), Some("http"));

    let secured = endpoint(
        &ADDR.text(),
        Some(&ClientTlsConfig::new().domain_name("task-db")),
        default_request_timeout(),
    )
    .expect("a TLS endpoint with a valid domain builds");
    assert_eq!(secured.uri().scheme_str(), Some("https"));
}

#[test]
fn an_ipv6_literal_host_is_bracketed_and_a_name_is_not() {
    assert_eq!(authority("::1", 50051), "[::1]:50051");
    assert_eq!(authority("task-db", 50051), "task-db:50051");
    assert_eq!(authority("10.0.0.1", 50051), "10.0.0.1:50051");

    // And what the brackets are for: without them, this is `InvalidHost`.
    let built = endpoint(&authority("::1", 50051), None, default_request_timeout())
        .expect("an IPv6 literal must still be dialable");
    assert_eq!(
        built.uri().authority().map(|a| a.as_str()),
        Some("[::1]:50051")
    );
}

#[test]
fn an_ipv6_literal_is_written_in_its_canonical_form() {
    assert_eq!(authority("FE80:0:0:0:0:0:0:1", 80), "[fe80::1]:80");
    assert_eq!(authority("::ffff:10.0.0.1", 1), "[::ffff:10.0.0.1]:1");
    // With brackets or a zone it is no literal, and is left as it is.
    assert_eq!(authority("[::1]", 80), "[::1]:80");
    assert_eq!(authority("fe80::1%7", 80), "fe80::1%7:80");
}

#[test]
fn the_authority_follows_the_literal_it_is_given() {
    assert_eq!(authority_for("::1", Some("::1"), 50051), "[::1]:50051");
    assert_eq!(authority_for("task-db", None, 0), "task-db:0");
    assert_eq!(authority_for("", None, 65535), ":65535");
}

/// What a resolver takes has no brackets.
#[test]
fn a_resolver_is_asked_for_the_host_as_it_is() {
    assert_eq!(lookup_target("task-db", 50051), "task-db:50051");
    assert_eq!(lookup_target("::1", 50051), "::1:50051");
}

#[test]
fn an_ipv6_literal_without_brackets_is_no_authority() {
    let outcome = endpoint("::1:50051", None, default_request_timeout());
    match outcome {
        Err(BalanceError::InvalidHost { host }) => assert_eq!(host, "::1:50051"),
        other => panic!("expected an invalid host: {other:?}"),
    }
}

/// The host is refused before the TLS configuration is looked at.
#[test]
fn a_host_that_is_no_authority_is_refused_with_tls_too() {
    let tls = ClientTlsConfig::new().domain_name("not a server name");
    let outcome = endpoint("not a host name:1", Some(&tls), default_request_timeout());
    match outcome {
        Err(BalanceError::InvalidHost { host }) => assert_eq!(host, "not a host name:1"),
        other => panic!("expected an invalid host: {other:?}"),
    }
}

#[test]
fn an_endpoint_is_dialled_at_its_address_within_the_bound() {
    let built = endpoint(&ADDR.text(), None, Duration::from_millis(750)).unwrap();
    assert_eq!(built.uri().to_string(), "http://10.0.0.1:50051/");
    assert_eq!(built.get_connect_timeout(), Some(Duration::from_secs(2)));

    let v6 = SocketAddr::V6 { ip: 1, port: 50051, flowinfo: 0, scope_id: 0 };
    let built = endpoint(&v6.text(), None, Duration::from_millis(750)).unwrap();
    assert_eq!(built.uri().to_string(), "http://[::1]:50051/");
}

/// A socket address always forms an authority, with a scope or without.
#[test]
fn every_address_can_be_dialled() {
    let v6 = |ip, scope_id| SocketAddr::V6 { ip, port: 65535, flowinfo: 7, scope_id };
    for address in [
        SocketAddr::V4 { ip: 0, port: 0 },
        SocketAddr::V4 { ip: u32::MAX, port: 65535 },
        v6(0, 0),
        v6(u128::MAX, u32::MAX),
        v6(0xffff_0a00_0001, 0),
        v6(0xfe80_0000_0000_0000_0123_4567_89ab_cdef, 4),
    ] {
        let built = endpoint(&address.text(), None, default_request_timeout());
        match built {
            Ok(built) => {
                assert_eq!(built.uri().to_string(), format!("http://{}/", address.text()));
            }
            Err(error) => panic!("{}: {}", address.text(), error.message()),
        }
        let tls = ClientTlsConfig::new().domain_name("task-db");
        assert!(endpoint(&address.text(), Some(&tls), default_request_timeout()).is_ok());
    }
}

/// Where the configuration names nothing to verify against, the URI does.
#[test]
fn a_configuration_without_a_name_takes_it_from_the_uri() {
    let tls = ClientTlsConfig::new();
    assert!(endpoint("task-db:50051", Some(&tls), default_request_timeout()).is_ok());
    assert!(endpoint(&ADDR.text(), Some(&tls), default_request_timeout()).is_ok());
    assert!(matches!(
        endpoint("under_score!:50051", Some(&tls), default_request_timeout()),
        Err(BalanceError::Tls { .. })
    ));
}

/// A configuration that is refused for one address is refused for every other, and for
/// the name.
#[test]
fn a_refusal_does_not_depend_on_what_is_dialled() {
    let refused = ClientTlsConfig::new().domain_name("not a server name");
    let accepted = ClientTlsConfig::new().domain_name("10.0.0.1");
    for authority in ["task-db:50051", "10.0.0.1:50051", "10.0.0.2:1", "[::1]:50051"] {
        assert!(matches!(
            endpoint(authority, Some(&refused), default_request_timeout()),
            Err(BalanceError::Tls { .. })
        ));
        assert!(endpoint(authority, Some(&accepted), default_request_timeout()).is_ok());
    }
}

#[test]
fn a_host_that_is_not_a_valid_server_name_is_refused() {
    let tls = ClientTlsConfig::new().domain_name("not a server name");
    assert!(matches!(
        endpoint(&ADDR.text(), Some(&tls), default_request_timeout()),
        Err(BalanceError::Tls { .. })
    ));
}

#[test]
fn the_tls_variant_does_not_repeat_the_transport_layer() {
    let tls = ClientTlsConfig::new().domain_name("not a server name");
    let error = match endpoint(&ADDR.text(), Some(&tls), default_request_timeout()) {
        Err(error) => error,
        Ok(_) => panic!("a host that is not a valid server name must be refused"),
    };
    let source = match &error {
        BalanceError::Tls { source } => source,
        other => panic!("expected a TLS error: {other:?}"),
    };
    let flat = format!("{}: {}", error.message(), flattened(source));
    assert_eq!(
        flat.matches("transport error").count(),
        1,
        "the transport layer must appear once, not twice: {flat}"
    );
    assert_eq!(
        flat,
        "TLS could not be configured: transport error: invalid dns name"
    );
}

#[test]
fn a_refusal_is_named_for_what_refused() {
    let refused = || tonic::transport::Endpoint::from_shared("not a uri").unwrap_err();
    match host_outcome("here:1", Err(refused())) {
        Err(BalanceError::InvalidHost { host }) => assert_eq!(host, "here:1"),
        other => panic!("expected an invalid host: {other:?}"),
    }
    assert!(matches!(
        tls_outcome(Err(refused())),
        Err(BalanceError::Tls { .. })
    ));
    let built = endpoint(&ADDR.text(), None, default_request_timeout()).unwrap();
    let built = tls_outcome(host_outcome("here:1", Ok(built)).map_err(|_| refused())).unwrap();
    assert_eq!(built.uri().to_string(), "http://10.0.0.1:50051/");
}

//! What errors say.

use std::path::PathBuf;
use std::time::Duration;

use yadgar_dial::BalanceError;

/// The cause of an error, for whoever walks the chain.
fn cause(error: &BalanceError) -> Option<&dyn std::error::Error> {
    match error {
        BalanceError::Dns { source, .. }
        | BalanceError::CaUnreadable { source, .. }
        | BalanceError::ClientCertificateUnreadable { source, .. }
        | BalanceError::ClientKeyUnreadable { source, .. } => Some(source),
        BalanceError::CaUnparsable { source, .. } => Some(source),
        BalanceError::Tls { source } => Some(source),
        BalanceError::DnsTimedOut { .. }
        | BalanceError::InvalidHost { .. }
        | BalanceError::CaEmpty { .. }
        | BalanceError::CaNoTrustAnchor { .. } => None,
    }
}

/// The message of an error and of each of its causes, as a walk of the chain prints
/// them.
fn flattened(error: &BalanceError) -> String {
    let mut rendered = error.message();
    let mut source = cause(error);
    while let Some(current) = source {
        rendered.push_str(": ");
        rendered.push_str(&current.to_string());
        source = current.source();
    }
    rendered
}

#[test]
fn a_variant_that_marks_a_source_does_not_also_interpolate_it() {
    const SENTINEL: &str = "sentinel-inner-cause";
    let io = || std::io::Error::new(std::io::ErrorKind::NotFound, SENTINEL);
    let path = || PathBuf::from("/nonexistent/pem");

    let cases: Vec<(&str, BalanceError)> = vec![
        (
            "Dns",
            BalanceError::Dns {
                host: "task-db".to_string(),
                source: io(),
            },
        ),
        (
            "CaUnreadable",
            BalanceError::CaUnreadable {
                path: path(),
                source: io(),
            },
        ),
        (
            "CaUnparsable",
            BalanceError::CaUnparsable {
                path: path(),
                source: rustls_pki_types::pem::Error::Base64Decode(SENTINEL.to_string()),
            },
        ),
        (
            "ClientCertificateUnreadable",
            BalanceError::ClientCertificateUnreadable {
                path: path(),
                source: io(),
            },
        ),
        (
            "ClientKeyUnreadable",
            BalanceError::ClientKeyUnreadable {
                path: path(),
                source: io(),
            },
        ),
    ];

    for (variant, error) in cases {
        assert!(cause(&error).is_some(), "{variant} must keep its cause");
        let flat = flattened(&error);
        assert_eq!(
            flat.matches(SENTINEL).count(),
            1,
            "{variant} prints its cause {} time(s) in a walked chain, not once: {flat}",
            flat.matches(SENTINEL).count()
        );
    }
}

#[test]
fn the_walked_message_for_an_unreadable_bundle_reads_end_to_end() {
    let error = BalanceError::CaUnreadable {
        path: PathBuf::from("/nonexistent/ca.pem"),
        source: std::io::Error::new(
            std::io::ErrorKind::NotFound,
            "No such file or directory (os error 2)",
        ),
    };
    assert_eq!(
        flattened(&error),
        "TLS was requested, so a CA certificate bundle that cannot be read \
         is an error rather than a reason to connect in cleartext. The \
         bundle at /nonexistent/ca.pem could not be read: No such file or \
         directory (os error 2)"
    );
}

#[test]
fn every_other_message_reads_in_full() {
    let io = || std::io::Error::new(std::io::ErrorKind::NotFound, "gone");
    let host = || "task-db:50051".to_string();
    let path = || PathBuf::from("/etc/tls/ca.crt");

    assert_eq!(
        BalanceError::DnsTimedOut { host: host(), after: Duration::from_secs(5) }.message(),
        "resolving task-db:50051 did not finish within 5s. This is NOT a name that does not \
         exist — that answers, and answers quickly. It is a resolver that stopped answering at \
         all, and the caller is released rather than left waiting with no end. The lookup \
         itself runs on the blocking pool and cannot be cancelled: that thread stays parked \
         until the resolver replies."
    );
    assert_eq!(
        BalanceError::InvalidHost { host: host() }.message(),
        "task-db:50051 cannot be dialled at all: it does not form a URI authority. This is NOT \
         an upstream that is absent — no resolution will ever fix it — so it is reported before \
         a channel exists rather than deferred to a lazy dial that could never succeed."
    );
    assert_eq!(
        BalanceError::Dns { host: host(), source: io() }.message(),
        "could not resolve task-db:50051"
    );
    assert_eq!(
        BalanceError::CaUnparsable {
            path: path(),
            source: rustls_pki_types::pem::Error::NoItemsFound,
        }
        .message(),
        "could not decode the CA certificate bundle at /etc/tls/ca.crt"
    );
    assert_eq!(
        BalanceError::CaEmpty { path: path() }.message(),
        "the CA certificate bundle at /etc/tls/ca.crt decoded without error but contains no \
         certificate. That is not the same as a missing file: the PEM reader returns an empty \
         list for input with no certificate section, so an empty or truncated bundle would \
         otherwise produce a trust store with no roots — which trusts nobody and fails much \
         later, at the handshake."
    );
    assert_eq!(
        BalanceError::CaNoTrustAnchor { path: path(), sections: 12 }.message(),
        "the CA certificate bundle at /etc/tls/ca.crt holds 12 PEM certificate section(s) and \
         NONE of them is a usable trust anchor. That is not the same as an empty bundle: the \
         sections are present and they decode as PEM, so counting them says the file is fine. \
         tonic builds its root store with `add_parsable_certificates`, which reports how many \
         it accepted and how many it threw away, and discards that report — so a bundle like \
         this one produces a trust store with no roots and no error, and fails much later, at \
         the handshake."
    );
    assert_eq!(
        BalanceError::ClientCertificateUnreadable { path: path(), source: io() }.message(),
        "a client certificate was configured, so one that cannot be read is an error rather \
         than a reason to connect without presenting one. The certificate at /etc/tls/ca.crt \
         could not be read"
    );
    assert_eq!(
        BalanceError::ClientKeyUnreadable { path: path(), source: io() }.message(),
        "a client certificate without its key proves nothing, so a key that cannot be read is \
         an error rather than a reason to connect without presenting one. The key at \
         /etc/tls/ca.crt could not be read"
    );
}

#[test]
fn a_bound_is_written_with_its_unit() {
    let message = |after| BalanceError::DnsTimedOut { host: String::new(), after }.message();
    let long = message(Duration::from_millis(1500));
    assert!(long.starts_with("resolving  did not finish within 1.5s. "), "{long}");
    let short = message(Duration::from_millis(20));
    assert!(short.starts_with("resolving  did not finish within 20ms. "), "{short}");
}

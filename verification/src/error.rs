//! The one error type that every entry point of this crate returns.

use std::path::PathBuf;
use std::time::Duration;

use vstd::prelude::*;
use vstd::string::*;

use crate::messages;
use crate::system::{debug_duration, display_path, duration_text, path_text};
use crate::text::{decimal, decimal_text, join};

verus! {

/// Why a dial could not be set up, or a name not be resolved.
#[derive(Debug)]
pub enum BalanceError {
    /// The resolver did not answer within the bound.
    DnsTimedOut {
        /// What was being resolved.
        host: String,
        /// The bound.
        after: Duration,
    },
    /// What was to be dialled does not form a URI authority.
    InvalidHost {
        /// What was to be dialled.
        host: String,
    },
    /// The resolver answered with an error.
    Dns {
        /// What was being resolved.
        host: String,
        /// The resolver's error.
        source: std::io::Error,
    },
    /// The CA bundle could not be read.
    CaUnreadable {
        /// The bundle.
        path: PathBuf,
        /// Why not.
        source: std::io::Error,
    },
    /// The CA bundle is not PEM.
    CaUnparsable {
        /// The bundle.
        path: PathBuf,
        /// Why not.
        source: rustls_pki_types::pem::Error,
    },
    /// The CA bundle holds no certificate.
    CaEmpty {
        /// The bundle.
        path: PathBuf,
    },
    /// The CA bundle holds certificates, and none of them can anchor trust.
    CaNoTrustAnchor {
        /// The bundle.
        path: PathBuf,
        /// How many certificates it holds.
        sections: usize,
    },
    /// The client certificate could not be read.
    ClientCertificateUnreadable {
        /// The certificate.
        path: PathBuf,
        /// Why not.
        source: std::io::Error,
    },
    /// The key of the client certificate could not be read.
    ClientKeyUnreadable {
        /// The key.
        path: PathBuf,
        /// Why not.
        source: std::io::Error,
    },
    /// The TLS configuration was refused.
    Tls {
        /// Why.
        source: tonic::transport::Error,
    },
}

impl BalanceError {
    /// What the error says of itself. Its cause is not part of it.
    pub open spec fn spec_message(self) -> Seq<char> {
        match self {
            BalanceError::DnsTimedOut { host, after } => messages::DNS_TIMED_OUT_HEAD@ + host@
                + messages::DNS_TIMED_OUT_MIDDLE@ + duration_text(after)
                + messages::DNS_TIMED_OUT_TAIL@,
            BalanceError::InvalidHost { host } => host@ + messages::INVALID_HOST@,
            BalanceError::Dns { host, .. } => messages::DNS@ + host@,
            BalanceError::CaUnreadable { path, .. } => messages::CA_UNREADABLE_HEAD@ + path_text(
                path,
            ) + messages::CA_UNREADABLE_TAIL@,
            BalanceError::CaUnparsable { path, .. } => messages::CA_UNPARSABLE@ + path_text(path),
            BalanceError::CaEmpty { path } => messages::CA_EMPTY_HEAD@ + path_text(path)
                + messages::CA_EMPTY_TAIL@,
            BalanceError::CaNoTrustAnchor { path, sections } => messages::CA_NO_TRUST_ANCHOR_HEAD@
                + path_text(path) + messages::CA_NO_TRUST_ANCHOR_MIDDLE@ + decimal(sections as nat)
                + messages::CA_NO_TRUST_ANCHOR_TAIL@,
            BalanceError::ClientCertificateUnreadable { path, .. } =>
            messages::CLIENT_CERTIFICATE_UNREADABLE_HEAD@ + path_text(path)
                + messages::CLIENT_CERTIFICATE_UNREADABLE_TAIL@,
            BalanceError::ClientKeyUnreadable { path, .. } => messages::CLIENT_KEY_UNREADABLE_HEAD@
                + path_text(path) + messages::CLIENT_KEY_UNREADABLE_TAIL@,
            BalanceError::Tls { .. } => messages::TLS@,
        }
    }

    /// The message for an operator. Whoever prints a whole chain of causes appends
    /// the cause, so the message does not repeat it.
    pub fn message(&self) -> (res: String)
        ensures
            res@ == self.spec_message(),
    {
        match self {
            BalanceError::DnsTimedOut { host, after } => {
                let head = join(
                    messages::DNS_TIMED_OUT_HEAD,
                    host.as_str(),
                    messages::DNS_TIMED_OUT_MIDDLE,
                );
                join(head.as_str(), debug_duration(after).as_str(), messages::DNS_TIMED_OUT_TAIL)
            },
            BalanceError::InvalidHost { host } => host.clone().concat(messages::INVALID_HOST),
            BalanceError::Dns { host, .. } => messages::DNS.to_owned().concat(host.as_str()),
            BalanceError::CaUnreadable { path, .. } => join(
                messages::CA_UNREADABLE_HEAD,
                display_path(path).as_str(),
                messages::CA_UNREADABLE_TAIL,
            ),
            BalanceError::CaUnparsable { path, .. } => messages::CA_UNPARSABLE.to_owned().concat(
                display_path(path).as_str(),
            ),
            BalanceError::CaEmpty { path } => join(
                messages::CA_EMPTY_HEAD,
                display_path(path).as_str(),
                messages::CA_EMPTY_TAIL,
            ),
            BalanceError::CaNoTrustAnchor { path, sections } => {
                let head = join(
                    messages::CA_NO_TRUST_ANCHOR_HEAD,
                    display_path(path).as_str(),
                    messages::CA_NO_TRUST_ANCHOR_MIDDLE,
                );
                join(
                    head.as_str(),
                    decimal_text(*sections as u64).as_str(),
                    messages::CA_NO_TRUST_ANCHOR_TAIL,
                )
            },
            BalanceError::ClientCertificateUnreadable { path, .. } => join(
                messages::CLIENT_CERTIFICATE_UNREADABLE_HEAD,
                display_path(path).as_str(),
                messages::CLIENT_CERTIFICATE_UNREADABLE_TAIL,
            ),
            BalanceError::ClientKeyUnreadable { path, .. } => join(
                messages::CLIENT_KEY_UNREADABLE_HEAD,
                display_path(path).as_str(),
                messages::CLIENT_KEY_UNREADABLE_TAIL,
            ),
            BalanceError::Tls { .. } => messages::TLS.to_owned(),
        }
    }
}

} // verus!

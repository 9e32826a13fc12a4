//! Laws on the preparation of a TLS configuration.

use std::path::PathBuf;
use std::time::Duration;

use tonic::transport::Endpoint;
use vstd::prelude::*;

use crate::address::SocketAddr;
use crate::connect::{dial_outcome, read_outcome, Boot, Connecting, PreparingView};
use crate::endpoint::scheme;
use crate::error::BalanceError;
use crate::laws::launch::an_encrypted_dial_refuses_no_address;
use crate::resolve::address_outcome;
use crate::system::seconds;
use crate::tls::{
    bundle_error, bundle_settings, AwaitedView, IdentityPaths, PreparationView, ReadingView,
    TlsOptionsView,
};
use crate::transport::{begins_with, endpoint_settings, TlsSettings};
use crate::CONNECT_TIMEOUT_SECS;

verus! {

/// What reading a file gives, for each path.
pub type Files = spec_fn(PathBuf) -> Result<Seq<u8>, std::io::Error>;

/// How many files a preparation can still ask for after this one.
pub open spec fn files_left(awaited: AwaitedView) -> nat {
    match awaited {
        AwaitedView::Bundle => 2,
        AwaitedView::Certificate(_) => 1,
        AwaitedView::Key(..) => 0,
    }
}

/// What comes of a preparation where each file it asks for is read in turn.
pub open spec fn prepared_from(reading: ReadingView, files: Files) -> Result<
    TlsSettings,
    BalanceError,
>
    decreases files_left(reading.awaited),
{
    match reading.after(files(reading.path())) {
        Err(error) => Err(error),
        Ok(PreparationView::Ready(settings)) => Ok(settings),
        Ok(PreparationView::Read(next)) => prepared_from(next, files),
    }
}

/// What comes of the preparation of `options` for `host`.
pub open spec fn prepared(options: TlsOptionsView, host: Seq<char>, files: Files) -> Result<
    TlsSettings,
    BalanceError,
> {
    prepared_from(ReadingView { options, host, awaited: AwaitedView::Bundle }, files)
}

/// What comes of a preparation, in one piece: the bundle is read and checked, then
/// the client certificate is read, then its key, where they are configured; the
/// first thing that is wrong is the error.
pub proof fn a_preparation_in_one_piece(options: TlsOptionsView, host: Seq<char>, files: Files)
    ensures
        prepared(options, host, files) == match files(options.ca_certificate) {
            Err(source) => Err(BalanceError::CaUnreadable { path: options.ca_certificate, source }),
            Ok(pem) => match (bundle_error(options.ca_certificate, pem), options.identity) {
                (Some(error), _) => Err(error),
                (None, None) => Ok(bundle_settings(options, host, pem)),
                (None, Some(identity)) => match (files(identity.certificate), files(identity.key)) {
                    (Err(source), _) => Err(
                        BalanceError::ClientCertificateUnreadable {
                            path: identity.certificate,
                            source,
                        },
                    ),
                    (Ok(_), Err(source)) => Err(
                        BalanceError::ClientKeyUnreadable { path: identity.key, source },
                    ),
                    (Ok(certificate), Ok(key)) => Ok(
                        TlsSettings {
                            identity: Some((certificate, key)),
                            ..bundle_settings(options, host, pem)
                        },
                    ),
                },
            },
        },
{
    reveal_with_fuel(prepared_from, 3);
}

/// A configuration is made only from a bundle that could be read, decodes, holds a
/// certificate, and anchors trust. It trusts that bundle and nothing beside it,
/// verifies the peer against the host or the name that was set in its place, and
/// bounds the handshake.
pub proof fn a_configuration_trusts_its_bundle_alone(
    options: TlsOptionsView,
    host: Seq<char>,
    files: Files,
)
    requires
        prepared(options, host, files) is Ok,
    ensures
        files(options.ca_certificate) is Ok,
        bundle_error(options.ca_certificate, files(options.ca_certificate)->Ok_0) is None,
        prepared(options, host, files)->Ok_0.ca_certificates == seq![
            files(options.ca_certificate)->Ok_0,
        ],
        !prepared(options, host, files)->Ok_0.other_roots,
        prepared(options, host, files)->Ok_0.domain == Some(options.verified_name(host)),
        prepared(options, host, files)->Ok_0.timeout == Some(seconds(CONNECT_TIMEOUT_SECS)),
{
    a_preparation_in_one_piece(options, host, files);
}

/// A client certificate is presented exactly where one is configured, and it is the
/// one at the configured path, with its key.
pub proof fn a_client_certificate_is_presented_where_one_is_configured(
    options: TlsOptionsView,
    host: Seq<char>,
    files: Files,
)
    requires
        prepared(options, host, files) is Ok,
    ensures
        match (options.identity, prepared(options, host, files)->Ok_0.identity) {
            (None, None) => true,
            (Some(paths), Some((certificate, key))) => files(paths.certificate) == Ok::<
                Seq<u8>,
                std::io::Error,
            >(certificate) && files(paths.key) == Ok::<Seq<u8>, std::io::Error>(key),
            _ => false,
        },
{
    a_preparation_in_one_piece(options, host, files);
}

/// Whichever address an encrypted dial reaches, the peer's certificate is verified
/// against the host that was asked for, or the name that was set in its place.
pub proof fn the_peer_is_verified_against_the_host_not_the_address(
    options: TlsOptionsView,
    host: Seq<char>,
    files: Files,
    port: u16,
    request_timeout: Duration,
    boot: Boot,
    address: SocketAddr,
    endpoint: Endpoint,
)
    requires
        prepared(options, host, files) is Ok,
        dial_outcome(
            host,
            port,
            Some(prepared(options, host, files)->Ok_0),
            request_timeout,
            Ok(boot),
        ),
        address_outcome(boot@.target, address, Ok(endpoint)),
    ensures
        endpoint_settings(endpoint).tls matches Some(tls) && tls.domain == Some(
            options.verified_name(host),
        ),
        endpoint_settings(boot@.seed).tls == endpoint_settings(endpoint).tls,
{
    a_preparation_in_one_piece(options, host, files);
}

/// An encrypted dial that gets past its files is encrypted: its target carries a TLS
/// configuration, and the endpoint for its name has that configuration and a URI
/// that switches it on. No file, and no failure to read one, leads to cleartext.
pub proof fn there_is_no_way_to_cleartext(
    state: PreparingView,
    contents: Result<Seq<u8>, std::io::Error>,
    boot: Boot,
)
    requires
        read_outcome(state, contents, Ok(Connecting::Resolve(boot))),
    ensures
        boot@.target.tls is Some,
        endpoint_settings(boot@.seed).tls is Some,
        begins_with(endpoint_settings(boot@.seed).uri, scheme(true)),
{
}

/// An encrypted dial that presents no client certificate and gets past its files always
/// names what it verifies, so it refuses no address once it is set up.
pub proof fn an_anonymous_dial_refuses_no_address(
    options: TlsOptionsView,
    host: Seq<char>,
    files: Files,
    port: u16,
    request_timeout: Duration,
    boot: Boot,
    address: SocketAddr,
    error: BalanceError,
)
    requires
        options.identity is None,
        prepared(options, host, files) is Ok,
        dial_outcome(
            host,
            port,
            Some(prepared(options, host, files)->Ok_0),
            request_timeout,
            Ok(boot),
        ),
    ensures
        !address_outcome(boot@.target, address, Err(error)),
{
    a_preparation_in_one_piece(options, host, files);
    an_encrypted_dial_refuses_no_address(
        host,
        port,
        prepared(options, host, files)->Ok_0,
        request_timeout,
        boot,
        address,
        error,
    );
}

/// A name to verify against replaces the one before it, and leaves the bundle and the
/// certificate as they are.
pub proof fn the_last_domain_name_counts(options: TlsOptionsView, a: String, b: String)
    ensures
        options.with_domain_name(a).domain_name == Some(a),
        options.with_domain_name(a).ca_certificate == options.ca_certificate,
        options.with_domain_name(a).identity == options.identity,
        options.with_domain_name(a).with_domain_name(b) == options.with_domain_name(b),
{
}

/// A certificate and its key replace those before them, and leave the bundle and the
/// name as they are.
pub proof fn the_last_identity_counts(
    options: TlsOptionsView,
    certificate: PathBuf,
    key: PathBuf,
    other_certificate: PathBuf,
    other_key: PathBuf,
)
    ensures
        options.with_identity(certificate, key).identity == Some(
            IdentityPaths { certificate, key },
        ),
        options.with_identity(certificate, key).ca_certificate == options.ca_certificate,
        options.with_identity(certificate, key).domain_name == options.domain_name,
        options.with_identity(other_certificate, other_key).with_identity(certificate, key)
            == options.with_identity(certificate, key),
{
}

/// It does not matter whether the name or the certificate is set first.
pub proof fn the_setters_can_change_places(
    options: TlsOptionsView,
    domain_name: String,
    certificate: PathBuf,
    key: PathBuf,
)
    ensures
        options.with_domain_name(domain_name).with_identity(certificate, key)
            == options.with_identity(certificate, key).with_domain_name(domain_name),
{
}

} // verus!

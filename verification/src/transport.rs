//! What this crate takes on trust from `tonic`: the endpoint and TLS builders.

use std::time::Duration;

use tonic::transport::{Certificate, ClientTlsConfig, Endpoint, Identity};
use vstd::prelude::*;

use crate::address::SocketAddr;
use crate::pki::pem_certificates;

verus! {

/// One peer that can be dialled, and how.
#[verifier::external_type_specification]
#[verifier::external_body]
pub struct ExEndpoint(tonic::transport::Endpoint);

/// How a connection is encrypted and its peer verified.
#[verifier::external_type_specification]
#[verifier::external_body]
pub struct ExClientTlsConfig(tonic::transport::ClientTlsConfig);

/// Why `tonic` refused to build something. It is carried into an error.
#[verifier::external_type_specification]
#[verifier::external_body]
pub struct ExTransportError(tonic::transport::Error);

/// The settings of a TLS configuration.
pub ghost struct TlsSettings {
    /// The name that the peer's certificate is verified against.
    pub domain: Option<Seq<char>>,
    /// The PEM bundles whose certificates are trusted.
    pub ca_certificates: Seq<Seq<u8>>,
    /// The certificate that is presented to the peer, and its key, both in PEM.
    pub identity: Option<(Seq<u8>, Seq<u8>)>,
    /// How long the handshake may take.
    pub timeout: Option<Duration>,
    /// Whether anything is trusted beside the bundles: trust anchors that were added
    /// one by one, or the roots of the platform or of the web.
    pub other_roots: bool,
}

/// The settings of an endpoint.
pub ghost struct EndpointSettings {
    /// The URI that is dialled.
    pub uri: Seq<char>,
    /// How long a TCP connect may take.
    pub connect_timeout: Option<Duration>,
    /// How often an HTTP/2 keepalive ping is sent.
    pub keep_alive_interval: Option<Duration>,
    /// How long the answer to a ping may take.
    pub keep_alive_timeout: Option<Duration>,
    /// How long a request may wait for its response to begin.
    pub timeout: Option<Duration>,
    /// The TLS configuration, where there is one.
    pub tls: Option<TlsSettings>,
}

/// What a TLS configuration holds.
pub uninterp spec fn tls_settings(config: ClientTlsConfig) -> TlsSettings;

/// What an endpoint holds.
pub uninterp spec fn endpoint_settings(endpoint: Endpoint) -> EndpointSettings;

/// The URI that `tonic` reads in a text, as `Endpoint::uri` then writes it, if it
/// reads one at all.
pub uninterp spec fn endpoint_uri(text: Seq<char>) -> Option<Seq<char>>;

/// Whether nothing in TLS settings themselves keeps `tonic` from making a connector:
/// the bundles decode, the name to verify against is a server name, and a client
/// certificate and its key decode where there are any. `uri` is the URI of the
/// endpoint, where the name is taken from it.
pub uninterp spec fn tls_accepted(settings: TlsSettings, uri: Option<Seq<char>>) -> bool;

impl TlsSettings {
    /// The client certificate, where there is one, decodes, and its key is not empty.
    pub open spec fn identity_decodes(self) -> bool {
        self.identity matches Some((certificate, key)) ==> pem_certificates(certificate) is Ok
            && key.len() > 0
    }

    /// The URI, where the settings leave it to the URI to say what is verified.
    pub open spec fn naming(self, uri: Seq<char>) -> Option<Seq<char>> {
        match self.domain {
            Some(_) => None,
            None => Some(uri),
        }
    }
}

/// `text` begins with `prefix`.
pub open spec fn begins_with(text: Seq<char>, prefix: Seq<char>) -> bool {
    prefix.len() <= text.len() && text.subrange(0, prefix.len() as int) == prefix
}

/// `Endpoint::from_shared`: an endpoint for the URI in `text`, or a refusal where
/// there is none. Which of the two depends on the text alone, and nothing but the
/// URI is set. A text that begins with `https://` or with `http://` gives a URI of
/// that scheme, and a socket address behind one of these is always accepted.
#[verifier::external_body]
pub(crate) fn endpoint_from_text(text: String) -> (res: Result<Endpoint, tonic::transport::Error>)
    ensures
        res is Ok <==> endpoint_uri(text@) is Some,
        res matches Ok(endpoint) ==> endpoint_settings(endpoint) == (EndpointSettings {
            uri: endpoint_uri(text@)->0,
            connect_timeout: None,
            keep_alive_interval: None,
            keep_alive_timeout: None,
            timeout: None,
            tls: None,
        }),
        res is Ok && begins_with(text@, "https://"@) ==> begins_with(
            endpoint_uri(text@)->0,
            "https://"@,
        ),
        res is Ok && begins_with(text@, "http://"@) ==> begins_with(
            endpoint_uri(text@)->0,
            "http://"@,
        ),
        forall|address: SocketAddr|
            text@ == "https://"@ + #[trigger] address.spec_text() || text@ == "http://"@
                + address.spec_text() ==> res is Ok,
{
    Endpoint::from_shared(text)
}

/// `Endpoint::connect_timeout` sets that bound and nothing else.
pub assume_specification[ Endpoint::connect_timeout ](builder: Endpoint, dur: Duration) -> (res:
    Endpoint)
    ensures
        endpoint_settings(res) == (EndpointSettings {
            connect_timeout: Some(dur),
            ..endpoint_settings(builder)
        }),
;

/// `Endpoint::http2_keep_alive_interval` sets that interval and nothing else.
pub assume_specification[ Endpoint::http2_keep_alive_interval ](
    builder: Endpoint,
    interval: Duration,
) -> (res: Endpoint)
    ensures
        endpoint_settings(res) == (EndpointSettings {
            keep_alive_interval: Some(interval),
            ..endpoint_settings(builder)
        }),
;

/// `Endpoint::keep_alive_timeout` sets that bound and nothing else.
pub assume_specification[ Endpoint::keep_alive_timeout ](
    builder: Endpoint,
    duration: Duration,
) -> (res: Endpoint)
    ensures
        endpoint_settings(res) == (EndpointSettings {
            keep_alive_timeout: Some(duration),
            ..endpoint_settings(builder)
        }),
;

/// `Endpoint::timeout` sets the bound on a request and nothing else.
pub assume_specification[ Endpoint::timeout ](builder: Endpoint, dur: Duration) -> (res: Endpoint)
    ensures
        endpoint_settings(res) == (EndpointSettings {
            timeout: Some(dur),
            ..endpoint_settings(builder)
        }),
;

/// `Endpoint::tls_config`: where it succeeds, the endpoint carries this TLS
/// configuration and is otherwise as it was.
///
/// What it refuses for the trusted bundles, for the name to verify against and for the
/// PEM of a client certificate depends on these alone, and for an endpoint with an
/// `https` URI that is all it refuses where there is no client certificate. The name
/// comes from the URI where the configuration has none. A client certificate that does
/// not decode is refused, and so is an empty key.
///
/// Which client certificates it refuses beside that is left open: it asks the crypto
/// provider that the process has installed. A process that installed a provider without a
/// usable cipher suite, or without a key exchange group for one, gets a panic; one
/// that installed none gets the provider that is built in.
pub assume_specification[ Endpoint::tls_config ](
    builder: Endpoint,
    tls_config: ClientTlsConfig,
) -> (res: Result<Endpoint, tonic::transport::Error>)
    ensures
        res matches Ok(secured) ==> endpoint_settings(secured) == (EndpointSettings {
            tls: Some(tls_settings(tls_config)),
            ..endpoint_settings(builder)
        }),
        res is Ok ==> tls_accepted(
            tls_settings(tls_config),
            tls_settings(tls_config).naming(endpoint_settings(builder).uri),
        ),
        begins_with(endpoint_settings(builder).uri, "https://"@) && tls_settings(
            tls_config,
        ).identity is None && tls_accepted(
            tls_settings(tls_config),
            tls_settings(tls_config).naming(endpoint_settings(builder).uri),
        ) ==> res is Ok,
        res is Ok ==> tls_settings(tls_config).identity_decodes(),
;

/// `ClientTlsConfig::new` sets nothing, and trusts nothing.
pub assume_specification[ ClientTlsConfig::new ]() -> (res: ClientTlsConfig)
    ensures
        tls_settings(res) == (TlsSettings {
            domain: None,
            ca_certificates: Seq::empty(),
            identity: None,
            timeout: None,
            other_roots: false,
        }),
;

/// `ClientTlsConfig::clone`: the copy holds the same settings.
pub assume_specification[ <ClientTlsConfig as Clone>::clone ](config: &ClientTlsConfig) -> (res:
    ClientTlsConfig)
    ensures
        tls_settings(res) == tls_settings(*config),
;

/// `ClientTlsConfig::timeout` sets the bound on the handshake and nothing else.
pub assume_specification[ ClientTlsConfig::timeout ](
    config: ClientTlsConfig,
    timeout: Duration,
) -> (res: ClientTlsConfig)
    ensures
        tls_settings(res) == (TlsSettings { timeout: Some(timeout), ..tls_settings(config) }),
;

/// `ClientTlsConfig::domain_name` sets the name to verify against and nothing else.
#[verifier::external_body]
pub(crate) fn with_domain_name(config: ClientTlsConfig, domain: &str) -> (res: ClientTlsConfig)
    ensures
        tls_settings(res) == (TlsSettings { domain: Some(domain@), ..tls_settings(config) }),
{
    config.domain_name(domain)
}

/// `ClientTlsConfig::ca_certificate` adds a PEM bundle to those that are trusted
/// and changes nothing else. The bundle is kept as it is, unread.
#[verifier::external_body]
pub(crate) fn with_ca_certificate(config: ClientTlsConfig, pem: &Vec<u8>) -> (res: ClientTlsConfig)
    ensures
        tls_settings(res) == (TlsSettings {
            ca_certificates: tls_settings(config).ca_certificates.push(pem@),
            ..tls_settings(config)
        }),
{
    config.ca_certificate(Certificate::from_pem(pem))
}

/// `ClientTlsConfig::identity` sets the certificate to present and its key, and
/// nothing else. Both are kept as they are, unread.
#[verifier::external_body]
pub(crate) fn with_identity(
    config: ClientTlsConfig,
    certificate: Vec<u8>,
    key: Vec<u8>,
) -> (res: ClientTlsConfig)
    ensures
        tls_settings(res) == (TlsSettings {
            identity: Some((certificate@, key@)),
            ..tls_settings(config)
        }),
{
    config.identity(Identity::from_pem(certificate, key))
}

} // verus!

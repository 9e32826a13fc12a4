//! What is dialled: the peers of a balancer, and the endpoint for each.

use std::time::Duration;

use tonic::transport::{ClientTlsConfig, Endpoint};
use vstd::prelude::*;
use vstd::string::*;

use crate::address::{dotted, SocketAddr};
use crate::error::BalanceError;
use crate::system::{display_ipv6, ipv6_literal, ipv6_text, lasts, parse_ipv6, seconds};
use crate::text::{decimal, decimal_text, join};
use crate::transport::{
    begins_with, endpoint_from_text, endpoint_settings, endpoint_uri, tls_accepted,
    tls_settings, EndpointSettings, TlsSettings,
};
use crate::CONNECT_TIMEOUT_SECS;

verus! {

/// How often an HTTP/2 keepalive ping is sent, in seconds.
pub const KEEP_ALIVE_INTERVAL_SECS: u64 = 10;

/// How long the answer to a ping may take, in seconds.
pub const KEEP_ALIVE_TIMEOUT_SECS: u64 = 3;

/// Which peer an entry in the balancer is.
///
/// A balanced channel that holds no endpoint is never ready, and a request handed
/// to it waits for ever. So until an address resolves it holds one endpoint that
/// dials the name, and a request then fails at once with an error of its own.
#[derive(Clone, Copy, PartialEq, Eq, Hash, Debug, Structural)]
pub enum Peer {
    /// The host name, dialled while no resolution has answered.
    Unresolved,
    /// A pod address, from a resolution that answered.
    Address(SocketAddr),
}

/// `host` and `port` as a URI authority. An IPv6 literal is written in its
/// canonical form and in brackets; a name is not.
pub open spec fn authority_text(host: Seq<char>, port: u16) -> Seq<char> {
    match ipv6_literal(host) {
        Some(ip) => "["@ + ipv6_text(ip) + "]:"@ + decimal(port as nat),
        None => host + ":"@ + decimal(port as nat),
    }
}

/// The authority for `host`, which is the IPv6 address written `literal` where
/// that is given.
pub fn authority_for(host: &str, literal: Option<&str>, port: u16) -> (res: String)
    ensures
        res@ == (match literal {
            Some(literal) => "["@ + literal@ + "]:"@ + decimal(port as nat),
            None => host@ + ":"@ + decimal(port as nat),
        }),
{
    let port = decimal_text(port as u64);
    match literal {
        Some(literal) => join("[", literal, "]:").concat(port.as_str()),
        None => join(host, ":", port.as_str()),
    }
}

/// `host` and `port` as a URI authority, which is not the same text as `host` and
/// `port` for a resolver: an IPv6 literal has to be bracketed.
pub fn authority(host: &str, port: u16) -> (res: String)
    ensures
        res@ == authority_text(host@, port),
{
    match parse_ipv6(host) {
        Some(ip) => authority_for(host, Some(display_ipv6(ip).as_str()), port),
        None => authority_for(host, None, port),
    }
}

/// What the URI of a dial begins with. The scheme is what switches TLS on, whatever
/// configuration an endpoint holds, so the two are decided together.
pub open spec fn scheme(secured: bool) -> Seq<char> {
    if secured {
        "https://"@
    } else {
        "http://"@
    }
}

/// The URI for `authority`.
pub open spec fn dial_text(authority: Seq<char>, secured: bool) -> Seq<char> {
    scheme(secured) + authority
}

/// How an endpoint is set up that dials `uri`.
pub open spec fn dial_settings(
    uri: Seq<char>,
    tls: Option<TlsSettings>,
    request_timeout: Duration,
) -> EndpointSettings {
    EndpointSettings {
        uri,
        connect_timeout: Some(seconds(CONNECT_TIMEOUT_SECS)),
        keep_alive_interval: Some(seconds(KEEP_ALIVE_INTERVAL_SECS)),
        keep_alive_timeout: Some(seconds(KEEP_ALIVE_TIMEOUT_SECS)),
        timeout: Some(request_timeout),
        tls,
    }
}

/// The connect and the keepalive of an endpoint are as long as they should be.
pub open spec fn keeps_time(settings: EndpointSettings) -> bool {
    &&& settings.connect_timeout matches Some(bound) && lasts(bound, CONNECT_TIMEOUT_SECS)
    &&& settings.keep_alive_interval matches Some(interval) && lasts(
        interval,
        KEEP_ALIVE_INTERVAL_SECS,
    )
    &&& settings.keep_alive_timeout matches Some(bound) && lasts(bound, KEEP_ALIVE_TIMEOUT_SECS)
}

/// The settings of a TLS configuration, where there is one.
pub open spec fn settings_of(tls: Option<ClientTlsConfig>) -> Option<TlsSettings> {
    match tls {
        Some(config) => Some(tls_settings(config)),
        None => None,
    }
}

/// Nothing in `tls` itself keeps the transport from accepting it for an endpoint that
/// dials `uri`.
pub open spec fn tls_fits(tls: TlsSettings, uri: Seq<char>) -> bool {
    tls_accepted(tls, tls.naming(uri)) && tls.identity_decodes()
}

/// The transport refuses `config` for `builder`, with `source` as the reason.
pub open spec fn refuses(
    builder: Endpoint,
    config: ClientTlsConfig,
    source: tonic::transport::Error,
) -> bool {
    call_ensures(Endpoint::tls_config, (builder, config), Err(source))
}

/// `source` is the reason for which the transport refuses `tls` for the endpoint at
/// `authority`.
pub open spec fn refused_for(
    authority: Seq<char>,
    tls: TlsSettings,
    request_timeout: Duration,
    source: tonic::transport::Error,
) -> bool {
    exists|builder: Endpoint, config: ClientTlsConfig|
        #[trigger] refuses(builder, config, source) && endpoint_settings(builder) == dial_settings(
            endpoint_uri(dial_text(authority, true))->0,
            None,
            request_timeout,
        ) && tls_settings(config) == tls
}

/// `host` is the text of an IP address.
pub open spec fn is_ip_address(host: Seq<char>) -> bool {
    ipv6_literal(host) is Some || exists|ip: u32| host == #[trigger] dotted(ip)
}

/// `res` is what comes of building an endpoint for `authority`.
///
/// A text that is no URI is refused, and then the authority is named. Without TLS
/// nothing else can fail. With TLS the configuration is refused exactly where the
/// transport does not accept it, and the error carries the transport's reason; a client
/// certificate can be refused beside that.
/// What is built carries the configuration, and its URI has the scheme that switches
/// it on.
pub open spec fn endpoint_outcome(
    authority: Seq<char>,
    tls: Option<TlsSettings>,
    request_timeout: Duration,
    res: Result<Endpoint, BalanceError>,
) -> bool {
    match endpoint_uri(dial_text(authority, tls is Some)) {
        None => res matches Err(BalanceError::InvalidHost { host }) && host@ == authority,
        Some(uri) => match res {
            Ok(endpoint) => {
                &&& endpoint_settings(endpoint) == dial_settings(uri, tls, request_timeout)
                &&& begins_with(uri, scheme(tls is Some))
                &&& keeps_time(endpoint_settings(endpoint))
                &&& tls matches Some(settings) ==> tls_fits(settings, uri)
            },
            Err(error) => {
                &&& error matches BalanceError::Tls { source }
                &&& tls matches Some(settings)
                &&& refused_for(authority, settings, request_timeout, source)
                &&& settings.identity is None ==> !tls_fits(settings, uri)
            },
        },
    }
}

/// What a refusal to read the URI of `authority` means for the dial.
pub fn host_outcome(
    authority: &str,
    read: Result<Endpoint, tonic::transport::Error>,
) -> (res: Result<Endpoint, BalanceError>)
    ensures
        match read {
            Ok(endpoint) => res == Ok::<Endpoint, BalanceError>(endpoint),
            Err(_) => res matches Err(BalanceError::InvalidHost { host }) && host@ == authority@,
        },
{
    match read {
        Ok(endpoint) => Ok(endpoint),
        Err(_) => Err(BalanceError::InvalidHost { host: authority.to_owned() }),
    }
}

/// What a refusal of the TLS configuration means for the dial.
pub fn tls_outcome(applied: Result<Endpoint, tonic::transport::Error>) -> (res: Result<
    Endpoint,
    BalanceError,
>)
    ensures
        match applied {
            Ok(endpoint) => res == Ok::<Endpoint, BalanceError>(endpoint),
            Err(source) => res == Err::<Endpoint, BalanceError>(BalanceError::Tls { source }),
        },
{
    match applied {
        Ok(endpoint) => Ok(endpoint),
        Err(source) => Err(BalanceError::Tls { source }),
    }
}

/// One endpoint, at `authority`, which is a pod address or the name itself. One
/// builder serves both, so their timeouts and their keepalive cannot differ.
///
/// A pod address always forms an authority; a name may not. Which client certificates
/// are accepted is left open: that rests on the crypto provider that the process has
/// installed.
pub fn endpoint(
    authority: &str,
    tls: Option<&ClientTlsConfig>,
    request_timeout: Duration,
) -> (res: Result<Endpoint, BalanceError>)
    ensures
        endpoint_outcome(
            authority@,
            match tls {
                Some(config) => Some(tls_settings(*config)),
                None => None,
            },
            request_timeout,
            res,
        ),
        forall|address: SocketAddr|
            authority@ == #[trigger] address.spec_text() ==> !(res matches Err(
                BalanceError::InvalidHost { .. },
            )),
{
    let scheme: &str = if tls.is_some() {
        "https://"
    } else {
        "http://"
    };
    let text = scheme.to_owned().concat(authority);
    assert(text@.subrange(0, scheme@.len() as int) == scheme@);
    let endpoint = match host_outcome(authority, endpoint_from_text(text)) {
        Ok(endpoint) => endpoint,
        Err(error) => {
            return Err(error);
        },
    };
    let endpoint = endpoint
        .connect_timeout(Duration::from_secs(CONNECT_TIMEOUT_SECS))
        .http2_keep_alive_interval(Duration::from_secs(KEEP_ALIVE_INTERVAL_SECS))
        .keep_alive_timeout(Duration::from_secs(KEEP_ALIVE_TIMEOUT_SECS))
        .timeout(request_timeout);
    match tls {
        None => Ok(endpoint),
        Some(tls) => {
            let config = tls.clone();
            let ghost builder = endpoint;
            let applied = endpoint.tls_config(config);
            assert(applied matches Err(source) ==> refuses(builder, config, source));
            tls_outcome(applied)
        },
    }
}

} // verus!

//! Laws on single endpoints.

use std::time::Duration;

use tonic::transport::{ClientTlsConfig, Endpoint};
use vstd::prelude::*;

use crate::address::SocketAddr;
use crate::endpoint::{
    dial_settings, dial_text, endpoint, endpoint_outcome, host_outcome, refused_for, refuses,
    tls_outcome,
};
use crate::error::BalanceError;
use crate::pki::pem_certificates;
use crate::resolve::{address_outcome, Target};
use crate::system::nanoseconds;
use crate::transport::{
    begins_with, endpoint_settings, endpoint_uri, tls_accepted, tls_settings, TlsSettings,
};

verus! {

/// The text that is dialled: the scheme that goes with the configuration, and the
/// authority.
pub open spec fn dialled(authority: Seq<char>, encrypted: bool) -> Seq<char> {
    if encrypted {
        "https://"@ + authority
    } else {
        "http://"@ + authority
    }
}

/// Every endpoint that is built dials its authority in the scheme that goes with its
/// configuration, gives a connect 2 seconds, pings its peer every 10 seconds and gives
/// the answer 3, bounds a request as it was asked to, and carries the configuration that
/// it was given, which the transport accepts.
pub proof fn an_endpoint_is_what_was_asked_for(
    authority: Seq<char>,
    tls: Option<TlsSettings>,
    request_timeout: Duration,
    built: Endpoint,
)
    requires
        endpoint_outcome(authority, tls, request_timeout, Ok(built)),
    ensures
        endpoint_uri(dialled(authority, tls is Some)) == Some(endpoint_settings(built).uri),
        tls is Some ==> begins_with(endpoint_settings(built).uri, "https://"@),
        tls is None ==> begins_with(endpoint_settings(built).uri, "http://"@),
        endpoint_settings(built).connect_timeout matches Some(bound) && nanoseconds(bound)
            == 2_000_000_000,
        endpoint_settings(built).keep_alive_interval matches Some(interval) && nanoseconds(interval)
            == 10_000_000_000,
        endpoint_settings(built).keep_alive_timeout matches Some(bound) && nanoseconds(bound)
            == 3_000_000_000,
        endpoint_settings(built).timeout == Some(request_timeout),
        endpoint_settings(built).tls == tls,
        tls matches Some(settings) ==> tls_accepted(
            settings,
            if settings.domain is Some {
                None
            } else {
                Some(endpoint_settings(built).uri)
            },
        ),
        tls matches Some(settings) ==> (settings.identity matches Some((certificate, key)) ==> (
        pem_certificates(certificate) is Ok && key.len() > 0)),
{
}

/// An endpoint is refused for its authority exactly where that forms no URI, and then
/// the error names it. Otherwise it is refused for its TLS configuration alone, with the
/// reason that the transport gives for just this endpoint and this configuration; and
/// one without a client certificate only where the transport does not accept it.
pub proof fn an_endpoint_is_refused_for_a_reason(
    authority: Seq<char>,
    tls: Option<TlsSettings>,
    request_timeout: Duration,
    error: BalanceError,
)
    requires
        endpoint_outcome(authority, tls, request_timeout, Err(error)),
    ensures
        endpoint_uri(dialled(authority, tls is Some)) is None <==> error is InvalidHost,
        error matches BalanceError::InvalidHost { host } ==> host@ == authority,
        error is InvalidHost || error is Tls,
        error is Tls ==> tls is Some,
        error matches BalanceError::Tls { source } ==> exists|
            builder: Endpoint,
            config: ClientTlsConfig,
        | #[trigger]
            call_ensures(Endpoint::tls_config, (builder, config), Err(source)) && tls_settings(
                config,
            ) == tls->0 && endpoint_settings(builder).uri == endpoint_uri(
                dialled(authority, true),
            )->0 && endpoint_settings(builder).timeout == Some(request_timeout)
                && endpoint_settings(builder).tls is None,
        error is Tls && tls->0.identity is None ==> !tls_accepted(
            tls->0,
            if tls->0.domain is Some {
                None
            } else {
                endpoint_uri(dialled(authority, true))
            },
        ),
{
    if let BalanceError::Tls { source } = error {
        assert(refused_for(authority, tls->0, request_timeout, source));
        let (builder, config) = choose|builder: Endpoint, config: ClientTlsConfig|
            #[trigger] refuses(builder, config, source) && endpoint_settings(
                builder,
            ) == dial_settings(
                endpoint_uri(dial_text(authority, true))->0,
                None,
                request_timeout,
            ) && tls_settings(config) == tls->0;
        assert(call_ensures(Endpoint::tls_config, (builder, config), Err(source)));
    }
}

/// What builds an endpoint gives one that is what was asked for, or refuses it for a
/// reason, and a socket address is never refused for what it is.
pub proof fn what_builds_an_endpoint(
    authority: &str,
    tls: Option<&ClientTlsConfig>,
    request_timeout: Duration,
    res: Result<Endpoint, BalanceError>,
    address: SocketAddr,
)
    requires
        call_ensures(endpoint, (authority, tls, request_timeout), res),
    ensures
        endpoint_outcome(
            authority@,
            match tls {
                Some(config) => Some(tls_settings(*config)),
                None => None,
            },
            request_timeout,
            res,
        ),
        endpoint_uri(dialled(authority@, tls is Some)) is None ==> res is Err,
        endpoint_uri(dialled(authority@, tls is Some)) is Some && tls is None ==> res is Ok,
        authority@ == address.spec_text() ==> !(res matches Err(BalanceError::InvalidHost { .. })),
        authority@ == address.spec_text() && tls is None ==> res is Ok,
{
}

/// The endpoint for an address dials that address, under the configuration and the bound
/// of its target; in cleartext it is always built, and otherwise only the configuration
/// is refused.
pub proof fn the_endpoint_for_an_address_dials_it(
    target: Target,
    address: SocketAddr,
    res: Result<Endpoint, BalanceError>,
)
    requires
        address_outcome(target, address, res),
    ensures
        target.tls is None ==> res is Ok,
        res matches Ok(built) ==> {
            &&& endpoint_uri(dialled(address.spec_text(), target.tls is Some)) == Some(
                endpoint_settings(built).uri,
            )
            &&& endpoint_settings(built).timeout == Some(target.request_timeout)
            &&& target.tls matches Some(config) ==> endpoint_settings(built).tls == Some(
                tls_settings(config),
            )
            &&& target.tls is None ==> endpoint_settings(built).tls is None
            &&& endpoint_settings(built).connect_timeout matches Some(bound) && nanoseconds(bound)
                == 2_000_000_000
            &&& endpoint_settings(built).keep_alive_interval matches Some(interval)
                && nanoseconds(interval) == 10_000_000_000
            &&& endpoint_settings(built).keep_alive_timeout matches Some(bound)
                && nanoseconds(bound) == 3_000_000_000
        },
        res matches Err(error) ==> error is Tls && endpoint_outcome(
            address.spec_text(),
            Some(tls_settings(target.tls->0)),
            target.request_timeout,
            res,
        ),
{
}

/// A refusal to read the URI is one of the authority, and a refusal of the configuration
/// carries its reason; an endpoint that was not refused is handed on as it is.
pub proof fn a_refusal_is_told_as_itself(
    authority: &str,
    read: Result<Endpoint, tonic::transport::Error>,
    named: Result<Endpoint, BalanceError>,
    applied: Result<Endpoint, tonic::transport::Error>,
    res: Result<Endpoint, BalanceError>,
)
    requires
        call_ensures(host_outcome, (authority, read), named),
        call_ensures(tls_outcome, (applied,), res),
    ensures
        read is Ok <==> named is Ok,
        read is Ok ==> named->Ok_0 == read->Ok_0,
        named matches Err(error) ==> (error matches BalanceError::InvalidHost { host } && host@
            == authority@),
        applied is Ok <==> res is Ok,
        applied is Ok ==> res->Ok_0 == applied->Ok_0,
        res matches Err(error) ==> (error matches BalanceError::Tls { source } && source
            == applied->Err_0),
{
}

} // verus!

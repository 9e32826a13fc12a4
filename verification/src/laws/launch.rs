//! Laws on the start of a dial, and on the endpoints it is made of.

use std::time::Duration;

use tonic::transport::Endpoint;
use vstd::prelude::*;

use crate::address::{ascending_of, lemma_ascending_exists, SocketAddr};
use crate::connect::{
    all_built, dial_outcome, failed_first, first_inserts, is_launch, launch_outcome, launched,
    Boot, BootView, Launch,
};
use crate::diff::Change;
use crate::endpoint::{
    authority_text, dial_text, refused_for, scheme, settings_of, tls_fits, Peer,
};
use crate::error::BalanceError;
use crate::laws::refresh::{all_taken, peers_of, start, taken};
use crate::resolve::{address_outcome, Target};
use crate::transport::{
    begins_with, endpoint_settings, endpoint_uri, EndpointSettings, TlsSettings,
};

verus! {

/// A launch gives the balancer exactly the peers that its loop starts with, and at
/// least one; the loop starts with the name exactly where it starts without an
/// address; and the gauge starts with what the loop would say of it.
pub proof fn a_launch_begins_its_loop(
    launch: Launch,
    boot: BootView,
    initial: Set<SocketAddr>,
    built: Seq<Endpoint>,
)
    requires
        initial.finite(),
        built.len() == ascending_of(initial).len(),
        is_launch(launch, boot, initial, built),
    ensures
        launch.refresh@.current.finite(),
        launch.refresh@.seeded == launch.refresh@.current.is_empty(),
        all_taken(Set::empty(), launch.inserts@) == start(launch.refresh@).held,
        launch.never_resolved == start(launch.refresh@).gauge,
        !start(launch.refresh@).held.is_empty(),
{
    let addresses = ascending_of(initial);
    lemma_ascending_exists(initial);
    let dial = launch.refresh@;
    let inserts = launch.inserts@;
    if addresses.len() == 0 {
        assert(initial =~= Set::empty());
        assert(inserts.drop_first() == Seq::<Change<Peer, Endpoint>>::empty());
        let name = taken(Set::<Peer>::empty(), inserts[0]);
        assert(all_taken(name, inserts.drop_first()) == name);
        assert(name =~= peers_of(dial));
        assert(peers_of(dial).contains(Peer::Unresolved));
    } else {
        assert(addresses.to_set().contains(addresses[0]));
        assert forall|peer: Peer| all_taken(Set::empty(), inserts).contains(peer) == peers_of(
            dial,
        ).contains(peer) by {
            lemma_inserted(Set::empty(), boot.seed, addresses, built, peer);
            if let Peer::Address(address) = peer {
                assert(addresses.to_set().contains(address) == dial.current.contains(address));
            }
        }
        assert(all_taken(Set::empty(), inserts) =~= peers_of(dial));
        assert(peers_of(dial).contains(Peer::Address(addresses[0])));
    }
}

proof fn lemma_inserted(
    held: Set<Peer>,
    seed: Endpoint,
    addresses: Seq<SocketAddr>,
    built: Seq<Endpoint>,
    peer: Peer,
)
    requires
        addresses.len() > 0,
        built.len() == addresses.len(),
    ensures
        all_taken(held, first_inserts(seed, addresses, built)).contains(peer) <==> held.contains(
            peer,
        ) || (peer matches Peer::Address(address) && addresses.contains(address)),
    decreases addresses.len(),
{
    let inserts = first_inserts(seed, addresses, built);
    let next = taken(held, inserts[0]);
    let rest = addresses.drop_first();
    assert(next == held.insert(Peer::Address(addresses[0])));
    assert forall|a: SocketAddr|
        addresses.contains(a) <==> a == addresses[0] || rest.contains(a) by {
        if addresses.contains(a) {
            let i = choose|i: int| 0 <= i < addresses.len() && addresses[i] == a;
            if i > 0 {
                assert(rest[i - 1] == a);
            }
        }
        if rest.contains(a) {
            let i = choose|i: int| 0 <= i < rest.len() && rest[i] == a;
            assert(addresses[i + 1] == a);
        }
    }
    if rest.len() == 0 {
        assert(inserts.drop_first() == Seq::<Change<Peer, Endpoint>>::empty());
        assert(all_taken(next, inserts.drop_first()) == next);
    } else {
        assert(inserts.drop_first() == first_inserts(seed, rest, built.drop_first()));
        lemma_inserted(next, seed, rest, built.drop_first(), peer);
    }
}

/// What a launch gives the balancer fits into the way to it, so handing it over
/// waits for nobody.
pub proof fn a_launch_fits_its_way_to_the_balancer(
    launch: Launch,
    boot: BootView,
    initial: Set<SocketAddr>,
    built: Seq<Endpoint>,
)
    requires
        built.len() == ascending_of(initial).len(),
        is_launch(launch, boot, initial, built),
    ensures
        launch.inserts@.len() <= launch.capacity,
{
}

/// An upstream that does not resolve is no reason to fail: the dial is launched, and
/// holds the name alone.
pub proof fn an_absent_upstream_is_launched(boot: BootView, res: Result<Launch, BalanceError>)
    requires
        launch_outcome(boot, Set::empty(), res),
    ensures
        res matches Ok(launch) && launch.inserts@ == seq![
            Change::<Peer, Endpoint>::Insert(Peer::Unresolved, boot.seed),
        ] && launch.never_resolved,
{
    let none = Set::<SocketAddr>::empty();
    lemma_ascending_exists(none);
    if ascending_of(none).len() > 0 {
        assert(ascending_of(none).to_set().contains(ascending_of(none)[0]));
    }
    if let Ok(launch) = res {
        assert(launched(launch, boot, none));
    }
}

/// A dial in cleartext that was set up is launched, whatever its host resolves to.
pub proof fn a_dial_in_cleartext_is_launched(
    boot: BootView,
    initial: Set<SocketAddr>,
    res: Result<Launch, BalanceError>,
)
    requires
        boot.target.tls is None,
        launch_outcome(boot, initial, res),
    ensures
        res is Ok,
{
}

/// A dial in cleartext is set up exactly where its name forms a URI.
pub proof fn a_dial_in_cleartext_is_set_up_where_its_name_is_a_uri(
    host: Seq<char>,
    port: u16,
    request_timeout: Duration,
    res: Result<Boot, BalanceError>,
)
    requires
        dial_outcome(host, port, None, request_timeout, res),
    ensures
        res is Ok <==> endpoint_uri(dial_text(authority_text(host, port), false)) is Some,
{
}

/// An encrypted dial without a client certificate is set up exactly where its name
/// forms a URI and the transport accepts its configuration.
pub proof fn an_encrypted_dial_is_set_up_where_its_configuration_fits(
    host: Seq<char>,
    port: u16,
    tls: TlsSettings,
    request_timeout: Duration,
    res: Result<Boot, BalanceError>,
)
    requires
        tls.identity is None,
        dial_outcome(host, port, Some(tls), request_timeout, res),
    ensures
        res is Ok <==> (endpoint_uri(dial_text(authority_text(host, port), true)) matches Some(uri)
            && tls_fits(tls, uri)),
{
}

/// A configuration that cannot be accepted at all is refused at every address, with the
/// reason that the transport gives.
pub proof fn a_configuration_that_does_not_fit_is_refused_everywhere(
    target: Target,
    tls: TlsSettings,
    uri: Seq<char>,
    address: SocketAddr,
    res: Result<Endpoint, BalanceError>,
)
    requires
        settings_of(target.tls) == Some(tls),
        tls.domain is Some,
        !tls_fits(tls, uri),
        address_outcome(target, address, res),
    ensures
        res matches Err(BalanceError::Tls { source }) && refused_for(
            address.spec_text(),
            tls,
            target.request_timeout,
            source,
        ),
{
}

/// A client certificate that does not decode, or whose key is empty, keeps a dial from
/// being set up: there is no dial without the certificate in its place.
pub proof fn a_dial_that_is_set_up_presents_what_decodes(
    host: Seq<char>,
    port: u16,
    tls: TlsSettings,
    request_timeout: Duration,
    boot: Boot,
)
    requires
        dial_outcome(host, port, Some(tls), request_timeout, Ok(boot)),
    ensures
        tls.identity_decodes(),
        endpoint_settings(boot@.seed).tls == Some(tls),
{
}

/// Building an endpoint cannot fail for one pod and succeed for another. Where the
/// endpoint for the name was built, no address is refused later, as long as the
/// configuration names what it verifies and presents no client certificate.
pub proof fn an_encrypted_dial_refuses_no_address(
    host: Seq<char>,
    port: u16,
    tls: TlsSettings,
    request_timeout: Duration,
    boot: Boot,
    address: SocketAddr,
    error: BalanceError,
)
    requires
        tls.identity is None,
        tls.domain is Some,
        dial_outcome(host, port, Some(tls), request_timeout, Ok(boot)),
    ensures
        !address_outcome(boot@.target, address, Err(error)),
{
}

/// An encrypted dial that was set up is launched with every address, whatever its host
/// resolves to, as long as the configuration names what it verifies and presents no
/// client certificate.
pub proof fn an_encrypted_dial_is_launched(
    host: Seq<char>,
    port: u16,
    tls: TlsSettings,
    request_timeout: Duration,
    boot: Boot,
    initial: Set<SocketAddr>,
    res: Result<Launch, BalanceError>,
)
    requires
        tls.identity is None,
        tls.domain is Some,
        dial_outcome(host, port, Some(tls), request_timeout, Ok(boot)),
        launch_outcome(boot@, initial, res),
    ensures
        res is Ok,
{
    if let Err(error) = res {
        let addresses = ascending_of(initial);
        assert(failed_first(boot@.target, addresses, error));
        let built = choose|built: Seq<Endpoint>|
            built.len() < addresses.len() && #[trigger] all_built(
                boot@.target,
                addresses.take(built.len() as int),
                built,
            ) && address_outcome(boot@.target, addresses[built.len() as int], Err(error));
        an_encrypted_dial_refuses_no_address(
            host,
            port,
            tls,
            request_timeout,
            boot,
            addresses[built.len() as int],
            error,
        );
    }
}

/// The endpoint for the name and the endpoints for the addresses of one dial differ
/// in their URI alone: in no timeout, in no keepalive, and not in how the peer is
/// verified.
pub proof fn the_endpoints_of_a_dial_differ_in_their_uri_alone(
    host: Seq<char>,
    port: u16,
    tls: Option<TlsSettings>,
    request_timeout: Duration,
    boot: Boot,
    address: SocketAddr,
    endpoint: Endpoint,
)
    requires
        dial_outcome(host, port, tls, request_timeout, Ok(boot)),
        address_outcome(boot@.target, address, Ok(endpoint)),
    ensures
        endpoint_settings(endpoint) == (EndpointSettings {
            uri: endpoint_settings(endpoint).uri,
            ..endpoint_settings(boot@.seed)
        }),
        endpoint_settings(endpoint).tls == tls,
        endpoint_settings(endpoint).timeout == Some(request_timeout),
{
}

/// Every endpoint of an encrypted dial has a URI that switches TLS on, and no
/// endpoint of a dial in cleartext has.
pub proof fn the_scheme_follows_the_configuration(
    host: Seq<char>,
    port: u16,
    tls: Option<TlsSettings>,
    request_timeout: Duration,
    boot: Boot,
    address: SocketAddr,
    endpoint: Endpoint,
)
    requires
        dial_outcome(host, port, tls, request_timeout, Ok(boot)),
        address_outcome(boot@.target, address, Ok(endpoint)),
    ensures
        begins_with(endpoint_settings(boot@.seed).uri, scheme(tls is Some)),
        begins_with(endpoint_settings(endpoint).uri, scheme(tls is Some)),
{
}

} // verus!

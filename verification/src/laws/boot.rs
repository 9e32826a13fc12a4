//! Laws on what a dial starts with: the target that was dialled, and the endpoints that
//! the balancer is given first.

use std::time::Duration;

use tonic::transport::{ClientTlsConfig, Endpoint};
use vstd::prelude::*;

use crate::address::{ascending_of, dotted, lemma_set_finite, AddressSet, SocketAddr};
use crate::connect::{
    all_built, connect, connect_tls, connect_tls_with_request_timeout, connect_with,
    connect_with_request_timeout, failed_first, initial_addresses, is_launch, launched, Boot,
    Launch, Preparing,
};
use crate::diff::Change;
use crate::endpoint::{endpoint_outcome, is_ip_address, Peer};
use crate::error::BalanceError;
use crate::laws::endpoints::dialled;
use crate::laws::texts::{a_set_is_walked_in_order, lemma_octets, rank};
use crate::resolve::address_outcome;
use crate::system::{ipv6_literal, ipv6_text, nanoseconds};
use crate::text::decimal;
use crate::tls::TlsOptions;
use crate::transport::{endpoint_settings, endpoint_uri, tls_settings, EndpointSettings};

verus! {

/// A dial that is set up has the target that was asked for, and the endpoint for its
/// name dials the host and the port, in brackets where the host is an IPv6 literal, under
/// the configuration and the bound that were asked for.
pub proof fn a_dial_has_the_target_that_was_asked_for(
    host: &str,
    port: u16,
    tls: Option<ClientTlsConfig>,
    request_timeout: Duration,
    boot: Boot,
)
    requires
        call_ensures(connect_with, (host, port, tls, request_timeout), Ok(boot)),
    ensures
        boot@.target.host@ == host@,
        boot@.target.port == port,
        boot@.target.tls is Some <==> tls is Some,
        tls matches Some(config) ==> tls_settings(boot@.target.tls->0) == tls_settings(config),
        boot@.target.request_timeout == request_timeout,
        ipv6_literal(host@) is None ==> endpoint_uri(
            dialled(host@ + ":"@ + decimal(port as nat), tls is Some),
        ) == Some(endpoint_settings(boot@.seed).uri),
        ipv6_literal(host@) matches Some(ip) ==> endpoint_uri(
            dialled("["@ + ipv6_text(ip) + "]:"@ + decimal(port as nat), tls is Some),
        ) == Some(endpoint_settings(boot@.seed).uri),
        endpoint_settings(boot@.seed).timeout == Some(request_timeout),
        endpoint_settings(boot@.seed).tls is Some <==> tls is Some,
        tls matches Some(config) ==> endpoint_settings(boot@.seed).tls == Some(
            tls_settings(config),
        ),
        endpoint_settings(boot@.seed).connect_timeout matches Some(bound) && nanoseconds(bound)
            == 2_000_000_000,
        endpoint_settings(boot@.seed).keep_alive_interval matches Some(interval) && nanoseconds(
            interval,
        ) == 10_000_000_000,
        endpoint_settings(boot@.seed).keep_alive_timeout matches Some(bound) && nanoseconds(bound)
            == 3_000_000_000,
{
}

/// A dial is refused for its name exactly where that forms no URI, and then the error
/// names what was to be dialled; and for nothing else but its TLS configuration.
pub proof fn a_dial_is_refused_for_its_name_or_its_configuration(
    host: &str,
    port: u16,
    tls: Option<ClientTlsConfig>,
    request_timeout: Duration,
    authority: Seq<char>,
    res: Result<Boot, BalanceError>,
)
    requires
        call_ensures(connect_with, (host, port, tls, request_timeout), res),
        authority == match ipv6_literal(host@) {
            Some(ip) => "["@ + ipv6_text(ip) + "]:"@ + decimal(port as nat),
            None => host@ + ":"@ + decimal(port as nat),
        },
    ensures
        endpoint_uri(dialled(authority, tls is Some)) is None <==> (res matches Err(
            BalanceError::InvalidHost { .. },
        )),
        res matches Err(BalanceError::InvalidHost { host: named }) ==> named@ == authority,
        res is Err ==> (res->Err_0 is InvalidHost || (res->Err_0 is Tls && tls is Some)),
        res matches Err(error) ==> endpoint_outcome(
            authority,
            match tls {
                Some(config) => Some(tls_settings(config)),
                None => None,
            },
            request_timeout,
            Err(error),
        ),
        ipv6_literal(host@) is Some && tls is None ==> res is Ok,
{
}

/// An IP address in place of a name is never refused for what it is: in cleartext a dial
/// to it is always set up, and only its TLS configuration can be refused otherwise.
pub proof fn an_ip_address_can_be_dialled(
    host: &str,
    octets: (u8, u8, u8, u8),
    port: u16,
    tls: Option<ClientTlsConfig>,
    request_timeout: Duration,
    res: Result<Boot, BalanceError>,
    bounded: Result<Boot, BalanceError>,
    by_default: Result<Boot, BalanceError>,
)
    requires
        host@ == decimal(octets.0 as nat) + "."@ + decimal(octets.1 as nat) + "."@ + decimal(
            octets.2 as nat,
        ) + "."@ + decimal(octets.3 as nat) || ipv6_literal(host@) is Some,
        call_ensures(connect_with, (host, port, tls, request_timeout), res),
        call_ensures(connect_with_request_timeout, (host, port, request_timeout), bounded),
        call_ensures(connect, (host, port), by_default),
    ensures
        res matches Err(error) ==> error is Tls && tls is Some,
        bounded is Ok,
        by_default is Ok,
{
    let (a, b, c, d) = octets;
    let ip = (a * 16777216 + b * 65536 + c * 256 + d) as u32;
    lemma_octets(a as nat, b as nat, c as nat, d as nat);
    if ipv6_literal(host@) is None {
        assert(host@ == dotted(ip));
        assert(is_ip_address(host@));
    }
}

/// The ways to set up a dial in cleartext come to the same target and the same endpoint
/// for the name, but for the bound on a request: it lasts 30 seconds where the caller
/// names none. They fail in the same places, and for the name alone.
pub proof fn a_dial_in_cleartext_has_no_configuration(
    host: &str,
    port: u16,
    request_timeout: Duration,
    res: Result<Boot, BalanceError>,
    by_default: Result<Boot, BalanceError>,
)
    requires
        call_ensures(connect_with_request_timeout, (host, port, request_timeout), res),
        call_ensures(connect, (host, port), by_default),
    ensures
        res is Ok <==> by_default is Ok,
        res matches Err(error) ==> error is InvalidHost,
        by_default matches Err(error) ==> error is InvalidHost,
        res matches Ok(boot) ==> {
            &&& boot@.target.host@ == host@
            &&& boot@.target.port == port
            &&& boot@.target.tls is None
            &&& boot@.target.request_timeout == request_timeout
            &&& endpoint_settings(boot@.seed).timeout == Some(request_timeout)
            &&& endpoint_settings(boot@.seed).tls is None
        },
        by_default matches Ok(boot) ==> {
            &&& boot@.target.host@ == host@
            &&& boot@.target.port == port
            &&& boot@.target.tls is None
            &&& nanoseconds(boot@.target.request_timeout) == 30_000_000_000
            &&& endpoint_settings(boot@.seed).timeout == Some(boot@.target.request_timeout)
            &&& endpoint_settings(boot@.seed).tls is None
        },
        res is Ok && by_default is Ok ==> endpoint_settings(res->Ok_0@.seed) == (EndpointSettings {
            timeout: Some(request_timeout),
            ..endpoint_settings(by_default->Ok_0@.seed)
        }),
{
}

/// The ways to set up an encrypted dial begin with the CA bundle, for the host, the port
/// and the options that they were given; the bound on a request lasts 30 seconds where
/// the caller names none.
pub proof fn an_encrypted_dial_begins_with_its_bundle<'a>(
    host: &'a str,
    port: u16,
    tls: &'a TlsOptions,
    request_timeout: Duration,
    preparing: Preparing<'a>,
    by_default: Preparing<'a>,
)
    requires
        call_ensures(
            connect_tls_with_request_timeout,
            (host, port, tls, request_timeout),
            preparing,
        ),
        call_ensures(connect_tls, (host, port, tls), by_default),
    ensures
        preparing@.reading.awaited is Bundle,
        preparing@.reading.host == host@,
        preparing@.reading.options == tls@,
        preparing@.port == port,
        preparing@.request_timeout == request_timeout,
        by_default@.reading == preparing@.reading,
        by_default@.port == port,
        nanoseconds(by_default@.request_timeout) == 30_000_000_000,
{
}

/// A launch without an address gives the balancer the name and nothing else, with the
/// endpoint that the dial built for it, and the upstream counts as never resolved. It
/// never fails.
pub proof fn a_launch_without_an_address_holds_the_name(
    boot: Boot,
    answer: Result<AddressSet, BalanceError>,
    res: Result<Launch, BalanceError>,
)
    requires
        call_ensures(Boot::resolved, (boot, answer), res),
        answer matches Ok(set) ==> set@ =~= Set::<SocketAddr>::empty(),
    ensures
        res matches Ok(launch) && {
            &&& launch.inserts@.len() == 1
            &&& launch.inserts@[0] == Change::<Peer, Endpoint>::Insert(
                Peer::Unresolved,
                boot@.seed,
            )
            &&& launch.never_resolved
            &&& launch.capacity == 8
            &&& launch.refresh@.target == boot@.target
            &&& launch.refresh@.current =~= Set::<SocketAddr>::empty()
            &&& launch.refresh@.seeded
        },
{
    a_set_is_walked_in_order(Set::<SocketAddr>::empty());
    assert(initial_addresses(answer) =~= Set::<SocketAddr>::empty());
    if let Ok(launch) = res {
        assert(launched(launch, boot@, Set::empty()));
        let built = choose|built: Seq<Endpoint>|
            all_built(boot@.target, ascending_of(Set::empty()), built) && #[trigger] is_launch(
                launch,
                boot@,
                Set::empty(),
                built,
            );
        assert(is_launch(launch, boot@, Set::empty(), built));
    }
}

/// Every insertion of a launch belongs to the dial: it is of an address that was
/// resolved, with an endpoint for that address itself, under the target of the dial.
/// Every address that was resolved is inserted, once, and in the order of the addresses;
/// the name is not.
pub proof fn every_insertion_of_a_launch_belongs_to_the_dial(
    boot: Boot,
    set: AddressSet,
    launch: Launch,
)
    requires
        call_ensures(Boot::resolved, (boot, Ok(set)), Ok(launch)),
        !(set@ =~= Set::<SocketAddr>::empty()),
    ensures
        launch.inserts@.len() == set@.len(),
        forall|i: int|
            0 <= i < launch.inserts@.len() ==> (#[trigger] launch.inserts@[i] matches Change::Insert(
                Peer::Address(a),
                e,
            ) && set@.contains(a) && address_outcome(boot@.target, a, Ok(e))),
        forall|a: SocketAddr| #[trigger]
            set@.contains(a) ==> exists|i: int|
                0 <= i < launch.inserts@.len() && (#[trigger] launch.inserts@[i] matches Change::Insert(
                    peer,
                    _,
                ) && peer == Peer::Address(a)),
        forall|i: int, j: int|
            0 <= i < j < launch.inserts@.len() ==> rank(
                #[trigger] launch.inserts@[i]->Insert_0->Address_0,
            ) < rank(#[trigger] launch.inserts@[j]->Insert_0->Address_0),
        !launch.never_resolved,
        launch.capacity == if set@.len() < 8 {
            8
        } else {
            set@.len() as int
        },
        launch.refresh@.target == boot@.target,
        forall|a: SocketAddr| #[trigger]
            launch.refresh@.current.contains(a) <==> set@.contains(a),
        !launch.refresh@.seeded,
{
    let initial = set@;
    lemma_set_finite(set);
    a_set_is_walked_in_order(initial);
    let addresses = ascending_of(initial);
    assert(launched(launch, boot@, initial));
    let built = choose|built: Seq<Endpoint>|
        all_built(boot@.target, addresses, built) && #[trigger] is_launch(
            launch,
            boot@,
            initial,
            built,
        );
    assert(is_launch(launch, boot@, initial, built));
    if initial.len() == 0 {
        assert(initial =~= Set::empty());
    }
    assert forall|i: int|
        0 <= i < launch.inserts@.len() implies #[trigger] launch.inserts@[i] == Change::<
        Peer,
        Endpoint,
    >::Insert(Peer::Address(addresses[i]), built[i]) && set@.contains(addresses[i])
        && address_outcome(boot@.target, addresses[i], Ok(built[i])) by {
        assert(addresses.contains(addresses[i]));
        assert(address_outcome(boot@.target, addresses[i], Ok(built[i])));
    }
    assert forall|a: SocketAddr| #[trigger] set@.contains(a) implies exists|i: int|
        0 <= i < launch.inserts@.len() && (#[trigger] launch.inserts@[i] matches Change::Insert(
            peer,
            _,
        ) && peer == Peer::Address(a)) by {
        assert(addresses.contains(a));
        let i = choose|i: int| 0 <= i < addresses.len() && addresses[i] == a;
        assert(launch.inserts@[i] == Change::<Peer, Endpoint>::Insert(Peer::Address(a), built[i]));
    }
    assert(!(initial == Set::<SocketAddr>::empty()));
    assert(exists|a: SocketAddr| initial.contains(a)) by {
        assert(addresses.contains(addresses[0]));
        assert(initial.contains(addresses[0]));
    }
}

/// Each endpoint that a launch inserts dials the text of its own address, in the scheme
/// that goes with the configuration of the dial, and carries that configuration, the
/// bound on a request, and the bounds on the connect and the pings.
pub proof fn every_endpoint_of_a_launch_dials_its_own_address(
    boot: Boot,
    set: AddressSet,
    launch: Launch,
    i: int,
    address: SocketAddr,
    endpoint: Endpoint,
)
    requires
        call_ensures(Boot::resolved, (boot, Ok(set)), Ok(launch)),
        0 <= i < launch.inserts@.len(),
        launch.inserts@[i] == Change::<Peer, Endpoint>::Insert(Peer::Address(address), endpoint),
    ensures
        endpoint_uri(dialled(address.spec_text(), boot@.target.tls is Some)) == Some(
            endpoint_settings(endpoint).uri,
        ),
        endpoint_settings(endpoint).timeout == Some(boot@.target.request_timeout),
        endpoint_settings(endpoint).tls is Some <==> boot@.target.tls is Some,
        boot@.target.tls matches Some(config) ==> endpoint_settings(endpoint).tls == Some(
            tls_settings(config),
        ),
        endpoint_settings(endpoint).connect_timeout matches Some(bound) && nanoseconds(bound)
            == 2_000_000_000,
        endpoint_settings(endpoint).keep_alive_interval matches Some(interval) && nanoseconds(
            interval,
        ) == 10_000_000_000,
        endpoint_settings(endpoint).keep_alive_timeout matches Some(bound) && nanoseconds(bound)
            == 3_000_000_000,
{
    if set@ =~= Set::<SocketAddr>::empty() {
        a_launch_without_an_address_holds_the_name(boot, Ok(set), Ok(launch));
    } else {
        every_insertion_of_a_launch_belongs_to_the_dial(boot, set, launch);
        assert(address_outcome(boot@.target, address, Ok(endpoint)));
    }
}

/// A launch fails only for an address that was resolved: its error is why there is no
/// endpoint for it, which is the TLS configuration, and an endpoint was built for every
/// address before it.
pub proof fn a_launch_fails_only_for_an_address_that_was_resolved(
    boot: Boot,
    answer: Result<AddressSet, BalanceError>,
    error: BalanceError,
)
    requires
        call_ensures(Boot::resolved, (boot, answer), Err(error)),
    ensures
        answer is Ok,
        boot@.target.tls is Some,
        error is Tls,
        exists|a: SocketAddr| #[trigger]
            answer->Ok_0@.contains(a) && address_outcome(boot@.target, a, Err(error)) && forall|
                b: SocketAddr,
            | #[trigger]
                answer->Ok_0@.contains(b) && rank(b) < rank(a) ==> exists|e: Endpoint|
                    address_outcome(boot@.target, b, Ok(e)),
{
    let initial = initial_addresses(answer);
    if let Ok(set) = answer {
        lemma_set_finite(set);
    }
    a_set_is_walked_in_order(initial);
    let addresses = ascending_of(initial);
    assert(failed_first(boot@.target, addresses, error));
    let built = choose|built: Seq<Endpoint>|
        built.len() < addresses.len() && #[trigger] all_built(
            boot@.target,
            addresses.take(built.len() as int),
            built,
        ) && address_outcome(boot@.target, addresses[built.len() as int], Err(error));
    let n = built.len() as int;
    let a = addresses[n];
    assert(addresses.contains(a));
    assert(initial.contains(a));
    assert forall|b: SocketAddr| #[trigger] initial.contains(b) && rank(b) < rank(a) implies exists|
        e: Endpoint,
    | address_outcome(boot@.target, b, Ok(e)) by {
        assert(addresses.contains(b));
        let i = choose|i: int| 0 <= i < addresses.len() && addresses[i] == b;
        assert(i < n);
        assert(addresses.take(n)[i] == b);
        assert(address_outcome(boot@.target, b, Ok(built[i])));
    }
}

/// A launch that is given its endpoints hands each of them over with its own address, in
/// the order of the addresses, and its loop keeps the target of the dial.
pub proof fn a_launch_hands_over_what_it_is_given(
    boot: Boot,
    initial: AddressSet,
    built: Vec<Endpoint>,
    launch: Launch,
)
    requires
        call_ensures(Boot::launch, (boot, initial, built), launch),
        built@.len() == initial@.len(),
    ensures
        initial@ =~= Set::<SocketAddr>::empty() ==> launch.inserts@.len() == 1
            && launch.inserts@[0] == Change::<Peer, Endpoint>::Insert(Peer::Unresolved, boot@.seed),
        !(initial@ =~= Set::<SocketAddr>::empty()) ==> launch.inserts@.len() == built@.len()
            && forall|i: int|
            0 <= i < built@.len() ==> (#[trigger] launch.inserts@[i] matches Change::Insert(
                Peer::Address(a),
                e,
            ) && initial@.contains(a) && e == built@[i]),
        !(initial@ =~= Set::<SocketAddr>::empty()) ==> forall|i: int, j: int|
            0 <= i < j < launch.inserts@.len() ==> rank(
                #[trigger] launch.inserts@[i]->Insert_0->Address_0,
            ) < rank(#[trigger] launch.inserts@[j]->Insert_0->Address_0),
        launch.never_resolved <==> initial@ =~= Set::<SocketAddr>::empty(),
        launch.capacity == if built@.len() < 8 {
            8
        } else {
            built@.len() as int
        },
        launch.refresh@.target == boot@.target,
        forall|a: SocketAddr| #[trigger]
            launch.refresh@.current.contains(a) <==> initial@.contains(a),
        launch.refresh@.seeded <==> initial@ =~= Set::<SocketAddr>::empty(),
{
    lemma_set_finite(initial);
    a_set_is_walked_in_order(initial@);
    let addresses = ascending_of(initial@);
    if initial@.len() == 0 {
        assert(initial@ =~= Set::empty());
    } else {
        assert forall|i: int| 0 <= i < addresses.len() implies initial@.contains(
            #[trigger] addresses[i],
        ) by {
            assert(addresses.contains(addresses[i]));
        }
    }
}

/// The loop of a launch keeps the target that was dialled: its host, its port, its TLS
/// configuration and its bound on a request are those that the dial was set up with.
pub proof fn a_loop_keeps_the_target_that_was_dialled(
    host: &str,
    port: u16,
    tls: Option<ClientTlsConfig>,
    request_timeout: Duration,
    boot: Boot,
    answer: Result<AddressSet, BalanceError>,
    launch: Launch,
)
    requires
        call_ensures(connect_with, (host, port, tls, request_timeout), Ok(boot)),
        call_ensures(Boot::resolved, (boot, answer), Ok(launch)),
    ensures
        launch.refresh@.target.host@ == host@,
        launch.refresh@.target.port == port,
        launch.refresh@.target.tls is Some <==> tls is Some,
        tls matches Some(config) ==> tls_settings(launch.refresh@.target.tls->0) == tls_settings(
            config,
        ),
        launch.refresh@.target.request_timeout == request_timeout,
{
    lemma_launched_target(boot, answer, launch);
}

proof fn lemma_launched_target(
    boot: Boot,
    answer: Result<AddressSet, BalanceError>,
    launch: Launch,
)
    requires
        call_ensures(Boot::resolved, (boot, answer), Ok(launch)),
    ensures
        launch.refresh@.target == boot@.target,
{
    if answer is Ok && !(answer->Ok_0@ =~= Set::<SocketAddr>::empty()) {
        every_insertion_of_a_launch_belongs_to_the_dial(boot, answer->Ok_0, launch);
    } else {
        a_launch_without_an_address_holds_the_name(boot, answer, Ok(launch));
    }
}

/// An endpoint that the loop of a launch adds later differs from the one for the name in
/// its URI alone: not in its bounds, not in its pings, and not in how the peer is
/// verified.
pub proof fn an_endpoint_added_later_differs_in_its_uri_alone(
    host: &str,
    port: u16,
    tls: Option<ClientTlsConfig>,
    request_timeout: Duration,
    boot: Boot,
    answer: Result<AddressSet, BalanceError>,
    launch: Launch,
    address: SocketAddr,
    endpoint: Endpoint,
)
    requires
        call_ensures(connect_with, (host, port, tls, request_timeout), Ok(boot)),
        call_ensures(Boot::resolved, (boot, answer), Ok(launch)),
        address_outcome(launch.refresh@.target, address, Ok(endpoint)),
    ensures
        endpoint_settings(endpoint) == (EndpointSettings {
            uri: endpoint_settings(endpoint).uri,
            ..endpoint_settings(boot@.seed)
        }),
        endpoint_uri(dialled(address.spec_text(), tls is Some)) == Some(
            endpoint_settings(endpoint).uri,
        ),
        endpoint_settings(endpoint).timeout == Some(request_timeout),
        tls matches Some(config) ==> endpoint_settings(endpoint).tls == Some(tls_settings(config)),
        tls is None ==> endpoint_settings(endpoint).tls is None,
{
    lemma_launched_target(boot, answer, launch);
}

/// What a dial that waits for its host tells of itself is what it was set up with.
pub proof fn a_dial_tells_what_it_dials(boot: Boot, host: &str, port: u16, secured: bool)
    requires
        call_ensures(Boot::host, (&boot,), host),
        call_ensures(Boot::port, (&boot,), port),
        call_ensures(Boot::secured, (&boot,), secured),
    ensures
        host@ == boot@.target.host@,
        port == boot@.target.port,
        secured <==> boot@.target.tls is Some,
{
}

} // verus!

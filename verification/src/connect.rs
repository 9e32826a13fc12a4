//! The entry points, and the dial at the start of a process.
//!
//! A dial begins with the files of its TLS options, where it has any. Then the
//! endpoint for the name is built, the host is resolved, and what comes of both is
//! a [`Launch`]: what the balancer is given first, and the loop that keeps it up
//! to date.

use std::path::PathBuf;
use std::time::Duration;

use tonic::transport::{ClientTlsConfig, Endpoint};
use vstd::prelude::*;

use crate::address::{ascending_of, dotted, AddressSet, SocketAddr};
use crate::diff::Change;
use crate::endpoint::{
    authority, authority_text, endpoint, endpoint_outcome, is_ip_address, settings_of, Peer,
};
use crate::error::BalanceError;
use crate::pki::pem_certificates;
use crate::resolve::{address_outcome, refresh, Asleep, DialView, Target};
use crate::system::{ipv6_literal, lasts, seconds};
use crate::tls::{
    bounds_its_handshake, contents_of, AwaitedView, Preparation, PreparationView, Reading,
    ReadingView, TlsOptions,
};
use crate::transport::TlsSettings;
use crate::REQUEST_TIMEOUT_SECS;

verus! {

/// A dial that waits for its host to be resolved.
pub struct Boot {
    target: Target,
    seed: Endpoint,
}

/// The state of a [`Boot`].
pub ghost struct BootView {
    /// What is dialled.
    pub target: Target,
    /// The endpoint that dials the name.
    pub seed: Endpoint,
}

impl View for Boot {
    type V = BootView;

    closed spec fn view(&self) -> BootView {
        BootView { target: self.target, seed: self.seed }
    }
}

/// `res` is what comes of setting up a dial.
///
/// It fails exactly where no endpoint can be built for the name, and never because an
/// IP address stands in its place. No resolution is part of it.
pub open spec fn dial_outcome(
    host: Seq<char>,
    port: u16,
    tls: Option<TlsSettings>,
    request_timeout: Duration,
    res: Result<Boot, BalanceError>,
) -> bool {
    match res {
        Ok(boot) => {
            &&& endpoint_outcome(
                authority_text(host, port),
                tls,
                request_timeout,
                Ok(boot@.seed),
            )
            &&& boot@.target.host@ == host
            &&& boot@.target.port == port
            &&& settings_of(boot@.target.tls) == tls
            &&& boot@.target.request_timeout == request_timeout
        },
        Err(error) => {
            &&& endpoint_outcome(authority_text(host, port), tls, request_timeout, Err(error))
            &&& is_ip_address(host) ==> error is Tls
        },
    }
}

/// The authority for an IP address is the text of a socket address.
proof fn lemma_ip_address(host: Seq<char>, port: u16)
    requires
        is_ip_address(host),
    ensures
        exists|address: SocketAddr| authority_text(host, port) == #[trigger] address.spec_text(),
{
    match ipv6_literal(host) {
        Some(ip) => {
            let address = SocketAddr::V6 { ip, port, flowinfo: 0, scope_id: 0 };
            assert(address.spec_text() == authority_text(host, port));
        },
        None => {
            let ip = choose|ip: u32| host == #[trigger] dotted(ip);
            let address = SocketAddr::V4 { ip, port };
            assert(address.spec_text() == authority_text(host, port));
        },
    }
}

/// Sets up a dial to `host` with a configuration that is ready.
///
/// The endpoint for the name is built first and on every dial. It is what the
/// balancer holds where nothing resolves, and it is where a host that cannot be
/// dialled at all is found.
pub fn connect_with(
    host: &str,
    port: u16,
    tls: Option<ClientTlsConfig>,
    request_timeout: Duration,
) -> (res: Result<Boot, BalanceError>)
    ensures
        dial_outcome(host@, port, settings_of(tls), request_timeout, res),
        is_ip_address(host@) && tls is None ==> res is Ok,
{
    proof {
        if is_ip_address(host@) {
            lemma_ip_address(host@, port);
        }
    }
    let seed = match endpoint(authority(host, port).as_str(), tls.as_ref(), request_timeout) {
        Ok(seed) => seed,
        Err(error) => {
            return Err(error);
        },
    };
    Ok(Boot { target: Target { host: host.to_owned(), port, tls, request_timeout }, seed })
}

/// Sets up a dial to `host` in cleartext, with the default bound on a request.
///
/// It does not fail because the host does not resolve: a name without a Service
/// behind it yet is an ordering accident. It fails where the host cannot form a
/// URI authority, which no resolution would mend.
pub fn connect(host: &str, port: u16) -> (res: Result<Boot, BalanceError>)
    ensures
        dial_outcome(host@, port, None, seconds(REQUEST_TIMEOUT_SECS), res),
        res matches Ok(boot) ==> lasts(boot@.target.request_timeout, REQUEST_TIMEOUT_SECS),
        is_ip_address(host@) ==> res is Ok,
{
    connect_with(host, port, None, crate::default_request_timeout())
}

/// [`connect`], with the caller's own bound on a request.
///
/// It is a backstop, not the caller's deadline: a shorter deadline of the caller
/// still applies.
pub fn connect_with_request_timeout(
    host: &str,
    port: u16,
    request_timeout: Duration,
) -> (res: Result<Boot, BalanceError>)
    ensures
        dial_outcome(host@, port, None, request_timeout, res),
        is_ip_address(host@) ==> res is Ok,
{
    connect_with(host, port, None, request_timeout)
}

/// An encrypted dial that waits for a file of its TLS options.
pub struct Preparing<'a> {
    reading: Reading<'a>,
    port: u16,
    request_timeout: Duration,
}

/// The state of a [`Preparing`].
pub ghost struct PreparingView {
    /// The preparation of the TLS options, with the host that is dialled.
    pub reading: ReadingView,
    /// The port.
    pub port: u16,
    /// The bound on one request.
    pub request_timeout: Duration,
}

impl View for Preparing<'_> {
    type V = PreparingView;

    closed spec fn view(&self) -> PreparingView {
        PreparingView {
            reading: self.reading@,
            port: self.port,
            request_timeout: self.request_timeout,
        }
    }
}

/// How far an encrypted dial is.
pub enum Connecting<'a> {
    /// It waits for a file.
    Read(Preparing<'a>),
    /// It waits for its host to be resolved.
    Resolve(Boot),
}

/// Sets up a dial to `host` that is encrypted and verifies the peer, with the
/// default bound on a request.
pub fn connect_tls<'a>(host: &'a str, port: u16, tls: &'a TlsOptions) -> (res: Preparing<'a>)
    ensures
        res@ == (PreparingView {
            reading: ReadingView { options: tls@, host: host@, awaited: AwaitedView::Bundle },
            port,
            request_timeout: seconds(REQUEST_TIMEOUT_SECS),
        }),
        lasts(res@.request_timeout, REQUEST_TIMEOUT_SECS),
{
    connect_tls_with_request_timeout(host, port, tls, crate::default_request_timeout())
}

/// [`connect_tls`], with the caller's own bound on a request.
///
/// The files come before the resolution: a misconfigured bundle is reported as
/// itself, whatever the resolver says of the host.
pub fn connect_tls_with_request_timeout<'a>(
    host: &'a str,
    port: u16,
    tls: &'a TlsOptions,
    request_timeout: Duration,
) -> (res: Preparing<'a>)
    ensures
        res@ == (PreparingView {
            reading: ReadingView { options: tls@, host: host@, awaited: AwaitedView::Bundle },
            port,
            request_timeout,
        }),
{
    Preparing { reading: tls.prepare(host), port, request_timeout }
}

/// `res` is what comes of an encrypted dial when the file it waits for was read.
///
/// What is wrong with the configuration is an error. Otherwise the next file is
/// asked for, or the dial is set up with the finished configuration.
pub open spec fn read_outcome(
    state: PreparingView,
    contents: Result<Seq<u8>, std::io::Error>,
    res: Result<Connecting, BalanceError>,
) -> bool {
    match state.reading.after(contents) {
        Err(error) => res == Err::<Connecting, BalanceError>(error),
        Ok(PreparationView::Read(reading)) => res matches Ok(Connecting::Read(next)) && next@ == (
        PreparingView { reading, ..state }),
        Ok(PreparationView::Ready(settings)) => match res {
            Ok(Connecting::Read(_)) => false,
            Ok(Connecting::Resolve(boot)) => dial_outcome(
                state.reading.host,
                state.port,
                Some(settings),
                state.request_timeout,
                Ok(boot),
            ),
            Err(error) => dial_outcome(
                state.reading.host,
                state.port,
                Some(settings),
                state.request_timeout,
                Err(error),
            ),
        },
    }
}

impl<'a> Preparing<'a> {
    /// The file to read next.
    pub fn path(&self) -> (res: &PathBuf)
        ensures
            *res == self@.reading.path(),
    {
        self.reading.path()
    }

    /// Goes on with what reading that file gave.
    pub fn read(self, contents: Result<Vec<u8>, std::io::Error>) -> (res: Result<
        Connecting<'a>,
        BalanceError,
    >)
        ensures
            read_outcome(self@, contents_of(contents), res),
            self@.reading.after(contents_of(contents)) matches Ok(next) ==> bounds_its_handshake(
                next,
            ),
            res matches Err(BalanceError::CaNoTrustAnchor { .. }) ==> (pem_certificates(
                contents_of(contents)->Ok_0,
            ) matches Ok(certificates) && certificates.len() <= usize::MAX),
    {
        let host = self.reading.host();
        match self.reading.read(contents) {
            Err(error) => Err(error),
            Ok(Preparation::Read(reading)) => Ok(
                Connecting::Read(
                    Preparing { reading, port: self.port, request_timeout: self.request_timeout },
                ),
            ),
            Ok(Preparation::Ready(config)) => match connect_with(
                host,
                self.port,
                Some(config),
                self.request_timeout,
            ) {
                Ok(boot) => Ok(Connecting::Resolve(boot)),
                Err(error) => Err(error),
            },
        }
    }
}

/// The fewest changes that the way to the balancer has room for.
pub const MIN_CAPACITY: usize = 8;

/// A dial that can serve requests.
pub struct Launch {
    /// How many changes the way to the balancer has room for.
    pub capacity: usize,
    /// Whether the upstream has not resolved yet: the first value of the gauge.
    pub never_resolved: bool,
    /// What the balancer is given first, in this order. It is never nothing.
    pub inserts: Vec<Change<Peer, Endpoint>>,
    /// The loop that keeps the balancer up to date.
    pub refresh: Asleep,
}

/// The peers that a balancer is given first: the name where nothing resolved, and
/// the addresses in ascending order otherwise.
pub open spec fn first_inserts(
    seed: Endpoint,
    addresses: Seq<SocketAddr>,
    built: Seq<Endpoint>,
) -> Seq<Change<Peer, Endpoint>> {
    if addresses.len() == 0 {
        seq![Change::Insert(Peer::Unresolved, seed)]
    } else {
        Seq::new(
            addresses.len(),
            |i: int| Change::<Peer, Endpoint>::Insert(Peer::Address(addresses[i]), built[i]),
        )
    }
}

/// `launch` is the launch of `boot` with the addresses `initial`, for which the
/// endpoints `built` were built, in ascending order of the addresses.
pub open spec fn is_launch(
    launch: Launch,
    boot: BootView,
    initial: Set<SocketAddr>,
    built: Seq<Endpoint>,
) -> bool {
    &&& launch.capacity == (if built.len() < MIN_CAPACITY {
        MIN_CAPACITY as nat
    } else {
        built.len()
    })
    &&& launch.never_resolved == initial.is_empty()
    &&& launch.inserts@ == first_inserts(boot.seed, ascending_of(initial), built)
    &&& launch.refresh@ == (DialView {
        target: boot.target,
        current: initial,
        seeded: initial.is_empty(),
    })
}

/// The addresses that a resolution at the start gave. A failure counts as none.
pub open spec fn initial_addresses(answer: Result<AddressSet, BalanceError>) -> Set<SocketAddr> {
    match answer {
        Ok(set) => set@,
        Err(_) => Set::empty(),
    }
}

/// `built` are endpoints for each of `addresses`.
pub open spec fn all_built(
    target: Target,
    addresses: Seq<SocketAddr>,
    built: Seq<Endpoint>,
) -> bool {
    &&& built.len() == addresses.len()
    &&& forall|i: int|
        0 <= i < built.len() ==> address_outcome(target, addresses[i], Ok(#[trigger] built[i]))
}

/// `error` is what the first of `addresses` gave for which no endpoint could be
/// built.
pub open spec fn failed_first(
    target: Target,
    addresses: Seq<SocketAddr>,
    error: BalanceError,
) -> bool {
    exists|built: Seq<Endpoint>|
        built.len() < addresses.len() && #[trigger] all_built(
            target,
            addresses.take(built.len() as int),
            built,
        ) && address_outcome(target, addresses[built.len() as int], Err(error))
}

/// `launch` is a launch of `boot` with an endpoint for each of the addresses
/// `initial`.
pub open spec fn launched(launch: Launch, boot: BootView, initial: Set<SocketAddr>) -> bool {
    exists|built: Seq<Endpoint>|
        all_built(boot.target, ascending_of(initial), built) && #[trigger] is_launch(
            launch,
            boot,
            initial,
            built,
        )
}

/// `res` is what comes of `boot` where the host resolves to `initial`: a launch
/// with an endpoint for each address, or the error of the first that has none.
pub open spec fn launch_outcome(
    boot: BootView,
    initial: Set<SocketAddr>,
    res: Result<Launch, BalanceError>,
) -> bool {
    match res {
        Ok(launch) => launched(launch, boot, initial),
        Err(error) => failed_first(boot.target, ascending_of(initial), error),
    }
}

/// What the balancer is given first.
fn inserts_for(seed: Endpoint, addresses: &Vec<SocketAddr>, built: Vec<Endpoint>) -> (res: Vec<
    Change<Peer, Endpoint>,
>)
    requires
        built@.len() == addresses@.len(),
    ensures
        res@ == first_inserts(seed, addresses@, built@),
{
    let mut inserts: Vec<Change<Peer, Endpoint>> = Vec::new();
    if addresses.len() == 0 {
        inserts.push(Change::Insert(Peer::Unresolved, seed));
        return inserts;
    }
    let mut i: usize = 0;
    for endpoint in iter: built
        invariant
            i == iter.index(),
            i <= addresses.len(),
            iter.seq() == built@,
            built@.len() == addresses@.len(),
            inserts@ == first_inserts(seed, addresses@, built@).take(i as int),
            addresses@.len() > 0,
    {
        inserts.push(Change::Insert(Peer::Address(addresses[i]), endpoint));
        i = i + 1;
    }
    inserts
}

impl Boot {
    /// The host to resolve.
    pub fn host(&self) -> (res: &str)
        ensures
            res@ == self@.target.host@,
    {
        self.target.host.as_str()
    }

    /// The port to resolve it with.
    pub fn port(&self) -> (res: u16)
        ensures
            res == self@.target.port,
    {
        self.target.port
    }

    /// Whether the dial is encrypted.
    pub fn secured(&self) -> (res: bool)
        ensures
            res == self@.target.tls is Some,
    {
        self.target.tls.is_some()
    }

    /// The launch with the addresses `initial` and an endpoint for each of them.
    pub fn launch(self, initial: AddressSet, built: Vec<Endpoint>) -> (res: Launch)
        requires
            built@.len() == initial@.len(),
        ensures
            is_launch(res, self@, initial@, built@),
    {
        let count = initial.len();
        let capacity = if count < MIN_CAPACITY {
            MIN_CAPACITY
        } else {
            count
        };
        let never_resolved = initial.is_empty();
        let Boot { target, seed } = self;
        let inserts = inserts_for(seed, initial.members(), built);
        let refresh = refresh(target, initial, never_resolved);
        Launch { capacity, never_resolved, inserts, refresh }
    }

    /// The host was resolved, or it could not be.
    ///
    /// A failure and an empty answer are no error: the balancer is given the name
    /// until an address resolves. Every endpoint is built before any of them is
    /// handed over, so an error is reported before a channel exists.
    pub fn resolved(self, answer: Result<AddressSet, BalanceError>) -> (res: Result<
        Launch,
        BalanceError,
    >)
        ensures
            launch_outcome(self@, initial_addresses(answer), res),
    {
        let initial = match answer {
            Ok(set) => set,
            Err(_) => AddressSet::new(),
        };
        let mut built: Vec<Endpoint> = Vec::new();
        let members = initial.members();
        let mut i: usize = 0;
        while i < members.len()
            invariant
                i <= members.len(),
                built.len() == i,
                initial@ == initial_addresses(answer),
                members@ == ascending_of(initial@),
                forall|j: int|
                    0 <= j < i ==> address_outcome(
                        self@.target,
                        members@[j],
                        Ok(#[trigger] built@[j]),
                    ),
            decreases members.len() - i,
        {
            let text = members[i].text();
            match endpoint(text.as_str(), self.target.tls.as_ref(), self.target.request_timeout) {
                Ok(endpoint) => {
                    built.push(endpoint);
                },
                Err(error) => {
                    assert(all_built(self@.target, members@.take(i as int), built@));
                    return Err(error);
                },
            }
            i = i + 1;
        }
        let ghost made = built@;
        let launch = self.launch(initial, built);
        assert(all_built(self@.target, ascending_of(initial_addresses(answer)), made));
        assert(is_launch(launch, self@, initial_addresses(answer), made));
        assert(launched(launch, self@, initial_addresses(answer)));
        Ok(launch)
    }
}

} // verus!

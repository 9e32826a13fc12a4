//! The re-resolution loop: resolve again, compare with what the balancer was
//! given, and apply the difference.
//!
//! Each state of the loop is a type of its own, and asks for exactly one thing to
//! be done: to sleep, to resolve, to build an endpoint, to send a change. The
//! method that takes the outcome gives the next state.

use std::collections::VecDeque;
use std::time::Duration;

use tonic::transport::{ClientTlsConfig, Endpoint};
use vstd::prelude::*;

use crate::address::{lemma_set_finite, AddressSet, SocketAddr};
use crate::diff::{changes_between, diff, inserted_in, removed_in, split, Change};
use crate::endpoint::{endpoint, endpoint_outcome, settings_of, Peer};
use crate::error::BalanceError;
use crate::system::{lasts, seconds};
use crate::text::{decimal, decimal_text, join};
use crate::{RERESOLVE_SECS, RESOLVE_TIMEOUT_SECS};

verus! {

/// What a dial is, whichever addresses it reaches at the moment. An endpoint that
/// is built later is built from the same four values as those at the start.
pub struct Target {
    /// The host that is dialled.
    pub host: String,
    /// The port.
    pub port: u16,
    /// The TLS configuration, where the dial is encrypted.
    pub tls: Option<ClientTlsConfig>,
    /// The bound on one request.
    pub request_timeout: Duration,
}

/// `res` is what comes of building the endpoint for `address`. In cleartext that
/// always succeeds, and where it is encrypted only the configuration can be refused.
pub open spec fn address_outcome(
    target: Target,
    address: SocketAddr,
    res: Result<Endpoint, BalanceError>,
) -> bool {
    &&& endpoint_outcome(
        address.spec_text(),
        settings_of(target.tls),
        target.request_timeout,
        res,
    )
    &&& res matches Err(error) ==> target.tls is Some && error is Tls
}

/// How bad it is that a resolution gave no addresses.
#[derive(Clone, Copy, PartialEq, Eq, Debug, Structural)]
pub enum Absence {
    /// No endpoint has ever been available, and every request fails.
    NeverResolved,
    /// The current endpoints are kept, and requests are still served.
    Blip,
}

/// How loudly something is said.
#[derive(Clone, Copy, PartialEq, Eq, Debug, Structural)]
pub enum Level {
    /// An operator has to act.
    Error,
    /// It is worth knowing.
    Warn,
}

/// What an operator is told of an upstream that has never resolved.
pub const NEVER_RESOLVED: &'static str =
    "the upstream has never resolved; NO endpoint has ever been available and every \
    request to it is failing. This is a missing or unready Service, not a slow one.";

/// What an operator is told of an upstream that resolves to nothing for a while.
pub const RESOLUTION_BLIP: &'static str =
    "re-resolution produced nothing; keeping the current endpoints";

/// How to report a tick that produced no addresses.
///
/// An upstream that has endpoints and blipped is a warning. One that has never
/// produced an address is a service that started and cannot serve anything, and
/// nothing else says so.
pub fn still_absent(nothing_given_yet: bool) -> (res: Absence)
    ensures
        res == (if nothing_given_yet {
            Absence::NeverResolved
        } else {
            Absence::Blip
        }),
{
    if nothing_given_yet {
        Absence::NeverResolved
    } else {
        Absence::Blip
    }
}

impl Absence {
    /// How loudly it is said.
    pub fn level(&self) -> (res: Level)
        ensures
            res == (match *self {
                Absence::NeverResolved => Level::Error,
                Absence::Blip => Level::Warn,
            }),
    {
        match self {
            Absence::NeverResolved => Level::Error,
            Absence::Blip => Level::Warn,
        }
    }

    /// What is said.
    pub fn message(&self) -> (res: &'static str)
        ensures
            res@ == (match *self {
                Absence::NeverResolved => NEVER_RESOLVED@,
                Absence::Blip => RESOLUTION_BLIP@,
            }),
    {
        match self {
            Absence::NeverResolved => NEVER_RESOLVED,
            Absence::Blip => RESOLUTION_BLIP,
        }
    }

    /// How often it will be said again while nothing changes, in seconds, where
    /// that is part of the report.
    pub fn interval_secs(&self) -> (res: Option<u64>)
        ensures
            res == (match *self {
                Absence::NeverResolved => Some(RERESOLVE_SECS),
                Absence::Blip => None,
            }),
    {
        match self {
            Absence::NeverResolved => Some(RERESOLVE_SECS),
            Absence::Blip => None,
        }
    }
}

/// `host` and `port` as a resolver takes them.
pub fn lookup_target(host: &str, port: u16) -> (res: String)
    ensures
        res@ == host@ + ":"@ + decimal(port as nat),
{
    join(host, ":", decimal_text(port as u64).as_str())
}

/// How a bounded lookup ended.
#[derive(Debug)]
pub enum Lookup {
    /// The bound ran out first.
    TimedOut,
    /// The resolver answered with an error.
    Failed(std::io::Error),
    /// The resolver answered with these addresses, in its own order.
    Answered(Vec<SocketAddr>),
}

/// The bound on one lookup.
pub fn resolve_timeout() -> (res: Duration)
    ensures
        res == seconds(RESOLVE_TIMEOUT_SECS),
        lasts(res, RESOLVE_TIMEOUT_SECS),
{
    Duration::from_secs(RESOLVE_TIMEOUT_SECS)
}

/// What a lookup of `target` gave: the set of its addresses, or an error. A
/// resolver that stopped answering is an error of its own, distinct from a name
/// that does not exist.
pub fn bounded_lookup(target: String, lookup: Lookup) -> (res: Result<AddressSet, BalanceError>)
    ensures
        match lookup {
            Lookup::TimedOut => res == Err::<AddressSet, BalanceError>(
                BalanceError::DnsTimedOut { host: target, after: seconds(RESOLVE_TIMEOUT_SECS) },
            ),
            Lookup::Failed(source) => res == Err::<AddressSet, BalanceError>(
                BalanceError::Dns { host: target, source },
            ),
            Lookup::Answered(addresses) => res matches Ok(set) && set@ == addresses@.to_set(),
        },
        res matches Err(BalanceError::DnsTimedOut { after, .. }) ==> lasts(
            after,
            RESOLVE_TIMEOUT_SECS,
        ),
{
    match lookup {
        Lookup::TimedOut => Err(
            BalanceError::DnsTimedOut { host: target, after: resolve_timeout() },
        ),
        Lookup::Failed(source) => Err(BalanceError::Dns { host: target, source }),
        Lookup::Answered(addresses) => Ok(AddressSet::from_addresses(&addresses)),
    }
}

/// A dial: its target, the addresses that the balancer has been given, and
/// whether the balancer holds the name.
///
/// `current` is what was handed over, not what was last resolved: an address whose
/// endpoint could not be built is not recorded, and is offered again.
pub struct Dial {
    target: Target,
    current: AddressSet,
    seeded: bool,
}

/// The state of a [`Dial`].
pub ghost struct DialView {
    /// What is dialled.
    pub target: Target,
    /// The addresses that the balancer has been given.
    pub current: Set<SocketAddr>,
    /// Whether the balancer holds the name.
    pub seeded: bool,
}

impl View for Dial {
    type V = DialView;

    closed spec fn view(&self) -> DialView {
        DialView { target: self.target, current: self.current@, seeded: self.seeded }
    }
}

/// What a tick is about to change.
pub ghost struct Batch {
    /// The addresses that the answer lacks, which are to go.
    pub gone: Seq<SocketAddr>,
    /// The insertions whose endpoints have been built.
    pub made: Seq<Change<Peer, Endpoint>>,
    /// The new addresses whose endpoints have not been built yet.
    pub left: Seq<SocketAddr>,
}

/// Where the loop is.
pub ghost enum Phase {
    /// It sleeps between two ticks.
    Asleep,
    /// It waits for a resolution.
    Resolving,
    /// It waits for the endpoint of the first address that is left of a batch.
    Building(Batch),
    /// It waits for a change to be taken. The others follow it.
    Sending(Change<Peer, ()>, Seq<Change<Peer, Endpoint>>),
    /// It has ended.
    Ended,
}

/// The whole state of the loop.
pub ghost struct Model {
    /// The dial.
    pub dial: DialView,
    /// Where the loop is.
    pub phase: Phase,
}

/// One step of the loop.
pub ghost struct StepView {
    /// The value of the gauge, where the step writes it.
    pub report: Option<bool>,
    /// The absence to report, where the step found one.
    pub absent: Option<Absence>,
    /// The change to send, where the step asks for that.
    pub send: Option<Change<Peer, Endpoint>>,
    /// The state afterwards.
    pub model: Model,
}

/// A step that does nothing but go to `phase`.
pub open spec fn quiet(dial: DialView, phase: Phase) -> StepView {
    StepView { report: None, absent: None, send: None, model: Model { dial, phase } }
}

/// The end of the loop. Nothing dials the upstream any more, so its absence is no
/// longer reported.
pub open spec fn ended(dial: DialView) -> StepView {
    StepView { report: Some(false), ..quiet(dial, Phase::Ended) }
}

/// A tick that produced no addresses changes nothing.
pub open spec fn no_addresses(dial: DialView) -> StepView {
    StepView {
        absent: Some(
            if dial.current.is_empty() {
                Absence::NeverResolved
            } else {
                Absence::Blip
            },
        ),
        ..quiet(dial, Phase::Asleep)
    }
}

/// A tick is over.
pub open spec fn settled(dial: DialView) -> StepView {
    StepView { report: Some(dial.current.is_empty()), ..quiet(dial, Phase::Asleep) }
}

/// A change, whatever serves the peer.
pub open spec fn stripped(change: Change<Peer, Endpoint>) -> Change<Peer, ()> {
    match change {
        Change::Insert(peer, _) => Change::Insert(peer, ()),
        Change::Remove(peer) => Change::Remove(peer),
    }
}

/// The dial once the balancer has taken `change`.
pub open spec fn handed(dial: DialView, change: Change<Peer, ()>) -> DialView {
    match change {
        Change::Insert(Peer::Address(address), _) => DialView {
            current: dial.current.insert(address),
            ..dial
        },
        Change::Remove(Peer::Address(address)) => DialView {
            current: dial.current.remove(address),
            ..dial
        },
        Change::Insert(Peer::Unresolved, _) => DialView { seeded: true, ..dial },
        Change::Remove(Peer::Unresolved) => DialView { seeded: false, ..dial },
    }
}

/// `addresses` taken out of a balancer, in their order.
pub open spec fn taken_out(addresses: Seq<SocketAddr>) -> Seq<Change<Peer, Endpoint>> {
    addresses.map_values(
        |address: SocketAddr| Change::<Peer, Endpoint>::Remove(Peer::Address(address)),
    )
}

/// What is sent for a batch: what is gone, then what is new, then the name, where the
/// balancer holds it.
pub open spec fn plan(dial: DialView, batch: Batch) -> Seq<Change<Peer, Endpoint>> {
    taken_out(batch.gone) + batch.made + if dial.seeded {
        seq![Change::<Peer, Endpoint>::Remove(Peer::Unresolved)]
    } else {
        Seq::empty()
    }
}

/// A batch after which the balancer would hold no address.
pub open spec fn leaves_nothing(dial: DialView, batch: Batch) -> bool {
    batch.made.len() == 0 && dial.current.subset_of(batch.gone.to_set())
}

/// The first of `pending` is sent, or the tick is over.
pub open spec fn deliver(dial: DialView, pending: Seq<Change<Peer, Endpoint>>) -> StepView {
    if pending.len() == 0 {
        settled(dial)
    } else {
        StepView {
            send: Some(pending[0]),
            ..quiet(dial, Phase::Sending(stripped(pending[0]), pending.drop_first()))
        }
    }
}

/// Every endpoint of a batch is built before anything is sent.
///
/// A batch that would leave the balancer without an address is dropped: what works
/// now is not given up for an answer of which nothing can be dialled.
pub open spec fn gather(dial: DialView, batch: Batch) -> StepView {
    if batch.left.len() > 0 {
        quiet(dial, Phase::Building(batch))
    } else if leaves_nothing(dial, batch) {
        settled(dial)
    } else {
        deliver(dial, plan(dial, batch))
    }
}

/// The tick begins: the loop ends where the channel is gone, and resolves
/// otherwise.
pub open spec fn woke(dial: DialView, closed: bool) -> StepView {
    if closed {
        ended(dial)
    } else {
        StepView { report: Some(dial.current.is_empty()), ..quiet(dial, Phase::Resolving) }
    }
}

/// The resolution answered with a set, or not at all.
pub open spec fn answered(dial: DialView, answer: Option<Set<SocketAddr>>) -> StepView {
    match answer {
        None => no_addresses(dial),
        Some(resolved) => if resolved.is_empty() {
            no_addresses(dial)
        } else if resolved == dial.current {
            quiet(dial, Phase::Asleep)
        } else {
            gather(
                dial,
                Batch {
                    gone: removed_in(changes_between(dial.current, resolved)),
                    made: Seq::empty(),
                    left: inserted_in(changes_between(dial.current, resolved)),
                },
            )
        },
    }
}

/// The endpoint for the first address that is left of `batch` was built, or could not
/// be. In the second case the address is passed over, and not recorded.
pub open spec fn built(dial: DialView, batch: Batch, endpoint: Option<Endpoint>) -> StepView {
    gather(
        dial,
        Batch {
            made: match endpoint {
                Some(endpoint) => batch.made.push(
                    Change::Insert(Peer::Address(batch.left[0]), endpoint),
                ),
                None => batch.made,
            },
            left: batch.left.drop_first(),
            ..batch
        },
    )
}

/// The change that was `sent` was taken, or the channel is gone.
pub open spec fn sent(
    dial: DialView,
    change: Change<Peer, ()>,
    rest: Seq<Change<Peer, Endpoint>>,
    delivered: bool,
) -> StepView {
    if delivered {
        deliver(handed(dial, change), rest)
    } else {
        ended(dial)
    }
}

/// The loop sleeps between two ticks.
pub struct Asleep {
    dial: Dial,
}

/// The loop waits for a resolution.
pub struct Resolving {
    dial: Dial,
}

/// The loop waits for an endpoint.
pub struct Building {
    dial: Dial,
    gone: Vec<SocketAddr>,
    made: VecDeque<Change<Peer, Endpoint>>,
    left: Vec<SocketAddr>,
    at: usize,
}

/// The loop waits for a change to be taken.
pub struct Sending {
    dial: Dial,
    sent: Change<Peer, ()>,
    rest: VecDeque<Change<Peer, Endpoint>>,
}

/// What the loop asks for.
pub enum Next {
    /// Sleep for [`crate::reresolve_interval`], then see whether the channel is
    /// gone.
    Sleep(Asleep),
    /// Resolve the host again.
    Resolve(Resolving),
    /// Build the endpoint.
    Build(Building),
    /// Send this change to the balancer.
    Send(Change<Peer, Endpoint>, Sending),
    /// Stop: the channel is gone.
    End(Dial),
}

/// One step of the loop: what to write down, and what to do.
pub struct Step {
    /// Whether the upstream has never resolved, where the gauge is to be written.
    pub report: Option<bool>,
    /// The absence to report, where the step found one.
    pub absent: Option<Absence>,
    /// What the loop asks for.
    pub next: Next,
}

impl View for Asleep {
    type V = DialView;

    closed spec fn view(&self) -> DialView {
        self.dial@
    }
}

impl View for Resolving {
    type V = DialView;

    closed spec fn view(&self) -> DialView {
        self.dial@
    }
}

/// The state of a [`Building`].
pub ghost struct BuildingView {
    /// The dial.
    pub dial: DialView,
    /// What the tick is about to change. The endpoint of the first address that is
    /// left is waited for.
    pub batch: Batch,
}

impl View for Building {
    type V = BuildingView;

    closed spec fn view(&self) -> BuildingView {
        BuildingView {
            dial: self.dial@,
            batch: Batch {
                gone: self.gone@,
                made: self.made@,
                left: self.left@.skip(self.at as int),
            },
        }
    }
}

/// The state of a [`Sending`].
pub ghost struct SendingView {
    /// The dial.
    pub dial: DialView,
    /// The change that was sent.
    pub sent: Change<Peer, ()>,
    /// The changes that follow it.
    pub rest: Seq<Change<Peer, Endpoint>>,
}

impl View for Sending {
    type V = SendingView;

    closed spec fn view(&self) -> SendingView {
        SendingView { dial: self.dial@, sent: self.sent, rest: self.rest@ }
    }
}

impl View for Next {
    type V = Model;

    open spec fn view(&self) -> Model {
        match self {
            Next::Sleep(state) => Model { dial: state@, phase: Phase::Asleep },
            Next::Resolve(state) => Model { dial: state@, phase: Phase::Resolving },
            Next::Build(state) => Model {
                dial: state@.dial,
                phase: Phase::Building(state@.batch),
            },
            Next::Send(_, state) => Model {
                dial: state@.dial,
                phase: Phase::Sending(state@.sent, state@.rest),
            },
            Next::End(dial) => Model { dial: dial@, phase: Phase::Ended },
        }
    }
}

impl View for Step {
    type V = StepView;

    open spec fn view(&self) -> StepView {
        StepView {
            report: self.report,
            absent: self.absent,
            send: match self.next {
                Next::Send(change, _) => Some(change),
                _ => None,
            },
            model: self.next@,
        }
    }
}

impl Dial {
    /// The host that is dialled.
    pub fn host(&self) -> (res: &str)
        ensures
            res@ == self@.target.host@,
    {
        self.target.host.as_str()
    }

    fn end(self) -> (res: Step)
        ensures
            res@ == ended(self@),
    {
        Step { report: Some(false), absent: None, next: Next::End(self) }
    }

    fn no_addresses(self) -> (res: Step)
        ensures
            res@ == no_addresses(self@),
    {
        let absence = still_absent(self.current.is_empty());
        Step { report: None, absent: Some(absence), next: Next::Sleep(Asleep { dial: self }) }
    }

    fn settled(self) -> (res: Step)
        ensures
            res@ == settled(self@),
    {
        let empty = self.current.is_empty();
        Step { report: Some(empty), absent: None, next: Next::Sleep(Asleep { dial: self }) }
    }

    /// Sends the first of `pending`, or ends the tick.
    fn deliver(self, pending: VecDeque<Change<Peer, Endpoint>>) -> (res: Step)
        ensures
            res@ == deliver(self@, pending@),
    {
        let mut rest = pending;
        let first = rest.pop_front();
        match first {
            None => self.settled(),
            Some(change) => {
                assert(rest@ == pending@.drop_first());
                let sent = match &change {
                    Change::Insert(peer, _) => Change::Insert(*peer, ()),
                    Change::Remove(peer) => Change::Remove(*peer),
                };
                Step {
                    report: None,
                    absent: None,
                    next: Next::Send(change, Sending { dial: self, sent, rest }),
                }
            },
        }
    }

    /// Whether a batch would leave the balancer without an address.
    fn leaves_nothing(&self, gone: &Vec<SocketAddr>, made: &VecDeque<Change<Peer, Endpoint>>) -> (
        res: bool)
        ensures
            forall|left: Seq<SocketAddr>|
                res == #[trigger] leaves_nothing(
                    self@,
                    Batch { gone: gone@, made: made@, left },
                ),
    {
        made.len() == 0 && self.current.within(gone)
    }

    /// Builds the next endpoint of a batch, or sends what it comes to.
    fn gather(
        self,
        gone: Vec<SocketAddr>,
        made: VecDeque<Change<Peer, Endpoint>>,
        left: Vec<SocketAddr>,
        at: usize,
    ) -> (res: Step)
        requires
            at <= left.len(),
        ensures
            res@ == gather(
                self@,
                Batch { gone: gone@, made: made@, left: left@.skip(at as int) },
            ),
    {
        if at < left.len() {
            let next = Next::Build(Building { dial: self, gone, made, left, at });
            return Step { report: None, absent: None, next };
        }
        if self.leaves_nothing(&gone, &made) {
            return self.settled();
        }
        let mut pending: VecDeque<Change<Peer, Endpoint>> = VecDeque::new();
        let mut i: usize = 0;
        while i < gone.len()
            invariant
                i <= gone.len(),
                pending@ == taken_out(gone@.take(i as int)),
            decreases gone.len() - i,
        {
            pending.push_back(Change::Remove(Peer::Address(gone[i])));
            assert(gone@.take(i + 1) == gone@.take(i as int).push(gone[i as int]));
            i = i + 1;
        }
        assert(gone@.take(i as int) == gone@);
        let mut insertions = made;
        pending.append(&mut insertions);
        if self.seeded {
            pending.push_back(Change::Remove(Peer::Unresolved));
        }
        assert(pending@ == plan(
            self@,
            Batch { gone: gone@, made: made@, left: left@.skip(at as int) },
        ));
        self.deliver(pending)
    }
}

/// A dial has finitely many addresses.
pub proof fn lemma_asleep_finite(state: Asleep)
    ensures
        state@.current.finite(),
{
    lemma_set_finite(state.dial.current);
}

/// A dial has finitely many addresses.
pub proof fn lemma_resolving_finite(state: Resolving)
    ensures
        state@.current.finite(),
{
    lemma_set_finite(state.dial.current);
}

/// The loop for `target`, which starts with the addresses that the balancer was
/// given at the start. `seeded` says that the balancer holds the name.
pub fn refresh(target: Target, current: AddressSet, seeded: bool) -> (res: Asleep)
    ensures
        res@ == (DialView { target, current: current@, seeded }),
{
    Asleep { dial: Dial { target, current, seeded } }
}

impl Asleep {
    /// The host that is dialled.
    pub fn host(&self) -> (res: &str)
        ensures
            res@ == self@.target.host@,
    {
        self.dial.host()
    }

    /// How many addresses the balancer has been given.
    pub fn count(&self) -> (res: usize)
        ensures
            res == self@.current.len(),
    {
        self.dial.current.len()
    }

    /// The interval is over, and the channel is `closed` or not.
    ///
    /// Two common ticks send nothing, a stable set and an empty answer, so a loop
    /// that waited for a send to fail would never learn that the channel is gone.
    pub fn woke(self, closed: bool) -> (res: Step)
        ensures
            res@ == woke(self@, closed),
    {
        if closed {
            return self.dial.end();
        }
        let empty = self.dial.current.is_empty();
        Step {
            report: Some(empty),
            absent: None,
            next: Next::Resolve(Resolving { dial: self.dial }),
        }
    }
}

impl Resolving {
    /// The host to resolve.
    pub fn host(&self) -> (res: &str)
        ensures
            res@ == self@.target.host@,
    {
        self.dial.host()
    }

    /// The port to resolve it with.
    pub fn port(&self) -> (res: u16)
        ensures
            res == self@.target.port,
    {
        self.dial.target.port
    }

    /// The resolution answered with a set, or `None` where it failed.
    ///
    /// A failure and an empty answer remove nothing: a headless Service returns
    /// nothing for a moment during some rollouts, and acting on that would fail
    /// every request.
    pub fn answered(self, answer: Option<AddressSet>) -> (res: Step)
        ensures
            res@ == answered(
                self@,
                match answer {
                    Some(resolved) => Some(resolved@),
                    None => None,
                },
            ),
    {
        match answer {
            None => self.dial.no_addresses(),
            Some(resolved) => {
                if resolved.is_empty() {
                    return self.dial.no_addresses();
                }
                if resolved.same(&self.dial.current) {
                    return Step {
                        report: None,
                        absent: None,
                        next: Next::Sleep(Asleep { dial: self.dial }),
                    };
                }
                let (gone, left) = split(&diff(&self.dial.current, &resolved));
                assert(left@.skip(0) == left@);
                self.dial.gather(gone, VecDeque::new(), left, 0)
            },
        }
    }
}

impl Building {
    #[verifier::type_invariant]
    closed spec fn wf(self) -> bool {
        self.at < self.left.len()
    }

    /// The host that is dialled.
    pub fn host(&self) -> (res: &str)
        ensures
            res@ == self@.dial.target.host@,
    {
        self.dial.host()
    }

    /// The address whose endpoint is to be built.
    pub fn address(&self) -> (res: SocketAddr)
        ensures
            self@.batch.left.len() > 0,
            res == self@.batch.left[0],
    {
        proof {
            use_type_invariant(self);
        }
        self.left[self.at]
    }

    /// The endpoint was built, or `None` where it could not be.
    pub fn built(self, endpoint: Option<Endpoint>) -> (res: Step)
        ensures
            self@.batch.left.len() > 0,
            res@ == built(self@.dial, self@.batch, endpoint),
    {
        proof {
            use_type_invariant(&self);
            assert(self.left@.skip(self.at as int).drop_first() == self.left@.skip(self.at + 1));
        }
        let Building { dial, gone, mut made, left, at } = self;
        if let Some(endpoint) = endpoint {
            made.push_back(Change::Insert(Peer::Address(left[at]), endpoint));
        }
        dial.gather(gone, made, left, at + 1)
    }

    /// Builds the endpoint and goes on with it, or passes the address over and says
    /// why. The recovery from a failure is never an endpoint in cleartext.
    pub fn build(self) -> (res: (Step, Option<BalanceError>))
        ensures
            self@.batch.left.len() > 0,
            match res.1 {
                Some(error) => address_outcome(
                    self@.dial.target,
                    self@.batch.left[0],
                    Err(error),
                ) && res.0@ == built(self@.dial, self@.batch, None),
                None => exists|made: Endpoint|
                    address_outcome(self@.dial.target, self@.batch.left[0], Ok(made)) && res.0@
                        == #[trigger] built(self@.dial, self@.batch, Some(made)),
            },
    {
        let text = self.address().text();
        let outcome = endpoint(
            text.as_str(),
            self.dial.target.tls.as_ref(),
            self.dial.target.request_timeout,
        );
        match outcome {
            Ok(made) => (self.built(Some(made)), None),
            Err(error) => (self.built(None), Some(error)),
        }
    }
}

impl Sending {
    /// The host that is dialled.
    pub fn host(&self) -> (res: &str)
        ensures
            res@ == self@.dial.target.host@,
    {
        self.dial.host()
    }

    /// The change was `delivered`, or the channel is gone.
    pub fn sent(self, delivered: bool) -> (res: Step)
        ensures
            res@ == sent(self@.dial, self@.sent, self@.rest, delivered),
    {
        if !delivered {
            return self.dial.end();
        }
        let Sending { mut dial, sent, rest } = self;
        match sent {
            Change::Insert(Peer::Address(address), _) => {
                dial.current.insert(address);
            },
            Change::Remove(Peer::Address(address)) => {
                dial.current.remove(&address);
            },
            Change::Insert(Peer::Unresolved, _) => {
                dial.seeded = true;
            },
            Change::Remove(Peer::Unresolved) => {
                dial.seeded = false;
            },
        }
        dial.deliver(rest)
    }
}

} // verus!

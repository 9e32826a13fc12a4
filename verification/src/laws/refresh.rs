//! Laws on the life of a dial: what its balancer holds and what its gauge says,
//! whatever the resolver answers, whichever endpoints can be built, and whenever
//! the channel goes.

use tonic::transport::Endpoint;
use vstd::prelude::*;

use crate::address::{lemma_ascending_exists, SocketAddr};
use crate::diff::{changes_between, inserted_in, removed_in, Change};
use crate::endpoint::Peer;
use crate::laws::changes::{changes_are_the_difference, the_changes_are_two_differences};
use crate::resolve::{
    address_outcome, answered, built, deliver, gather, handed, leaves_nothing, plan, quiet, sent,
    stripped, taken_out, woke, Absence, Batch, DialView, Model, Phase, StepView, Target,
};

verus! {

/// What happens to the loop.
pub ghost enum Event {
    /// The interval is over. The channel is gone, or it is not.
    Woke(bool),
    /// The resolution gave a set, or failed.
    Answered(Option<Set<SocketAddr>>),
    /// An endpoint was built, or could not be.
    Built(Option<Endpoint>),
    /// A change was taken, or the channel is gone.
    Sent(bool),
}

/// A dial, and what has come of it so far.
pub ghost struct Run {
    /// The last step of the loop.
    pub step: StepView,
    /// The peers that the balancer holds.
    pub held: Set<Peer>,
    /// The changes that the balancer has taken.
    pub taken: Seq<Change<Peer, Endpoint>>,
    /// The last value of the gauge.
    pub gauge: bool,
    /// Whether the balancer has ever been given an address.
    pub given: bool,
    /// The last answer that had an address in it, or the addresses at the start.
    pub resolved: Set<SocketAddr>,
    /// The addresses of that answer whose endpoint could not be built.
    pub failed: Set<SocketAddr>,
    /// The addresses that the balancer had when that answer came.
    pub before: Set<SocketAddr>,
}

impl Run {
    /// The dial.
    pub open spec fn dial(self) -> DialView {
        self.step.model.dial
    }

    /// The addresses that the balancer was given and has not been told to drop.
    pub open spec fn current(self) -> Set<SocketAddr> {
        self.dial().current
    }

    /// Where the loop is.
    pub open spec fn phase(self) -> Phase {
        self.step.model.phase
    }

    /// The loop is between two ticks, or it waits for an answer.
    pub open spec fn settled(self) -> bool {
        self.phase() is Asleep || self.phase() is Resolving
    }

    /// The addresses of the last answer that can be dialled.
    pub open spec fn usable(self) -> Set<SocketAddr> {
        self.resolved.difference(self.failed)
    }
}

/// The balancer after one change.
pub open spec fn taken<V>(held: Set<Peer>, change: Change<Peer, V>) -> Set<Peer> {
    match change {
        Change::Insert(peer, _) => held.insert(peer),
        Change::Remove(peer) => held.remove(peer),
    }
}

/// The balancer after all of `changes`, the first one first.
pub open spec fn all_taken<V>(held: Set<Peer>, changes: Seq<Change<Peer, V>>) -> Set<Peer>
    decreases changes.len(),
{
    if changes.len() == 0 {
        held
    } else {
        all_taken(taken(held, changes[0]), changes.drop_first())
    }
}

/// The peers of a dial: its addresses, and the name where it is seeded.
pub open spec fn peers_of(dial: DialView) -> Set<Peer> {
    Set::new(
        |peer: Peer|
            match peer {
                Peer::Unresolved => dial.seeded,
                Peer::Address(address) => dial.current.contains(address),
            },
    )
}

/// The run of a dial whose loop has just been started.
pub open spec fn start(dial: DialView) -> Run {
    Run {
        step: quiet(dial, Phase::Asleep),
        held: peers_of(dial),
        taken: Seq::empty(),
        gauge: dial.current.is_empty(),
        given: !dial.current.is_empty(),
        resolved: dial.current,
        failed: Set::empty(),
        before: dial.current,
    }
}

/// `event` is one that the loop waits for in `phase`. An answer is a finite set.
pub open spec fn fits(phase: Phase, event: Event) -> bool {
    match (phase, event) {
        (Phase::Asleep, Event::Woke(_)) => true,
        (Phase::Resolving, Event::Answered(answer)) => answer matches Some(set) ==> set.finite(),
        (Phase::Building(_), Event::Built(_)) => true,
        (Phase::Sending(..), Event::Sent(_)) => true,
        _ => false,
    }
}

/// The step that the loop takes on an event that fits.
pub open spec fn next_step(model: Model, event: Event) -> StepView {
    match (model.phase, event) {
        (Phase::Asleep, Event::Woke(closed)) => woke(model.dial, closed),
        (Phase::Resolving, Event::Answered(answer)) => answered(model.dial, answer),
        (Phase::Building(batch), Event::Built(endpoint)) => built(model.dial, batch, endpoint),
        (Phase::Sending(change, rest), Event::Sent(delivered)) => sent(
            model.dial,
            change,
            rest,
            delivered,
        ),
        _ => quiet(model.dial, model.phase),
    }
}

/// `event` is an answer that has an address in it.
pub open spec fn answers(event: Event) -> bool {
    event matches Event::Answered(Some(set)) && !set.is_empty()
}

/// The run after `event`.
pub open spec fn advance(run: Run, event: Event) -> Run {
    let step = next_step(run.step.model, event);
    let delivered = event == Event::Sent(true) && run.step.send is Some;
    Run {
        step,
        held: if delivered {
            taken(run.held, run.step.send->0)
        } else {
            run.held
        },
        taken: if delivered {
            run.taken.push(run.step.send->0)
        } else {
            run.taken
        },
        gauge: match step.report {
            Some(never_resolved) => never_resolved,
            None => run.gauge,
        },
        given: run.given || (delivered && run.step.send->0 is Insert),
        resolved: match event {
            Event::Answered(Some(set)) if answers(event) => set,
            _ => run.resolved,
        },
        failed: match (event, run.phase()) {
            (Event::Built(None), Phase::Building(batch)) => run.failed.insert(batch.left[0]),
            _ => if answers(event) {
                Set::empty()
            } else {
                run.failed
            },
        },
        before: if answers(event) {
            run.current()
        } else {
            run.before
        },
    }
}

/// The run after all of `events`, the first one first.
pub open spec fn after(run: Run, events: Seq<Event>) -> Run
    decreases events.len(),
{
    if events.len() == 0 {
        run
    } else {
        advance(after(run, events.drop_last()), events.last())
    }
}

/// Each of `events` is one that the loop waits for when it happens.
pub open spec fn fitting(run: Run, events: Seq<Event>) -> bool
    decreases events.len(),
{
    events.len() > 0 ==> fitting(run, events.drop_last()) && fits(
        after(run, events.drop_last()).phase(),
        events.last(),
    )
}

/// The changes can be applied one after another: what is put in is an address that is
/// absent, what is taken out is there, and no peer occurs twice.
spec fn applicable(held: Set<Peer>, changes: Seq<Change<Peer, ()>>) -> bool {
    &&& forall|i: int|
        0 <= i < changes.len() ==> match #[trigger] changes[i] {
            Change::Insert(peer, _) => peer is Address && !held.contains(peer),
            Change::Remove(peer) => held.contains(peer),
        }
    &&& forall|i: int, j: int|
        0 <= i < j < changes.len() ==> peer_of(changes[i]) != peer_of(changes[j])
}

spec fn peer_of(change: Change<Peer, ()>) -> Peer {
    match change {
        Change::Insert(peer, _) => peer,
        Change::Remove(peer) => peer,
    }
}

/// The changes, whatever serves the peers.
spec fn bare(changes: Seq<Change<Peer, Endpoint>>) -> Seq<Change<Peer, ()>> {
    changes.map_values(|change: Change<Peer, Endpoint>| stripped(change))
}

/// The change that is sent, and those that follow.
spec fn pending(change: Change<Peer, ()>, rest: Seq<Change<Peer, Endpoint>>) -> Seq<
    Change<Peer, ()>,
> {
    seq![change] + bare(rest)
}

/// The name goes last.
spec fn name_last(changes: Seq<Change<Peer, ()>>) -> bool {
    forall|i: int|
        0 <= i < changes.len() && #[trigger] changes[i] == Change::<Peer, ()>::Remove(
            Peer::Unresolved,
        ) ==> i == changes.len() - 1
}

/// What the balancer holds at the end of a tick that changes something.
spec fn served(run: Run) -> Set<Peer> {
    peers_of(DialView { current: run.usable(), seeded: false, ..run.dial() })
}

/// The insertions of a batch are of these addresses.
spec fn made_addresses(made: Seq<Change<Peer, Endpoint>>) -> Seq<SocketAddr> {
    made.map_values(
        |change: Change<Peer, Endpoint>|
            match change {
                Change::Insert(Peer::Address(address), _) => address,
                _ => arbitrary(),
            },
    )
}

/// A batch accounts for every address of the answer and of the balancer.
spec fn accounts(run: Run, batch: Batch) -> bool {
    &&& !run.resolved.is_empty()
    &&& run.before == run.current()
    &&& batch.gone.no_duplicates()
    &&& batch.gone.to_set() == run.current().difference(run.resolved)
    &&& (made_addresses(batch.made) + batch.left).no_duplicates()
    &&& forall|i: int|
        0 <= i < batch.made.len() ==> (#[trigger] batch.made[i] matches Change::Insert(peer, _)
            && peer is Address)
    &&& (made_addresses(batch.made) + batch.left).to_set() == run.usable().difference(
        run.current(),
    )
}

/// What holds in every state, whatever the phase.
spec fn holds(run: Run) -> bool {
    &&& run.current().finite()
    &&& run.resolved.finite()
    &&& run.held == peers_of(run.dial())
    &&& run.before.disjoint(run.failed)
    &&& !run.current().is_empty() ==> run.given
}

/// What holds between two ticks.
spec fn rests(run: Run) -> bool {
    &&& run.gauge == run.current().is_empty()
    &&& run.given == !run.current().is_empty()
    &&& run.current() == if run.usable().is_empty() {
        run.before
    } else {
        run.usable()
    }
    &&& run.step.send is None
}

/// What holds in every state of a run.
spec fn sound(run: Run) -> bool {
    &&& holds(run)
    &&& match run.phase() {
        Phase::Asleep => rests(run),
        Phase::Resolving => rests(run),
        Phase::Building(batch) => {
            &&& accounts(run, batch)
            &&& batch.left.len() > 0
            &&& run.gauge == run.current().is_empty()
            &&& run.given == !run.current().is_empty()
            &&& run.step.send is None
        },
        Phase::Sending(change, rest) => {
            &&& applicable(run.held, pending(change, rest))
            &&& name_last(pending(change, rest))
            &&& all_taken(run.held, pending(change, rest)) == served(run)
            &&& !run.usable().is_empty()
            &&& run.step.send is Some
            &&& stripped(run.step.send->0) == change
        },
        Phase::Ended => !run.gauge && run.step.send is None,
    }
}

proof fn lemma_start(dial: DialView)
    requires
        dial.current.finite(),
    ensures
        sound(start(dial)),
{
    let run = start(dial);
    assert(run.usable() =~= run.resolved);
    if run.usable().is_empty() {
        assert(run.current() =~= run.usable());
    }
}

/// What the balancer holds after changes that can be applied.
proof fn lemma_all_taken(held: Set<Peer>, changes: Seq<Change<Peer, ()>>, peer: Peer)
    requires
        applicable(held, changes),
    ensures
        all_taken(held, changes).contains(peer) <==> changes.contains(Change::Insert(peer, ()))
            || (held.contains(peer) && !changes.contains(Change::Remove(peer))),
    decreases changes.len(),
{
    let insert = Change::<Peer, ()>::Insert(peer, ());
    let remove = Change::<Peer, ()>::Remove(peer);
    if changes.len() > 0 {
        let rest = changes.drop_first();
        let next = taken(held, changes[0]);
        lemma_rest_applicable(held, changes);
        lemma_all_taken(next, rest, peer);
        assert forall|change: Change<Peer, ()>| changes.contains(change) <==> change == changes[0]
            || rest.contains(change) by {
            if changes.contains(change) {
                let i = choose|i: int| 0 <= i < changes.len() && changes[i] == change;
                if i > 0 {
                    assert(rest[i - 1] == change);
                }
            }
            if rest.contains(change) {
                let i = choose|i: int| 0 <= i < rest.len() && rest[i] == change;
                assert(changes[i + 1] == change);
            }
        }
        if rest.contains(insert) {
            let i = choose|i: int| 0 <= i < rest.len() && rest[i] == insert;
            assert(rest[i] == changes[i + 1]);
            assert(peer_of(changes[0]) != peer_of(changes[i + 1]));
        }
        if rest.contains(remove) {
            let i = choose|i: int| 0 <= i < rest.len() && rest[i] == remove;
            assert(rest[i] == changes[i + 1]);
            assert(peer_of(changes[0]) != peer_of(changes[i + 1]));
        }
        match changes[0] {
            Change::Insert(first, unit) => {
                assert(unit == ());
            },
            Change::Remove(first) => {},
        }
    }
}

proof fn lemma_rest_applicable(held: Set<Peer>, changes: Seq<Change<Peer, ()>>)
    requires
        applicable(held, changes),
        changes.len() > 0,
    ensures
        applicable(taken(held, changes[0]), changes.drop_first()),
{
    let rest = changes.drop_first();
    let next = taken(held, changes[0]);
    assert forall|i: int| 0 <= i < rest.len() implies match #[trigger] rest[i] {
        Change::Insert(peer, _) => peer is Address && !next.contains(peer),
        Change::Remove(peer) => next.contains(peer),
    } by {
        assert(rest[i] == changes[i + 1]);
        assert(peer_of(changes[0]) != peer_of(changes[i + 1]));
    }
    assert forall|i: int, j: int| 0 <= i < j < rest.len() implies peer_of(rest[i]) != peer_of(
        rest[j],
    ) by {
        assert(rest[i] == changes[i + 1]);
        assert(rest[j] == changes[j + 1]);
    }
}

/// Going on with what is left to send keeps the invariant.
proof fn lemma_deliver(run: Run, changes: Seq<Change<Peer, Endpoint>>)
    requires
        holds(run),
        run.step == deliver(run.dial(), changes),
        applicable(run.held, bare(changes)),
        name_last(bare(changes)),
        all_taken(run.held, bare(changes)) == served(run),
        !run.usable().is_empty(),
        run.step.report matches Some(never_resolved) ==> run.gauge == never_resolved,
    ensures
        sound(run),
        run.phase() is Asleep ==> !run.dial().seeded && !run.current().is_empty(),
{
    if changes.len() == 0 {
        assert forall|a: SocketAddr| run.current().contains(a) == run.usable().contains(a) by {
            assert(run.held.contains(Peer::Address(a)) == served(run).contains(Peer::Address(a)));
        }
        assert(run.current() =~= run.usable());
        assert(!served(run).contains(Peer::Unresolved));
    } else {
        assert(pending(stripped(changes[0]), changes.drop_first()) =~= bare(changes));
    }
}

/// The addresses that a batch with every endpoint built leaves are the usable ones.
proof fn lemma_leaves_nothing(run: Run, batch: Batch)
    requires
        holds(run),
        accounts(run, batch),
        batch.left.len() == 0,
    ensures
        leaves_nothing(run.dial(), batch) <==> run.usable().is_empty(),
{
    let new = made_addresses(batch.made) + batch.left;
    assert(new == made_addresses(batch.made));
    if leaves_nothing(run.dial(), batch) {
        assert forall|a: SocketAddr| !run.usable().contains(a) by {
            if run.usable().contains(a) {
                if run.current().contains(a) {
                    assert(batch.gone.to_set().contains(a));
                } else {
                    assert(new.to_set().contains(a));
                }
            }
        }
    } else if batch.made.len() > 0 {
        assert(new.to_set().contains(new[0]));
        assert(run.usable().contains(new[0]));
    } else {
        let a = choose|a: SocketAddr| run.current().contains(a) && !batch.gone.to_set().contains(a);
        assert(run.current().contains(a) && !batch.gone.to_set().contains(a));
        assert(run.usable().contains(a));
    }
}

/// What is sent for a batch can be applied, and leads to the usable addresses.
proof fn lemma_plan(run: Run, batch: Batch)
    requires
        holds(run),
        accounts(run, batch),
        batch.left.len() == 0,
    ensures
        applicable(run.held, bare(plan(run.dial(), batch))),
        name_last(bare(plan(run.dial(), batch))),
        all_taken(run.held, bare(plan(run.dial(), batch))) == served(run),
{
    let changes = plan(run.dial(), batch);
    let all = bare(changes);
    let out = batch.gone.len() as int;
    let new = made_addresses(batch.made) + batch.left;
    assert(new == made_addresses(batch.made));
    assert forall|i: int| 0 <= i < out implies #[trigger] all[i] == Change::<Peer, ()>::Remove(
        Peer::Address(batch.gone[i]),
    ) by {}
    assert forall|i: int| out <= i < out + new.len() implies #[trigger] all[i] == Change::<
        Peer,
        (),
    >::Insert(Peer::Address(new[i - out]), ()) by {
        assert(changes[i] == batch.made[i - out]);
    }
    assert forall|i: int| out + new.len() <= i < all.len() implies #[trigger] all[i] == Change::<
        Peer,
        (),
    >::Remove(Peer::Unresolved) && run.dial().seeded && i == out + new.len() by {}
    assert forall|i: int| 0 <= i < all.len() implies match #[trigger] all[i] {
        Change::Insert(peer, _) => peer is Address && !run.held.contains(peer),
        Change::Remove(peer) => run.held.contains(peer),
    } by {
        if i < out {
            assert(batch.gone.to_set().contains(batch.gone[i]));
        } else if i < out + new.len() {
            assert(new.to_set().contains(new[i - out]));
        }
    }
    assert forall|i: int, j: int| 0 <= i < j < all.len() implies peer_of(all[i]) != peer_of(
        all[j],
    ) by {
        if j < out {
        } else if j < out + new.len() {
            assert(new.to_set().contains(new[j - out]));
            if i < out {
                assert(batch.gone.to_set().contains(batch.gone[i]));
            } else {
                assert(new[i - out] != new[j - out]);
            }
        }
    }
    assert forall|peer: Peer| all_taken(run.held, all).contains(peer) == served(run).contains(
        peer,
    ) by {
        lemma_all_taken(run.held, all, peer);
        match peer {
            Peer::Unresolved => {
                if run.dial().seeded {
                    assert(all[out + new.len()] == Change::<Peer, ()>::Remove(Peer::Unresolved));
                }
            },
            Peer::Address(a) => {
                assert(run.held.contains(peer) == run.current().contains(a));
                if batch.gone.to_set().contains(a) {
                    let i = choose|i: int| 0 <= i < batch.gone.len() && batch.gone[i] == a;
                    assert(all[i] == Change::<Peer, ()>::Remove(peer));
                }
                if new.to_set().contains(a) {
                    let i = choose|i: int| 0 <= i < new.len() && new[i] == a;
                    assert(all[out + i] == Change::<Peer, ()>::Insert(peer, ()));
                }
                if all.contains(Change::Remove(peer)) {
                    let i = choose|i: int|
                        0 <= i < all.len() && all[i] == Change::<Peer, ()>::Remove(peer);
                    assert(i < out);
                    assert(batch.gone.to_set().contains(batch.gone[i]));
                }
                if all.contains(Change::Insert(peer, ())) {
                    let i = choose|i: int|
                        0 <= i < all.len() && all[i] == Change::<Peer, ()>::Insert(peer, ());
                    assert(out <= i < out + new.len());
                    assert(new.to_set().contains(new[i - out]));
                }
            },
        }
    }
    assert(all_taken(run.held, all) =~= served(run));
}

/// Going on with a batch keeps the invariant.
proof fn lemma_gather(run: Run, batch: Batch)
    requires
        holds(run),
        accounts(run, batch),
        run.step == gather(run.dial(), batch),
        run.gauge == run.current().is_empty(),
        run.given == !run.current().is_empty(),
    ensures
        sound(run),
{
    if batch.left.len() == 0 {
        lemma_leaves_nothing(run, batch);
        if !leaves_nothing(run.dial(), batch) {
            lemma_plan(run, batch);
            lemma_deliver(run, plan(run.dial(), batch));
        }
    }
}

/// The batch that an answer begins with accounts for everything.
proof fn lemma_batch(run: Run, batch: Batch)
    requires
        holds(run),
        !run.resolved.is_empty(),
        run.before == run.current(),
        run.failed.is_empty(),
        batch.gone == removed_in(changes_between(run.current(), run.resolved)),
        batch.made.len() == 0,
        batch.left == inserted_in(changes_between(run.current(), run.resolved)),
    ensures
        accounts(run, batch),
{
    the_changes_are_two_differences(run.current(), run.resolved);
    lemma_ascending_exists(run.current().difference(run.resolved));
    lemma_ascending_exists(run.resolved.difference(run.current()));
    assert(run.usable() =~= run.resolved);
    assert(made_addresses(batch.made) + batch.left =~= batch.left);
    assert forall|i: int, j: int| 0 <= i < j < batch.gone.len() implies batch.gone[i]
        != batch.gone[j] by {
        assert(batch.gone[i].before(batch.gone[j]));
    }
    assert forall|i: int, j: int| 0 <= i < j < batch.left.len() implies batch.left[i]
        != batch.left[j] by {
        assert(batch.left[i].before(batch.left[j]));
    }
}

proof fn lemma_answered(run: Run, answer: Option<Set<SocketAddr>>)
    requires
        sound(run),
        fits(run.phase(), Event::Answered(answer)),
    ensures
        sound(advance(run, Event::Answered(answer))),
{
    let next = advance(run, Event::Answered(answer));
    if let Some(resolved) = answer {
        if !resolved.is_empty() {
            assert(next.usable() =~= resolved);
            if resolved != run.current() {
                let batch = Batch {
                    gone: removed_in(changes_between(run.current(), resolved)),
                    made: Seq::empty(),
                    left: inserted_in(changes_between(run.current(), resolved)),
                };
                assert(next.step == gather(run.dial(), batch));
                assert(next.dial() == run.dial());
                lemma_batch(next, batch);
                lemma_gather(next, batch);
            }
        }
    }
}

proof fn lemma_built(run: Run, endpoint: Option<Endpoint>)
    requires
        sound(run),
        fits(run.phase(), Event::Built(endpoint)),
    ensures
        sound(advance(run, Event::Built(endpoint))),
{
    let next = advance(run, Event::Built(endpoint));
    if let Phase::Building(batch) = run.phase() {
        let address = batch.left[0];
        let all = made_addresses(batch.made) + batch.left;
        let at = batch.made.len() as int;
        assert(all[at] == address);
        assert(all.to_set().contains(address));
        let rest = batch.left.drop_first();
        match endpoint {
            Some(endpoint) => {
                let made = batch.made.push(Change::Insert(Peer::Address(address), endpoint));
                assert(made_addresses(made) + rest =~= all);
                lemma_gather(next, Batch { made, left: rest, ..batch });
            },
            None => {
                let others = made_addresses(batch.made) + rest;
                assert(others =~= all.remove(at));
                assert forall|a: SocketAddr| others.to_set().contains(a) == (all.to_set().contains(
                    a,
                ) && a != address) by {
                    if others.contains(a) {
                        let i = choose|i: int| 0 <= i < others.len() && others[i] == a;
                        if i < at {
                            assert(all[i] == a);
                        } else {
                            assert(all[i + 1] == a);
                        }
                    }
                    if all.contains(a) && a != address {
                        let i = choose|i: int| 0 <= i < all.len() && all[i] == a;
                        if i < at {
                            assert(others[i] == a);
                        } else {
                            assert(others[i - 1] == a);
                        }
                    }
                }
                assert(others.no_duplicates());
                assert(others.to_set() =~= next.usable().difference(next.current()));
                lemma_gather(next, Batch { left: rest, ..batch });
            },
        }
    }
}

proof fn lemma_sent(run: Run, delivered: bool)
    requires
        sound(run),
        fits(run.phase(), Event::Sent(delivered)),
    ensures
        sound(advance(run, Event::Sent(delivered))),
        delivered && advance(run, Event::Sent(delivered)).phase() is Asleep ==> !advance(
            run,
            Event::Sent(delivered),
        ).dial().seeded && !advance(run, Event::Sent(delivered)).current().is_empty(),
{
    let next = advance(run, Event::Sent(delivered));
    if let Phase::Sending(change, rest) = run.phase() {
        if delivered {
            let changes = pending(change, rest);
            assert(changes[0] == change);
            assert(changes.drop_first() =~= bare(rest));
            assert(next.dial() == handed(run.dial(), change));
            assert(next.held =~= peers_of(next.dial()));
            lemma_rest_applicable(run.held, changes);
            assert(next.held == taken(run.held, change));
            match change {
                Change::Insert(peer, _) => {
                    assert(peer is Address);
                },
                Change::Remove(peer) => {
                    if let Peer::Address(address) = peer {
                        assert(run.current().contains(address));
                    }
                },
            }
            assert(served(next) =~= served(run));
            assert(name_last(bare(rest))) by {
                assert forall|i: int|
                    0 <= i < rest.len() && #[trigger] bare(rest)[i] == Change::<Peer, ()>::Remove(
                        Peer::Unresolved,
                    ) implies i == rest.len() - 1 by {
                    assert(changes[i + 1] == bare(rest)[i]);
                }
            }
            lemma_deliver(next, rest);
        } else {
            assert(next.dial() == run.dial());
        }
    }
}

proof fn lemma_advance(run: Run, event: Event)
    requires
        sound(run),
        fits(run.phase(), event),
    ensures
        sound(advance(run, event)),
{
    match event {
        Event::Woke(_) => {},
        Event::Answered(answer) => {
            lemma_answered(run, answer);
        },
        Event::Built(endpoint) => {
            lemma_built(run, endpoint);
        },
        Event::Sent(delivered) => {
            lemma_sent(run, delivered);
        },
    }
}

proof fn lemma_after(dial: DialView, events: Seq<Event>)
    requires
        dial.current.finite(),
        fitting(start(dial), events),
    ensures
        sound(after(start(dial), events)),
    decreases events.len(),
{
    if events.len() == 0 {
        lemma_start(dial);
    } else {
        lemma_after(dial, events.drop_last());
        lemma_advance(after(start(dial), events.drop_last()), events.last());
    }
}

proof fn lemma_prefix(run: Run, events: Seq<Event>, n: int)
    requires
        fitting(run, events),
        0 <= n <= events.len(),
    ensures
        fitting(run, events.take(n)),
    decreases events.len(),
{
    if n == events.len() {
        assert(events.take(n) == events);
    } else {
        lemma_prefix(run, events.drop_last(), n);
        assert(events.drop_last().take(n) == events.take(n));
    }
}

/// Where no change is under way, the dial is as it was started, or it has an address
/// and not the name.
proof fn lemma_quiet(dial: DialView, events: Seq<Event>)
    requires
        dial.current.finite(),
        fitting(start(dial), events),
    ensures
        ({
            let run = after(start(dial), events);
            run.settled() || run.phase() is Building ==> run.dial() == dial || (
            !run.dial().seeded && !run.current().is_empty())
        }),
    decreases events.len(),
{
    if events.len() > 0 {
        let before = after(start(dial), events.drop_last());
        lemma_quiet(dial, events.drop_last());
        lemma_after(dial, events.drop_last());
        if let Event::Sent(delivered) = events.last() {
            lemma_sent(before, delivered);
        }
    }
}

/// The balancer holds exactly the peers that the dial accounts for: the addresses
/// it has handed over, and the name while it is seeded.
pub proof fn the_balancer_holds_what_it_was_given(dial: DialView, events: Seq<Event>)
    requires
        dial.current.finite(),
        fitting(start(dial), events),
    ensures
        after(start(dial), events).held == peers_of(after(start(dial), events).dial()),
{
    lemma_after(dial, events);
}

/// Between two ticks, the addresses are those of the last answer that had any, less
/// those whose endpoint could not be built. Where nothing is left of the answer, they
/// are what they were before it.
pub proof fn a_settled_dial_has_what_is_usable(dial: DialView, events: Seq<Event>)
    requires
        dial.current.finite(),
        fitting(start(dial), events),
        after(start(dial), events).settled(),
    ensures
        after(start(dial), events).current() == if after(
            start(dial),
            events,
        ).usable().is_empty() {
            after(start(dial), events).before
        } else {
            after(start(dial), events).usable()
        },
{
    lemma_after(dial, events);
}

/// An address whose endpoint could not be built is not recorded, and is offered again
/// by the next answer that has it.
pub proof fn a_failed_address_is_offered_again(
    dial: DialView,
    events: Seq<Event>,
    address: SocketAddr,
    answer: Set<SocketAddr>,
)
    requires
        dial.current.finite(),
        fitting(start(dial), events),
        after(start(dial), events).settled(),
        after(start(dial), events).failed.contains(address),
        answer.finite(),
        answer.contains(address),
    ensures
        !after(start(dial), events).current().contains(address),
        changes_between(after(start(dial), events).current(), answer).contains(
            Change::Insert(address, ()),
        ),
{
    lemma_after(dial, events);
    let run = after(start(dial), events);
    changes_are_the_difference(run.current(), answer, Change::Insert(address, ()));
}

/// Between two ticks the gauge says whether the dial has no address.
pub proof fn the_gauge_says_that_there_is_no_address(dial: DialView, events: Seq<Event>)
    requires
        dial.current.finite(),
        fitting(start(dial), events),
        after(start(dial), events).settled(),
    ensures
        after(start(dial), events).gauge == after(start(dial), events).current().is_empty(),
{
    lemma_after(dial, events);
}

/// Between two ticks the gauge is 1 exactly where the balancer has never been given an
/// address.
pub proof fn the_gauge_says_that_no_address_was_ever_given(dial: DialView, events: Seq<Event>)
    requires
        dial.current.finite(),
        fitting(start(dial), events),
        after(start(dial), events).settled(),
    ensures
        after(start(dial), events).gauge == !after(start(dial), events).given,
{
    lemma_after(dial, events);
}

/// Once the loop has ended, the gauge is 0: nothing dials the upstream any more.
pub proof fn an_ended_dial_is_no_absence(dial: DialView, events: Seq<Event>)
    requires
        dial.current.finite(),
        fitting(start(dial), events),
        after(start(dial), events).phase() is Ended,
    ensures
        !after(start(dial), events).gauge,
{
    lemma_after(dial, events);
}

/// What is reported of a tick without addresses agrees with the gauge.
pub proof fn the_report_agrees_with_the_gauge(dial: DialView, events: Seq<Event>)
    requires
        dial.current.finite(),
        fitting(start(dial), events),
        after(start(dial), events).step.absent is Some,
    ensures
        after(start(dial), events).step.absent == Some(Absence::NeverResolved)
            <==> after(start(dial), events).gauge,
{
    lemma_after(dial, events);
    if events.len() > 0 {
        lemma_after(dial, events.drop_last());
    }
}

/// A balancer that holds something at the start holds something between any two ticks:
/// one without a peer would leave every request waiting.
pub proof fn the_balancer_is_not_left_empty(dial: DialView, events: Seq<Event>)
    requires
        dial.current.finite(),
        fitting(start(dial), events),
        after(start(dial), events).settled(),
        !start(dial).held.is_empty(),
    ensures
        !after(start(dial), events).held.is_empty(),
{
    lemma_after(dial, events);
    lemma_quiet(dial, events);
    let run = after(start(dial), events);
    if run.dial() == dial {
        assert(run.held == start(dial).held);
    } else {
        let address = choose|a: SocketAddr| run.current().contains(a);
        assert(run.current().contains(address));
        assert(run.held.contains(Peer::Address(address)));
    }
}

/// Until the name is withdrawn the balancer holds it, at every moment of every tick,
/// whatever can be built and whatever the resolver says.
pub proof fn the_name_serves_until_it_is_withdrawn(dial: DialView, events: Seq<Event>)
    requires
        dial.current.finite(),
        fitting(start(dial), events),
        after(start(dial), events).dial().seeded,
    ensures
        after(start(dial), events).held.contains(Peer::Unresolved),
{
    lemma_after(dial, events);
}

/// The withdrawal of the name leaves the balancer with an address.
pub proof fn the_withdrawal_leaves_an_address(dial: DialView, events: Seq<Event>)
    requires
        dial.current.finite(),
        fitting(start(dial), events),
        after(start(dial), events).step.send == Some(
            Change::<Peer, Endpoint>::Remove(Peer::Unresolved),
        ),
    ensures
        exists|address: SocketAddr|
            #[trigger] advance(after(start(dial), events), Event::Sent(true)).held.contains(
                Peer::Address(address),
            ),
        !advance(after(start(dial), events), Event::Sent(true)).held.contains(Peer::Unresolved),
{
    lemma_after(dial, events);
    let run = after(start(dial), events);
    if let Phase::Sending(change, rest) = run.phase() {
        let changes = pending(change, rest);
        assert(changes[0] == change);
        assert(changes.drop_first() =~= bare(rest));
        assert(rest.len() == 0);
        let next = advance(run, Event::Sent(true));
        assert(all_taken(taken(run.held, change), changes.drop_first()) == next.held);
        assert(next.held == served(run));
        let address = choose|a: SocketAddr| run.usable().contains(a);
        assert(run.usable().contains(address));
        assert(next.held.contains(Peer::Address(address)));
    }
}

/// Between two ticks, a balancer that holds an address does not hold the name, unless
/// it was started with both.
pub proof fn the_name_goes_once_an_address_is_in(
    dial: DialView,
    events: Seq<Event>,
    address: SocketAddr,
)
    requires
        dial.current.finite(),
        dial.seeded ==> dial.current.is_empty(),
        fitting(start(dial), events),
        after(start(dial), events).settled(),
        after(start(dial), events).held.contains(Peer::Address(address)),
    ensures
        !after(start(dial), events).held.contains(Peer::Unresolved),
{
    lemma_after(dial, events);
    lemma_quiet(dial, events);
    assert(after(start(dial), events).current().contains(address));
}

/// A name that was withdrawn, or that was never needed, does not come back.
pub proof fn the_name_does_not_come_back(dial: DialView, events: Seq<Event>, n: int)
    requires
        dial.current.finite(),
        fitting(start(dial), events),
        0 <= n <= events.len(),
        !after(start(dial), events.take(n)).held.contains(Peer::Unresolved),
    ensures
        !after(start(dial), events).held.contains(Peer::Unresolved),
    decreases events.len() - n,
{
    if n == events.len() {
        assert(events.take(n) == events);
    } else {
        let before = events.take(n);
        lemma_prefix(start(dial), events, n);
        assert(events.take(n + 1).drop_last() == before);
        lemma_after(dial, before);
        let run = after(start(dial), before);
        if let Phase::Sending(change, rest) = run.phase() {
            assert(pending(change, rest)[0] == change);
        }
        the_name_does_not_come_back(dial, events, n + 1);
    }
}

/// An address that was ever given was given from then on.
proof fn lemma_given(dial: DialView, events: Seq<Event>, n: int)
    requires
        0 <= n <= events.len(),
        after(start(dial), events.take(n)).given,
    ensures
        after(start(dial), events).given,
    decreases events.len() - n,
{
    if n == events.len() {
        assert(events.take(n) == events);
    } else {
        assert(events.take(n + 1).drop_last() == events.take(n));
        lemma_given(dial, events, n + 1);
    }
}

/// A dial that has ever had an address has one between any two later ticks.
pub proof fn a_dial_that_resolved_stays_resolved(dial: DialView, events: Seq<Event>, n: int)
    requires
        dial.current.finite(),
        fitting(start(dial), events),
        0 <= n <= events.len(),
        !after(start(dial), events.take(n)).current().is_empty(),
        after(start(dial), events).settled(),
    ensures
        !after(start(dial), events).current().is_empty(),
        !after(start(dial), events).gauge,
{
    lemma_prefix(start(dial), events, n);
    lemma_after(dial, events.take(n));
    lemma_given(dial, events, n);
    lemma_after(dial, events);
}

/// What is sent changes something: a peer that is inserted is one that the balancer
/// lacks, and never the name; a peer that is removed is one that it holds.
pub proof fn every_change_changes_something(dial: DialView, events: Seq<Event>)
    requires
        dial.current.finite(),
        fitting(start(dial), events),
        after(start(dial), events).step.send is Some,
    ensures
        match after(start(dial), events).step.send->0 {
            Change::Insert(peer, _) => peer is Address && !after(
                start(dial),
                events,
            ).held.contains(peer),
            Change::Remove(peer) => after(start(dial), events).held.contains(peer),
        },
{
    lemma_after(dial, events);
    let run = after(start(dial), events);
    if let Phase::Sending(change, rest) = run.phase() {
        assert(pending(change, rest)[0] == change);
    }
}

/// An answer of which nothing can be dialled, and which has none of the addresses that
/// the balancer has, changes nothing: nothing is sent, and the addresses are kept.
pub proof fn a_batch_that_leaves_nothing_is_dropped(dial: DialView, batch: Batch)
    requires
        batch.left.len() == 0,
        leaves_nothing(dial, batch),
    ensures
        gather(dial, batch).model == (Model { dial, phase: Phase::Asleep }),
        gather(dial, batch).send is None,
        gather(dial, batch).report == Some(dial.current.is_empty()),
{
}

/// Nothing is sent while an endpoint is still to be built.
pub proof fn everything_is_built_before_anything_is_sent(dial: DialView, batch: Batch)
    requires
        batch.left.len() > 0,
    ensures
        gather(dial, batch) == quiet(dial, Phase::Building(batch)),
{
}

/// A failed resolution and an answer without addresses change nothing: the loop
/// sends nothing, keeps its addresses, sleeps again, and reports the absence.
pub proof fn no_addresses_change_nothing(dial: DialView, answer: Option<Set<SocketAddr>>)
    requires
        answer matches Some(set) ==> set.is_empty(),
    ensures
        answered(dial, answer).model == (Model { dial, phase: Phase::Asleep }),
        answered(dial, answer).send is None,
        answered(dial, answer).absent is Some,
{
}

/// An answer with the addresses that the dial has already sends nothing, and is no
/// absence.
pub proof fn a_stable_answer_sends_nothing(dial: DialView)
    requires
        !dial.current.is_empty(),
    ensures
        answered(dial, Some(dial.current)).model == (Model { dial, phase: Phase::Asleep }),
        answered(dial, Some(dial.current)).send is None,
        answered(dial, Some(dial.current)).absent is None,
{
}

/// A channel that is gone ends the loop at the next tick, before anything is
/// resolved, and so does a change that cannot be delivered.
pub proof fn a_dropped_channel_ends_the_loop(run: Run, event: Event)
    requires
        fits(run.phase(), event),
        event == Event::Woke(true) || event == Event::Sent(false),
    ensures
        advance(run, event).phase() is Ended,
        !advance(run, event).gauge,
        advance(run, event).held == run.held,
{
}

/// Only a channel that is gone ends the loop.
pub proof fn only_a_dropped_channel_ends_the_loop(run: Run, event: Event)
    requires
        fits(run.phase(), event),
        advance(run, event).phase() is Ended,
    ensures
        event == Event::Woke(true) || event == Event::Sent(false),
{
}

/// The gauge is written on every tick, before anything else.
pub proof fn every_tick_writes_the_gauge(dial: DialView, closed: bool)
    ensures
        woke(dial, closed).report == Some(!closed && dial.current.is_empty()),
{
}

/// A loop that wakes and finds its channel open waits for a resolution next, whatever
/// it holds; the dial and the balancer are unchanged.
pub proof fn a_loop_that_wakes_resolves(run: Run)
    requires
        run.phase() is Asleep,
    ensures
        advance(run, Event::Woke(false)).phase() is Resolving,
        advance(run, Event::Woke(false)).dial() == run.dial(),
        advance(run, Event::Woke(false)).held == run.held,
        advance(run, Event::Woke(false)).step.send is None,
        advance(run, Event::Woke(false)).gauge == run.current().is_empty(),
{
}

/// A dial keeps its target, whatever happens to it.
pub proof fn a_dial_keeps_its_target(dial: DialView, events: Seq<Event>)
    ensures
        after(start(dial), events).dial().target == dial.target,
    decreases events.len(),
{
    if events.len() > 0 {
        a_dial_keeps_its_target(dial, events.drop_last());
    }
}

/// The addresses of a dial change only with a change that was taken, and only in the
/// peer of that change.
pub proof fn only_a_change_that_was_taken_is_recorded(run: Run, event: Event, address: SocketAddr)
    requires
        fits(run.phase(), event),
        advance(run, event).current().contains(address) != run.current().contains(address),
    ensures
        event == Event::Sent(true),
        run.phase() matches Phase::Sending(change, _) && (change matches Change::Insert(peer, _)
            ==> peer == Peer::Address(address) && !run.current().contains(address)) && (
        change matches Change::Remove(peer) ==> peer == Peer::Address(address)
            && run.current().contains(address)),
{
}

/// `endpoints` put into a balancer for `addresses`, in their order.
pub open spec fn put_in(addresses: Seq<SocketAddr>, endpoints: Seq<Endpoint>) -> Seq<
    Change<Peer, Endpoint>,
> {
    Seq::new(
        addresses.len(),
        |i: int| Change::<Peer, Endpoint>::Insert(Peer::Address(addresses[i]), endpoints[i]),
    )
}

/// Each of `endpoints` is built.
pub open spec fn all_are_built(endpoints: Seq<Endpoint>) -> Seq<Event> {
    endpoints.map_values(|endpoint: Endpoint| Event::Built(Some(endpoint)))
}

/// `n` changes are taken.
pub open spec fn are_delivered(n: nat) -> Seq<Event> {
    Seq::new(n, |i: int| Event::Sent(true))
}

/// What one whole tick sends to a balancer for `resolved`, where every endpoint can be
/// built: the removals and the insertions of the difference in its order, then the
/// removal of the name, where the balancer holds it.
pub open spec fn sent_in_a_tick(
    dial: DialView,
    resolved: Set<SocketAddr>,
    endpoints: Seq<Endpoint>,
) -> Seq<Change<Peer, Endpoint>> {
    taken_out(removed_in(changes_between(dial.current, resolved))) + put_in(
        inserted_in(changes_between(dial.current, resolved)),
        endpoints,
    ) + if dial.seeded {
        seq![Change::<Peer, Endpoint>::Remove(Peer::Unresolved)]
    } else {
        Seq::empty()
    }
}

proof fn lemma_builds(run: Run, gone: Seq<SocketAddr>, left: Seq<SocketAddr>, endpoints: Seq<
    Endpoint,
>, n: int)
    requires
        run.step == gather(run.dial(), Batch { gone, made: Seq::empty(), left }),
        endpoints.len() == left.len(),
        0 <= n <= left.len(),
    ensures
        ({
            let next = after(run, all_are_built(endpoints).take(n));
            &&& fitting(run, all_are_built(endpoints).take(n))
            &&& next == (Run {
                step: gather(
                    run.dial(),
                    Batch { gone, made: put_in(left, endpoints).take(n), left: left.skip(n) },
                ),
                gauge: next.gauge,
                ..run
            })
            &&& next.step.model.dial == run.dial()
        }),
    decreases n,
{
    let events = all_are_built(endpoints);
    if n == 0 {
        assert(events.take(0) == Seq::<Event>::empty());
        assert(put_in(left, endpoints).take(0) == Seq::<Change<Peer, Endpoint>>::empty());
        assert(left.skip(0) == left);
    } else {
        lemma_builds(run, gone, left, endpoints, n - 1);
        let before = after(run, events.take(n - 1));
        assert(events.take(n).drop_last() == events.take(n - 1));
        assert(events.take(n).last() == Event::Built(Some(endpoints[n - 1])));
        assert(left.skip(n - 1)[0] == left[n - 1]);
        assert(left.skip(n - 1).drop_first() == left.skip(n));
        assert(put_in(left, endpoints).take(n) == put_in(left, endpoints).take(n - 1).push(
            put_in(left, endpoints)[n - 1],
        ));
    }
}

proof fn lemma_sends(run: Run, changes: Seq<Change<Peer, Endpoint>>, n: int)
    requires
        run.step == deliver(run.dial(), changes),
        0 <= n <= changes.len(),
    ensures
        ({
            let next = after(run, are_delivered(n as nat));
            &&& fitting(run, are_delivered(n as nat))
            &&& next.step == deliver(next.dial(), changes.skip(n))
            &&& next.taken == run.taken + changes.take(n)
            &&& next.resolved == run.resolved
            &&& next.failed == run.failed
        }),
    decreases n,
{
    if n == 0 {
        assert(changes.skip(0) == changes);
        assert(run.taken + changes.take(0) == run.taken);
    } else {
        lemma_sends(run, changes, n - 1);
        let before = after(run, are_delivered((n - 1) as nat));
        assert(are_delivered(n as nat).drop_last() == are_delivered((n - 1) as nat));
        assert(are_delivered(n as nat).last() == Event::Sent(true));
        assert(changes.skip(n - 1)[0] == changes[n - 1]);
        assert(changes.skip(n - 1).drop_first() == changes.skip(n));
        assert(run.taken + changes.take(n) == (run.taken + changes.take(n - 1)).push(
            changes[n - 1],
        ));
    }
}

proof fn lemma_sound_after(run: Run, events: Seq<Event>)
    requires
        sound(run),
        fitting(run, events),
    ensures
        sound(after(run, events)),
    decreases events.len(),
{
    if events.len() > 0 {
        lemma_sound_after(run, events.drop_last());
        lemma_advance(after(run, events.drop_last()), events.last());
    }
}

/// One whole tick, where every endpoint can be built and every change is taken: the
/// balancer takes the changes of the difference in its order, then loses the name,
/// where it held it, and the addresses are then those of the answer.
pub proof fn a_whole_tick_follows_the_answer(
    dial: DialView,
    events: Seq<Event>,
    resolved: Set<SocketAddr>,
    endpoints: Seq<Endpoint>,
)
    requires
        dial.current.finite(),
        fitting(start(dial), events),
        after(start(dial), events).phase() is Resolving,
        resolved.finite(),
        !resolved.is_empty(),
        resolved != after(start(dial), events).current(),
        endpoints.len() == inserted_in(
            changes_between(after(start(dial), events).current(), resolved),
        ).len(),
    ensures
        ({
            let run = after(start(dial), events);
            let asked = advance(run, Event::Answered(Some(resolved)));
            let built = after(asked, all_are_built(endpoints));
            let sent = sent_in_a_tick(run.dial(), resolved, endpoints);
            let done = after(built, are_delivered(sent.len()));
            &&& fitting(asked, all_are_built(endpoints))
            &&& fitting(built, are_delivered(sent.len()))
            &&& done.phase() is Asleep
            &&& done.taken == run.taken + sent
            &&& done.current() == resolved
            &&& !done.dial().seeded
            &&& !done.gauge
        }),
{
    let run = after(start(dial), events);
    let asked = advance(run, Event::Answered(Some(resolved)));
    let gone = removed_in(changes_between(run.current(), resolved));
    let left = inserted_in(changes_between(run.current(), resolved));
    let sent = sent_in_a_tick(run.dial(), resolved, endpoints);
    lemma_after(dial, events);
    lemma_advance(run, Event::Answered(Some(resolved)));
    assert(asked.dial() == run.dial());
    lemma_builds(asked, gone, left, endpoints, left.len() as int);
    assert(all_are_built(endpoints).take(left.len() as int) == all_are_built(endpoints));
    assert(put_in(left, endpoints).take(left.len() as int) == put_in(left, endpoints));
    assert(left.skip(left.len() as int) == Seq::<SocketAddr>::empty());
    let built = after(asked, all_are_built(endpoints));
    lemma_sound_after(asked, all_are_built(endpoints));
    let batch = Batch { gone, made: put_in(left, endpoints), left: Seq::empty() };
    assert(built.step == gather(run.dial(), batch));
    assert(plan(run.dial(), batch) == sent);
    assert(built.usable() =~= resolved);
    the_changes_are_two_differences(run.current(), resolved);
    lemma_ascending_exists(run.current().difference(resolved));
    lemma_ascending_exists(resolved.difference(run.current()));
    assert(!leaves_nothing(run.dial(), batch)) by {
        let a = choose|a: SocketAddr| resolved.contains(a);
        assert(resolved.contains(a));
        if run.current().contains(a) {
            assert(!gone.to_set().contains(a));
        } else {
            assert(left.to_set().contains(a));
        }
    }
    assert(sent.len() > 0) by {
        if gone.len() == 0 && left.len() == 0 {
            assert forall|a: SocketAddr| resolved.contains(a) == run.current().contains(a) by {
                assert(!gone.to_set().contains(a));
                assert(!left.to_set().contains(a));
            }
            assert(resolved =~= run.current());
        }
    }
    lemma_sends(built, sent, sent.len() as int);
    lemma_sends(built, sent, sent.len() - 1);
    assert(sent.take(sent.len() as int) == sent);
    assert(sent.skip(sent.len() as int) == Seq::<Change<Peer, Endpoint>>::empty());
    let last = after(built, are_delivered((sent.len() - 1) as nat));
    lemma_sound_after(built, are_delivered((sent.len() - 1) as nat));
    assert(are_delivered(sent.len()).drop_last() == are_delivered((sent.len() - 1) as nat));
    lemma_sent(last, true);
    assert(built.taken == run.taken);
    let done = after(built, are_delivered(sent.len()));
    assert(done == advance(last, Event::Sent(true)));
    assert(done.usable() =~= resolved);
}

/// Each endpoint that is built is built for the address that it is asked for, under
/// the target of the dial.
pub open spec fn built_for_the_target(run: Run, events: Seq<Event>) -> bool
    decreases events.len(),
{
    events.len() > 0 ==> built_for_the_target(run, events.drop_last()) && match (
        events.last(),
        after(run, events.drop_last()).phase(),
    ) {
        (Event::Built(Some(endpoint)), Phase::Building(batch)) => address_outcome(
            run.dial().target,
            batch.left[0],
            Ok(endpoint),
        ),
        _ => true,
    }
}

/// An insertion is of an endpoint that was built for its address under `target`.
pub open spec fn belongs(target: Target, change: Change<Peer, Endpoint>) -> bool {
    change matches Change::Insert(Peer::Address(address), endpoint) ==> address_outcome(
        target,
        address,
        Ok(endpoint),
    )
}

spec fn all_belong(run: Run, target: Target) -> bool {
    &&& run.dial().target == target
    &&& run.step.send matches Some(change) ==> belongs(target, change)
    &&& forall|i: int| 0 <= i < run.taken.len() ==> belongs(target, #[trigger] run.taken[i])
    &&& match run.phase() {
        Phase::Building(batch) => forall|i: int|
            0 <= i < batch.made.len() ==> belongs(target, #[trigger] batch.made[i]),
        Phase::Sending(_, rest) => forall|i: int|
            0 <= i < rest.len() ==> belongs(target, #[trigger] rest[i]),
        _ => true,
    }
}

proof fn lemma_belong(dial: DialView, events: Seq<Event>)
    requires
        fitting(start(dial), events),
        built_for_the_target(start(dial), events),
    ensures
        all_belong(after(start(dial), events), dial.target),
    decreases events.len(),
{
    if events.len() > 0 {
        lemma_belong(dial, events.drop_last());
        let run = after(start(dial), events.drop_last());
        let next = after(start(dial), events);
        if let (Phase::Sending(_, rest), Event::Sent(true)) = (run.phase(), events.last()) {
            if rest.len() > 0 {
                assert(belongs(dial.target, rest[0]));
            }
        }
        if let (Phase::Building(batch), Event::Built(endpoint)) = (run.phase(), events.last()) {
            let made = match endpoint {
                Some(endpoint) => batch.made.push(
                    Change::Insert(Peer::Address(batch.left[0]), endpoint),
                ),
                None => batch.made,
            };
            let all = Batch { made, left: batch.left.drop_first(), ..batch };
            let changes = plan(run.dial(), all);
            assert forall|i: int| 0 <= i < changes.len() implies belongs(
                dial.target,
                #[trigger] changes[i],
            ) by {
                if batch.gone.len() <= i < batch.gone.len() + made.len() {
                    assert(changes[i] == made[i - batch.gone.len()]);
                }
            }
        }
    }
}

/// The target of a dial does not change, and every endpoint that the balancer takes, or
/// is about to take, was built for its address under that target.
pub proof fn every_endpoint_belongs_to_the_dial(dial: DialView, events: Seq<Event>)
    requires
        fitting(start(dial), events),
        built_for_the_target(start(dial), events),
    ensures
        after(start(dial), events).dial().target == dial.target,
        after(start(dial), events).step.send matches Some(change) ==> belongs(dial.target, change),
        forall|i: int|
            0 <= i < after(start(dial), events).taken.len() ==> belongs(
                dial.target,
                #[trigger] after(start(dial), events).taken[i],
            ),
{
    lemma_belong(dial, events);
}

} // verus!

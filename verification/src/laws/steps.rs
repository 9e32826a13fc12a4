//! Laws on the single steps of the loop: what each of them asks for next, and what it
//! leaves alone.

use tonic::transport::Endpoint;
use vstd::prelude::*;

use crate::address::{lemma_set_finite, AddressSet, SocketAddr};
use crate::diff::{changes_between, inserted_in, removed_in, Change};
use crate::endpoint::Peer;
use crate::error::BalanceError;
use crate::laws::changes::the_changes_are_two_differences;
use crate::laws::refresh::{next_step, Event};
use crate::laws::texts::{a_set_is_walked_in_order, rank};
use crate::resolve::{
    address_outcome, built, lemma_asleep_finite, lemma_resolving_finite, plan, refresh, woke,
    Absence, Asleep, Batch, Building, Dial, DialView, Model, Next, Phase, Resolving, Sending, Step,
    Target,
};

verus! {

/// The loop of a dial starts with the target, the addresses and the name that it is
/// given.
pub proof fn a_loop_starts_with_what_it_is_given(
    target: Target,
    current: AddressSet,
    seeded: bool,
    asleep: Asleep,
)
    requires
        call_ensures(refresh, (target, current, seeded), asleep),
    ensures
        asleep@.target == target,
        forall|a: SocketAddr| #[trigger] asleep@.current.contains(a) <==> current@.contains(a),
        asleep@.seeded == seeded,
{
}

/// A loop that wakes and finds its channel open waits for a resolution next, whatever
/// it holds, and the dial is unchanged. The gauge says whether it holds no address.
pub proof fn a_loop_that_wakes_asks_for_a_resolution(asleep: Asleep, step: Step)
    requires
        call_ensures(Asleep::woke, (asleep, false), step),
    ensures
        step.next matches Next::Resolve(state) && state@ == asleep@,
        step.report == Some(asleep@.current =~= Set::<SocketAddr>::empty()),
        step.absent is None,
{
}

/// A loop that wakes and finds its channel gone ends, whatever it holds, and reports an
/// absence no longer.
pub proof fn a_loop_that_wakes_without_its_channel_ends(asleep: Asleep, step: Step)
    requires
        call_ensures(Asleep::woke, (asleep, true), step),
    ensures
        step.next matches Next::End(dial) && dial@ == asleep@,
        step.report == Some(false),
        step.absent is None,
{
}

/// For every dial, the phase after waking is the wait for a resolution where the channel
/// is open, and the end where it is gone; the dial is unchanged, and nothing is sent.
pub proof fn waking_leads_to_a_resolution_or_to_the_end(dial: DialView)
    ensures
        woke(dial, false).model == (Model { dial, phase: Phase::Resolving }),
        woke(dial, false).send is None,
        woke(dial, false).absent is None,
        woke(dial, true).model == (Model { dial, phase: Phase::Ended }),
        woke(dial, true).send is None,
        woke(dial, true).absent is None,
        woke(dial, true).report == Some(false),
{
}

/// A resolution that fails, or that answers with no address, sends the loop back to
/// sleep with the dial unchanged; it is reported as an upstream that never resolved
/// exactly where the balancer has no address.
pub proof fn an_answer_without_an_address_changes_nothing(
    resolving: Resolving,
    answer: Option<AddressSet>,
    step: Step,
)
    requires
        call_ensures(Resolving::answered, (resolving, answer), step),
        answer matches Some(set) ==> set@ =~= Set::<SocketAddr>::empty(),
    ensures
        step.next matches Next::Sleep(state) && state@ == resolving@,
        step.report is None,
        step.absent is Some,
        step.absent == Some(Absence::NeverResolved) <==> resolving@.current =~= Set::<
            SocketAddr,
        >::empty(),
{
}

/// An answer with the addresses that the balancer has sends the loop back to sleep, with
/// the dial unchanged and nothing to report.
pub proof fn a_stable_answer_changes_nothing(resolving: Resolving, answer: AddressSet, step: Step)
    requires
        call_ensures(Resolving::answered, (resolving, Some(answer)), step),
        !(answer@ =~= Set::<SocketAddr>::empty()),
        answer@ =~= resolving@.current,
    ensures
        step.next matches Next::Sleep(state) && state@ == resolving@,
        step.report is None,
        step.absent is None,
{
}

/// An answer with a new address asks for an endpoint first, with nothing built and
/// nothing sent yet, and the dial unchanged. What is left to build is what the answer
/// has and the balancer lacks, each once and in the order of the addresses; what is to
/// go is what the balancer has and the answer lacks, in the same way.
pub proof fn a_new_address_is_built_first(
    resolving: Resolving,
    answer: AddressSet,
    new: SocketAddr,
    step: Step,
)
    requires
        call_ensures(Resolving::answered, (resolving, Some(answer)), step),
        answer@.contains(new),
        !resolving@.current.contains(new),
    ensures
        step.next matches Next::Build(state) && {
            &&& state@.dial == resolving@
            &&& state@.batch.made.len() == 0
            &&& forall|a: SocketAddr| #[trigger]
                state@.batch.left.contains(a) <==> answer@.contains(a)
                    && !resolving@.current.contains(a)
            &&& forall|a: SocketAddr| #[trigger]
                state@.batch.gone.contains(a) <==> resolving@.current.contains(a)
                    && !answer@.contains(a)
            &&& forall|i: int, j: int|
                0 <= i < j < state@.batch.left.len() ==> rank(#[trigger] state@.batch.left[i])
                    < rank(#[trigger] state@.batch.left[j])
            &&& forall|i: int, j: int|
                0 <= i < j < state@.batch.gone.len() ==> rank(#[trigger] state@.batch.gone[i])
                    < rank(#[trigger] state@.batch.gone[j])
        },
        step.report is None,
        step.absent is None,
{
    lemma_differences(resolving, answer);
    let left = inserted_in(changes_between(resolving@.current, answer@));
    assert(left.contains(new));
}

/// An answer with fewer addresses and no new one has each of the others taken out, in
/// the order of the addresses, and the name last where the balancer holds it. The dial
/// is unchanged until that is taken.
pub proof fn fewer_addresses_are_taken_out(resolving: Resolving, answer: AddressSet, step: Step)
    requires
        call_ensures(Resolving::answered, (resolving, Some(answer)), step),
        !(answer@ =~= Set::<SocketAddr>::empty()),
        answer@.subset_of(resolving@.current),
        !(answer@ =~= resolving@.current),
    ensures
        step.next matches Next::Send(change, state) && {
            let sent = seq![change] + state@.rest;
            let n: int = if resolving@.seeded {
                sent.len() - 1
            } else {
                sent.len() as int
            };
            &&& state@.dial == resolving@
            &&& change matches Change::Remove(peer) && state@.sent == Change::<Peer, ()>::Remove(
                peer,
            )
            &&& resolving@.seeded ==> sent.last() == Change::<Peer, Endpoint>::Remove(
                Peer::Unresolved,
            )
            &&& forall|i: int|
                0 <= i < n ==> (#[trigger] sent[i] matches Change::Remove(Peer::Address(a))
                    && resolving@.current.contains(a) && !answer@.contains(a))
            &&& forall|a: SocketAddr| #[trigger]
                resolving@.current.contains(a) && !answer@.contains(a) ==> exists|i: int|
                    0 <= i < n && #[trigger] sent[i] == Change::<Peer, Endpoint>::Remove(
                        Peer::Address(a),
                    )
            &&& forall|i: int, j: int|
                0 <= i < j < n ==> rank(#[trigger] sent[i]->Remove_0->Address_0) < rank(
                    #[trigger] sent[j]->Remove_0->Address_0,
                )
        },
        step.report is None,
        step.absent is None,
{
    lemma_differences(resolving, answer);
    let changes = changes_between(resolving@.current, answer@);
    let gone = removed_in(changes);
    let left = inserted_in(changes);
    if left.len() > 0 {
        assert(left.contains(left[0]));
    }
    if forall|a: SocketAddr| #[trigger] resolving@.current.contains(a) ==> answer@.contains(a) {
        assert(answer@ =~= resolving@.current);
    }
    let lost = choose|a: SocketAddr| #[trigger] resolving@.current.contains(a) && !answer@.contains(a);
    assert(gone.contains(lost));
    assert(!resolving@.current.subset_of(gone.to_set())) by {
        let kept = choose|a: SocketAddr| #[trigger] answer@.contains(a);
        assert(answer@.contains(kept)) by {
            if forall|a: SocketAddr| !#[trigger] answer@.contains(a) {
                assert(answer@ =~= Set::empty());
            }
        }
        assert(resolving@.current.contains(kept));
        assert(!gone.contains(kept));
    }
    if let Next::Send(change, state) = step.next {
        let sent = seq![change] + state@.rest;
        let whole = plan(
            resolving@,
            Batch { gone, made: Seq::empty(), left },
        );
        assert(sent =~= whole);
        assert forall|i: int| 0 <= i < gone.len() implies #[trigger] sent[i] == Change::<
            Peer,
            Endpoint,
        >::Remove(Peer::Address(gone[i])) && gone.contains(gone[i]) by {}
        assert forall|a: SocketAddr| #[trigger]
            resolving@.current.contains(a) && !answer@.contains(a) implies exists|i: int|
            0 <= i < gone.len() && #[trigger] sent[i] == Change::<Peer, Endpoint>::Remove(
                Peer::Address(a),
            ) by {
            assert(gone.contains(a));
            let i = choose|i: int| 0 <= i < gone.len() && gone[i] == a;
            assert(sent[i] == Change::<Peer, Endpoint>::Remove(Peer::Address(a)));
        }
    }
}

proof fn lemma_differences(resolving: Resolving, answer: AddressSet)
    ensures
        ({
            let current = resolving@.current;
            let gone = removed_in(changes_between(current, answer@));
            let left = inserted_in(changes_between(current, answer@));
            &&& forall|a: SocketAddr| #[trigger]
                left.contains(a) <==> answer@.contains(a) && !current.contains(a)
            &&& forall|a: SocketAddr| #[trigger]
                gone.contains(a) <==> current.contains(a) && !answer@.contains(a)
            &&& forall|i: int, j: int|
                0 <= i < j < left.len() ==> rank(#[trigger] left[i]) < rank(#[trigger] left[j])
            &&& forall|i: int, j: int|
                0 <= i < j < gone.len() ==> rank(#[trigger] gone[i]) < rank(#[trigger] gone[j])
        }),
{
    let current = resolving@.current;
    lemma_resolving_finite(resolving);
    lemma_set_finite(answer);
    the_changes_are_two_differences(current, answer@);
    a_set_is_walked_in_order(current.difference(answer@));
    a_set_is_walked_in_order(answer@.difference(current));
}

/// The insertions of a batch once the endpoint for its first address was built, or could
/// not be.
pub open spec fn with_outcome(building: Building, endpoint: Option<Endpoint>) -> Seq<
    Change<Peer, Endpoint>,
> {
    match endpoint {
        Some(endpoint) => building@.batch.made + seq![
            Change::<Peer, Endpoint>::Insert(Peer::Address(building@.batch.left[0]), endpoint),
        ],
        None => building@.batch.made,
    }
}

/// As long as another address is left, the next endpoint is asked for, and nothing is
/// sent: an endpoint that was built joins the insertions, one that was not is passed
/// over, and all else is as it was.
pub proof fn every_endpoint_is_built_before_anything_is_sent(
    building: Building,
    endpoint: Option<Endpoint>,
    step: Step,
)
    requires
        call_ensures(Building::built, (building, endpoint), step),
        building@.batch.left.len() > 1,
    ensures
        step.next matches Next::Build(state) && {
            &&& state@.dial == building@.dial
            &&& state@.batch.gone == building@.batch.gone
            &&& state@.batch.made == with_outcome(building, endpoint)
            &&& building@.batch.left == seq![building@.batch.left[0]] + state@.batch.left
        },
        step.report is None,
        step.absent is None,
{
    assert(building@.batch.left =~= seq![building@.batch.left[0]]
        + building@.batch.left.drop_first());
    if let Some(made) = endpoint {
        assert(with_outcome(building, endpoint) =~= building@.batch.made.push(
            Change::Insert(Peer::Address(building@.batch.left[0]), made),
        ));
    }
}

/// Once the last endpoint of a batch was built, or could not be, what is gone is sent
/// first, then every insertion, then the removal of the name where the balancer holds it;
/// and the dial is unchanged until that is taken.
pub proof fn a_batch_is_sent_whole(
    building: Building,
    endpoint: Option<Endpoint>,
    step: Step,
    kept: SocketAddr,
)
    requires
        call_ensures(Building::built, (building, endpoint), step),
        building@.batch.left.len() == 1,
        with_outcome(building, endpoint).len() > 0 || (building@.dial.current.contains(kept)
            && !building@.batch.gone.contains(kept)),
        with_outcome(building, endpoint).len() > 0 || building@.batch.gone.len() > 0
            || building@.dial.seeded,
    ensures
        step.next matches Next::Send(change, state) && {
            let sent = seq![change] + state@.rest;
            let gone = building@.batch.gone;
            let made = with_outcome(building, endpoint);
            &&& state@.dial == building@.dial
            &&& change matches Change::Remove(peer) ==> state@.sent == Change::<
                Peer,
                (),
            >::Remove(peer)
            &&& change matches Change::Insert(peer, _) ==> state@.sent == Change::<
                Peer,
                (),
            >::Insert(peer, ())
            &&& sent.len() == gone.len() + made.len() + (if building@.dial.seeded {
                1int
            } else {
                0
            })
            &&& forall|i: int|
                0 <= i < gone.len() ==> #[trigger] sent[i] == Change::<Peer, Endpoint>::Remove(
                    Peer::Address(gone[i]),
                )
            &&& sent.subrange(gone.len() as int, (gone.len() + made.len()) as int) == made
            &&& building@.dial.seeded ==> sent.last() == Change::<Peer, Endpoint>::Remove(
                Peer::Unresolved,
            )
        },
        step.report is None,
        step.absent is None,
{
    let gone = building@.batch.gone;
    let made = with_outcome(building, endpoint);
    if let Some(e) = endpoint {
        assert(made =~= building@.batch.made.push(
            Change::Insert(Peer::Address(building@.batch.left[0]), e),
        ));
    }
    if made.len() == 0 {
        assert(!gone.to_set().contains(kept));
    }
    let batch = Batch {
        gone,
        made,
        left: building@.batch.left.drop_first(),
    };
    let whole = plan(building@.dial, batch);
    assert(whole.len() > 0);
    if let Next::Send(change, state) = step.next {
        let sent = seq![change] + state@.rest;
        assert(sent =~= whole);
        assert(sent.subrange(gone.len() as int, (gone.len() + made.len()) as int) =~= made);
    }
}

/// A batch of which no endpoint could be built, and which would take out every address
/// that the balancer has, is dropped: nothing is sent, and the dial is unchanged.
pub proof fn a_batch_that_would_leave_nothing_is_dropped(
    building: Building,
    endpoint: Option<Endpoint>,
    step: Step,
)
    requires
        call_ensures(Building::built, (building, endpoint), step),
        building@.batch.left.len() == 1,
        with_outcome(building, endpoint).len() == 0,
        forall|a: SocketAddr| #[trigger]
            building@.dial.current.contains(a) ==> building@.batch.gone.contains(a),
    ensures
        step.next matches Next::Sleep(state) && state@ == building@.dial,
        step.report == Some(building@.dial.current =~= Set::<SocketAddr>::empty()),
        step.absent is None,
{
    assert forall|a: SocketAddr| building@.dial.current.contains(a) implies
        building@.batch.gone.to_set().contains(a) by {
        assert(building@.batch.gone.contains(a));
    }
    assert(building@.dial.current.subset_of(building@.batch.gone.to_set()));
}

/// A batch that comes to nothing ends the tick: nothing is sent, and the dial is
/// unchanged.
pub proof fn a_batch_that_comes_to_nothing_ends_the_tick(
    building: Building,
    endpoint: Option<Endpoint>,
    step: Step,
)
    requires
        call_ensures(Building::built, (building, endpoint), step),
        building@.batch.left.len() == 1,
        with_outcome(building, endpoint).len() == 0,
        building@.batch.gone.len() == 0,
        !building@.dial.seeded,
    ensures
        step.next matches Next::Sleep(state) && state@ == building@.dial,
        step.report == Some(building@.dial.current =~= Set::<SocketAddr>::empty()),
        step.absent is None,
{
}

/// The address whose endpoint is asked for is the first that is left.
pub proof fn the_first_address_that_is_left_is_built(building: Building, address: SocketAddr)
    requires
        call_ensures(Building::address, (&building,), address),
    ensures
        building@.batch.left.len() > 0,
        building@.batch.left[0] == address,
{
}

/// A step that builds the endpoint itself is the step on the endpoint that it built, and
/// that one is an endpoint for the first address that is left; or it says why there is
/// none, and is the step on that.
pub proof fn a_step_builds_the_endpoint_of_its_address(
    building: Building,
    step: Step,
    error: Option<BalanceError>,
)
    requires
        call_ensures(Building::build, (building,), (step, error)),
    ensures
        building@.dial.target.tls is None ==> error is None,
        error matches Some(refusal) ==> {
            &&& refusal is Tls
            &&& address_outcome(building@.dial.target, building@.batch.left[0], Err(refusal))
            &&& forall|other: Step| #[trigger]
                call_ensures(Building::built, (building, None), other) ==> other@ == step@
        },
        error is None ==> exists|made: Endpoint|
            {
                &&& #[trigger] address_outcome(
                    building@.dial.target,
                    building@.batch.left[0],
                    Ok(made),
                )
                &&& forall|other: Step| #[trigger]
                    call_ensures(Building::built, (building, Some(made)), other) ==> other@
                        == step@
            },
{
    if error is None {
        let made = choose|made: Endpoint|
            address_outcome(building@.dial.target, building@.batch.left[0], Ok(made)) && step@
                == #[trigger] built(building@.dial, building@.batch, Some(made));
        assert(address_outcome(building@.dial.target, building@.batch.left[0], Ok(made)));
        assert forall|other: Step| #[trigger]
            call_ensures(Building::built, (building, Some(made)), other) implies other@
            == step@ by {}
    }
}

/// Two steps with the same view ask for the same: the same kind of thing, in the same
/// state, with the same reports.
pub proof fn a_view_tells_what_a_step_asks_for(step: Step, other: Step)
    requires
        step@ == other@,
    ensures
        step.report == other.report,
        step.absent == other.absent,
        match (step.next, other.next) {
            (Next::Sleep(a), Next::Sleep(b)) => a@ == b@,
            (Next::Resolve(a), Next::Resolve(b)) => a@ == b@,
            (Next::Build(a), Next::Build(b)) => a@ == b@,
            (Next::Send(change, a), Next::Send(another, b)) => change == another && a@ == b@,
            (Next::End(a), Next::End(b)) => a@ == b@,
            _ => false,
        },
{
}

/// A change that was not taken ends the loop: the dial is as it was before, and the
/// absence is reported no longer.
pub proof fn a_change_that_is_not_taken_ends_the_loop(sending: Sending, step: Step)
    requires
        call_ensures(Sending::sent, (sending, false), step),
    ensures
        step.next matches Next::End(dial) && dial@ == sending@.dial,
        step.report == Some(false),
        step.absent is None,
{
}

/// The dial records exactly what was taken: the address that was put in or taken out, or
/// whether the name is held, and nothing else. Then the change that follows is sent, or
/// the loop sleeps where none does, and the gauge says whether there is an address.
pub proof fn a_change_that_is_taken_is_recorded(sending: Sending, step: Step)
    requires
        call_ensures(Sending::sent, (sending, true), step),
    ensures
        ({
            let dial = match step.next {
                Next::Sleep(state) => state@,
                Next::Send(_, state) => state@.dial,
                _ => arbitrary(),
            };
            &&& dial.target == sending@.dial.target
            &&& forall|a: SocketAddr| #[trigger]
                dial.current.contains(a) <==> match sending@.sent {
                    Change::Insert(peer, _) => peer == Peer::Address(a)
                        || sending@.dial.current.contains(a),
                    Change::Remove(peer) => peer != Peer::Address(a)
                        && sending@.dial.current.contains(a),
                }
            &&& dial.seeded == match sending@.sent {
                Change::Insert(peer, _) => peer == Peer::Unresolved || sending@.dial.seeded,
                Change::Remove(peer) => peer != Peer::Unresolved && sending@.dial.seeded,
            }
            &&& sending@.rest.len() == 0 ==> step.next is Sleep && step.report == Some(
                dial.current =~= Set::<SocketAddr>::empty(),
            )
            &&& sending@.rest.len() > 0 ==> (step.next matches Next::Send(change, state) && (
            sending@.rest == seq![change] + state@.rest) && (match change {
                Change::Insert(peer, _) => state@.sent == Change::<Peer, ()>::Insert(peer, ()),
                Change::Remove(peer) => state@.sent == Change::<Peer, ()>::Remove(peer),
            }) && step.report is None)
        }),
        step.absent is None,
{
    if sending@.rest.len() > 0 {
        assert(sending@.rest =~= seq![sending@.rest[0]] + sending@.rest.drop_first());
    }
}

/// Each state takes the step that the loop takes on the event that it waits for, so what
/// holds of every run of the loop holds of the states.
pub proof fn the_states_take_the_steps_of_the_loop(
    asleep: Asleep,
    closed: bool,
    woken: Step,
    resolving: Resolving,
    answer: Option<AddressSet>,
    replied: Step,
    building: Building,
    endpoint: Option<Endpoint>,
    joined: Step,
    sending: Sending,
    delivered: bool,
    told: Step,
)
    requires
        call_ensures(Asleep::woke, (asleep, closed), woken),
        call_ensures(Resolving::answered, (resolving, answer), replied),
        call_ensures(Building::built, (building, endpoint), joined),
        call_ensures(Sending::sent, (sending, delivered), told),
    ensures
        woken@ == next_step(
            Model { dial: asleep@, phase: Phase::Asleep },
            Event::Woke(closed),
        ),
        replied@ == next_step(
            Model { dial: resolving@, phase: Phase::Resolving },
            Event::Answered(
                match answer {
                    Some(set) => Some(set@),
                    None => None,
                },
            ),
        ),
        joined@ == next_step(
            Model { dial: building@.dial, phase: Phase::Building(building@.batch) },
            Event::Built(endpoint),
        ),
        told@ == next_step(
            Model { dial: sending@.dial, phase: Phase::Sending(sending@.sent, sending@.rest) },
            Event::Sent(delivered),
        ),
{
}

/// What a step says and asks for is what its view says, and the state that it goes to is
/// the one that the view is of.
pub proof fn a_view_is_of_what_the_step_asks_for(step: Step)
    ensures
        step@.report == step.report,
        step@.absent == step.absent,
        step@.send == match step.next {
            Next::Send(change, _) => Some(change),
            _ => None,
        },
        match step.next {
            Next::Sleep(state) => step@.model.phase is Asleep && step@.model.dial == state@,
            Next::Resolve(state) => step@.model.phase is Resolving && step@.model.dial == state@,
            Next::Build(state) => step@.model.phase == Phase::Building(state@.batch)
                && step@.model.dial == state@.dial,
            Next::Send(_, state) => step@.model.phase == Phase::Sending(state@.sent, state@.rest)
                && step@.model.dial == state@.dial,
            Next::End(dial) => step@.model.phase is Ended && step@.model.dial == dial@,
        },
{
}

/// Every state tells the host that is dialled, the one that waits for a resolution the
/// port too, and the one that sleeps how many addresses there are.
pub proof fn every_state_tells_what_is_dialled(
    asleep: Asleep,
    resolving: Resolving,
    building: Building,
    sending: Sending,
    dial: Dial,
    hosts: (&str, &str, &str, &str, &str),
    port: u16,
    count: usize,
)
    requires
        call_ensures(Asleep::host, (&asleep,), hosts.0),
        call_ensures(Resolving::host, (&resolving,), hosts.1),
        call_ensures(Building::host, (&building,), hosts.2),
        call_ensures(Sending::host, (&sending,), hosts.3),
        call_ensures(Dial::host, (&dial,), hosts.4),
        call_ensures(Resolving::port, (&resolving,), port),
        call_ensures(Asleep::count, (&asleep,), count),
    ensures
        hosts.0@ == asleep@.target.host@,
        hosts.1@ == resolving@.target.host@,
        hosts.2@ == building@.dial.target.host@,
        hosts.3@ == sending@.dial.target.host@,
        hosts.4@ == dial@.target.host@,
        port == resolving@.target.port,
        count == asleep@.current.len(),
        count == 0 <==> asleep@.current =~= Set::<SocketAddr>::empty(),
{
    lemma_asleep_finite(asleep);
    if count == 0 {
        assert(asleep@.current =~= Set::<SocketAddr>::empty());
    }
}

} // verus!

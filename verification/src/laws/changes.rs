//! Laws on the changes that lead from one resolution to the next.

use vstd::prelude::*;

use crate::address::{ascending_of, lemma_ascending_exists, SocketAddr};
use crate::diff::{
    all_applied, applied, changes_between, inserted_in, insertions, removals, removed_in, Change,
};

verus! {

/// The address that a change is about.
pub open spec fn address_of(change: Change<SocketAddr, ()>) -> SocketAddr {
    match change {
        Change::Insert(address, _) => address,
        Change::Remove(address) => address,
    }
}

/// Every address that is gone is removed, every address that is new is inserted,
/// and there is no other change: an address in both sets does not occur.
pub proof fn changes_are_the_difference(
    current: Set<SocketAddr>,
    resolved: Set<SocketAddr>,
    change: Change<SocketAddr, ()>,
)
    requires
        current.finite(),
        resolved.finite(),
    ensures
        changes_between(current, resolved).contains(change) <==> match change {
            Change::Insert(address, _) => resolved.contains(address) && !current.contains(address),
            Change::Remove(address) => current.contains(address) && !resolved.contains(address),
        },
{
    let gone = ascending_of(current.difference(resolved));
    let new = ascending_of(resolved.difference(current));
    lemma_ascending_exists(current.difference(resolved));
    lemma_ascending_exists(resolved.difference(current));
    let changes = changes_between(current, resolved);
    if changes.contains(change) {
        let i = choose|i: int| 0 <= i < changes.len() && changes[i] == change;
        if i < gone.len() {
            assert(gone.to_set().contains(gone[i]));
        } else {
            assert(new.to_set().contains(new[i - gone.len()]));
        }
    }
    match change {
        Change::Insert(address, unit) => {
            assert(unit == ());
            if new.to_set().contains(address) {
                let i = choose|i: int| 0 <= i < new.len() && new[i] == address;
                assert(changes[gone.len() + i] == change);
            }
        },
        Change::Remove(address) => {
            if gone.to_set().contains(address) {
                let i = choose|i: int| 0 <= i < gone.len() && gone[i] == address;
                assert(changes[i] == change);
            }
        },
    }
}

/// No address occurs twice.
pub proof fn no_address_occurs_twice(
    current: Set<SocketAddr>,
    resolved: Set<SocketAddr>,
    i: int,
    j: int,
)
    requires
        current.finite(),
        resolved.finite(),
        0 <= i < j < changes_between(current, resolved).len(),
    ensures
        address_of(changes_between(current, resolved)[i]) != address_of(
            changes_between(current, resolved)[j],
        ),
{
    let gone = ascending_of(current.difference(resolved));
    let new = ascending_of(resolved.difference(current));
    lemma_ascending_exists(current.difference(resolved));
    lemma_ascending_exists(resolved.difference(current));
    if j < gone.len() {
        assert(gone[i].before(gone[j]));
    } else if i >= gone.len() {
        assert(new[i - gone.len()].before(new[j - gone.len()]));
    } else {
        assert(gone.to_set().contains(gone[i]));
        assert(new.to_set().contains(new[j - gone.len()]));
    }
}

/// Removals come first: nothing is inserted ahead of a removal.
pub proof fn removals_come_first(
    current: Set<SocketAddr>,
    resolved: Set<SocketAddr>,
    i: int,
    j: int,
)
    requires
        0 <= i < j < changes_between(current, resolved).len(),
        changes_between(current, resolved)[j] is Remove,
    ensures
        changes_between(current, resolved)[i] is Remove,
{
}

/// Applied to what the balancer has, the changes give what was resolved.
pub proof fn the_changes_lead_to_the_resolution(current: Set<SocketAddr>, resolved: Set<SocketAddr>)
    requires
        current.finite(),
        resolved.finite(),
    ensures
        all_applied(current, changes_between(current, resolved)) == resolved,
{
    let gone = ascending_of(current.difference(resolved));
    let new = ascending_of(resolved.difference(current));
    lemma_ascending_exists(current.difference(resolved));
    lemma_ascending_exists(resolved.difference(current));
    lemma_applied_in_turn(current, removals(gone), insertions(new));
    lemma_removed(current, gone);
    lemma_inserted(current.difference(gone.to_set()), new);
    assert(current.difference(gone.to_set()).union(new.to_set()) =~= resolved);
}

proof fn lemma_applied_in_turn(
    set: Set<SocketAddr>,
    first: Seq<Change<SocketAddr, ()>>,
    second: Seq<Change<SocketAddr, ()>>,
)
    ensures
        all_applied(set, first + second) == all_applied(all_applied(set, first), second),
    decreases first.len(),
{
    if first.len() == 0 {
        assert(first + second == second);
    } else {
        assert((first + second)[0] == first[0]);
        assert((first + second).drop_first() == first.drop_first() + second);
        lemma_applied_in_turn(applied(set, first[0]), first.drop_first(), second);
    }
}

proof fn lemma_removed(set: Set<SocketAddr>, addresses: Seq<SocketAddr>)
    ensures
        all_applied(set, removals(addresses)) == set.difference(addresses.to_set()),
    decreases addresses.len(),
{
    if addresses.len() == 0 {
        assert(set.difference(addresses.to_set()) =~= set);
    } else {
        let rest = addresses.drop_first();
        assert(removals(addresses).drop_first() == removals(rest));
        lemma_removed(set.remove(addresses[0]), rest);
        lemma_first_member(addresses);
        assert(set.remove(addresses[0]).difference(rest.to_set()) =~= set.difference(
            addresses.to_set(),
        ));
    }
}

proof fn lemma_inserted(set: Set<SocketAddr>, addresses: Seq<SocketAddr>)
    ensures
        all_applied(set, insertions(addresses)) == set.union(addresses.to_set()),
    decreases addresses.len(),
{
    if addresses.len() == 0 {
        assert(set.union(addresses.to_set()) =~= set);
    } else {
        let rest = addresses.drop_first();
        assert(insertions(addresses).drop_first() == insertions(rest));
        lemma_inserted(set.insert(addresses[0]), rest);
        lemma_first_member(addresses);
        assert(set.insert(addresses[0]).union(rest.to_set()) =~= set.union(addresses.to_set()));
    }
}

proof fn lemma_first_member(addresses: Seq<SocketAddr>)
    requires
        addresses.len() > 0,
    ensures
        addresses.to_set() == addresses.drop_first().to_set().insert(addresses[0]),
{
    let rest = addresses.drop_first();
    assert forall|a: SocketAddr|
        addresses.to_set().contains(a) == rest.to_set().insert(addresses[0]).contains(a) by {
        if addresses.contains(a) {
            let i = choose|i: int| 0 <= i < addresses.len() && addresses[i] == a;
            if i > 0 {
                assert(rest[i - 1] == a);
            }
        }
        if rest.contains(a) {
            let i = choose|i: int| 0 <= i < rest.len() && rest[i] == a;
            assert(addresses[i + 1] == a);
        }
        assert(addresses.contains(addresses[0]));
    }
    assert(addresses.to_set() =~= rest.to_set().insert(addresses[0]));
}

/// There is nothing to change exactly where the two sets are equal, so a stable set
/// churns no connection.
pub proof fn no_changes_exactly_between_equal_sets(
    current: Set<SocketAddr>,
    resolved: Set<SocketAddr>,
)
    requires
        current.finite(),
        resolved.finite(),
    ensures
        changes_between(current, resolved).len() == 0 <==> current == resolved,
{
    if changes_between(current, resolved).len() == 0 {
        the_changes_lead_to_the_resolution(current, resolved);
    } else if current == resolved {
        let change = changes_between(current, resolved)[0];
        changes_are_the_difference(current, resolved, change);
        assert(changes_between(current, resolved).contains(change));
    }
}

/// A set that recovers from nothing inserts every address, in ascending order.
pub proof fn recovering_from_nothing_inserts_everything(resolved: Set<SocketAddr>)
    requires
        resolved.finite(),
    ensures
        changes_between(Set::empty(), resolved) == insertions(ascending_of(resolved)),
{
    let none = Set::<SocketAddr>::empty();
    lemma_ascending_exists(none.difference(resolved));
    assert(none.difference(resolved) =~= none);
    assert(resolved.difference(none) =~= resolved);
    let gone = ascending_of(none);
    if gone.len() > 0 {
        assert(gone.to_set().contains(gone[0]));
    }
    assert(changes_between(none, resolved) =~= insertions(ascending_of(resolved)));
}

/// What the changes take out and what they put in are the two differences of the sets,
/// each in ascending order.
pub proof fn the_changes_are_two_differences(current: Set<SocketAddr>, resolved: Set<SocketAddr>)
    ensures
        removed_in(changes_between(current, resolved)) == ascending_of(
            current.difference(resolved),
        ),
        inserted_in(changes_between(current, resolved)) == ascending_of(
            resolved.difference(current),
        ),
{
    lemma_parts(
        ascending_of(current.difference(resolved)),
        ascending_of(resolved.difference(current)),
    );
}

proof fn lemma_parts(gone: Seq<SocketAddr>, new: Seq<SocketAddr>)
    ensures
        removed_in(removals(gone) + insertions(new)) == gone,
        inserted_in(removals(gone) + insertions(new)) == new,
    decreases gone.len() + new.len(),
{
    let changes = removals(gone) + insertions(new);
    if new.len() > 0 {
        assert(changes.drop_last() == removals(gone) + insertions(new.drop_last()));
        lemma_parts(gone, new.drop_last());
        assert(new.drop_last().push(new.last()) == new);
    } else if gone.len() > 0 {
        assert(changes.drop_last() == removals(gone.drop_last()) + insertions(new));
        lemma_parts(gone.drop_last(), new);
        assert(gone.drop_last().push(gone.last()) == gone);
    }
}

} // verus!

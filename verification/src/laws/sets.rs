//! Laws on sets of addresses, and on the changes between two of them.

use vstd::prelude::*;

use crate::address::{lemma_set_finite, AddressSet, SocketAddr};
use crate::diff::{diff, Change};
use crate::laws::changes::{
    changes_are_the_difference, no_address_occurs_twice, removals_come_first,
};
use crate::laws::texts::{a_set_is_walked_in_order, rank};

verus! {

/// A new set has no member.
pub proof fn a_new_set_has_no_member(set: AddressSet, a: SocketAddr)
    requires
        call_ensures(AddressSet::new, (), set),
    ensures
        !set@.contains(a),
{
}

/// The set of a list has the members of the list, in whatever order and however often
/// they stand in it.
pub proof fn a_set_has_the_members_of_its_list(
    list: Vec<SocketAddr>,
    set: AddressSet,
    a: SocketAddr,
)
    requires
        call_ensures(AddressSet::from_addresses, (&list,), set),
    ensures
        set@.contains(a) <==> exists|i: int| 0 <= i < list@.len() && list@[i] == a,
{
}

/// Two lists with the same members give sets that count as the same, and no others do.
pub proof fn the_order_of_a_list_does_not_matter(
    list: Vec<SocketAddr>,
    other: Vec<SocketAddr>,
    a: AddressSet,
    b: AddressSet,
    same: bool,
)
    requires
        call_ensures(AddressSet::from_addresses, (&list,), a),
        call_ensures(AddressSet::from_addresses, (&other,), b),
        call_ensures(AddressSet::same, (&a, &b), same),
    ensures
        same <==> forall|x: SocketAddr| #[trigger] list@.contains(x) <==> other@.contains(x),
{
    assert forall|x: SocketAddr| a@.contains(x) == #[trigger] list@.contains(x) by {}
    assert forall|x: SocketAddr| b@.contains(x) == #[trigger] other@.contains(x) by {}
    if forall|x: SocketAddr| #[trigger] list@.contains(x) <==> other@.contains(x) {
        assert forall|x: SocketAddr| a@.contains(x) == b@.contains(x) by {
            assert(list@.contains(x) == other@.contains(x));
        }
        assert(a@ =~= b@);
    }
}

/// What a set says of itself agrees with its members.
pub proof fn a_set_tells_its_members(
    set: AddressSet,
    other: AddressSet,
    members: &Vec<SocketAddr>,
    len: usize,
    empty: bool,
    address: SocketAddr,
    contained: bool,
    same: bool,
    list: Vec<SocketAddr>,
    within: bool,
)
    requires
        call_ensures(AddressSet::members, (&set,), members),
        call_ensures(AddressSet::len, (&set,), len),
        call_ensures(AddressSet::is_empty, (&set,), empty),
        call_ensures(AddressSet::contains, (&set, &address), contained),
        call_ensures(AddressSet::same, (&set, &other), same),
        call_ensures(AddressSet::within, (&set, &list), within),
    ensures
        len == members@.len(),
        empty <==> len == 0,
        contained <==> members@.contains(address),
        same <==> forall|a: SocketAddr| #[trigger] set@.contains(a) <==> other@.contains(a),
        within <==> forall|a: SocketAddr| #[trigger] members@.contains(a) ==> list@.contains(a),
{
    lemma_set_finite(set);
    assert forall|a: SocketAddr| #[trigger] members@.contains(a) <==> set@.contains(a) by {
        assert(members@.contains(a) == members@.to_set().contains(a));
    }
    if set@.len() == 0 {
        assert(set@ =~= Set::empty());
    }
    if forall|a: SocketAddr| #[trigger] set@.contains(a) <==> other@.contains(a) {
        assert(set@ =~= other@);
    }
    assert forall|a: SocketAddr| list@.to_set().contains(a) == #[trigger] list@.contains(a) by {}
    if forall|a: SocketAddr| #[trigger] members@.contains(a) ==> list@.contains(a) {
        assert forall|a: SocketAddr| set@.contains(a) implies list@.to_set().contains(a) by {
            assert(members@.contains(a));
        }
    }
}

/// A copy of a set has the same members.
pub proof fn a_copy_of_a_set_has_its_members(set: AddressSet, copy: AddressSet, a: SocketAddr)
    requires
        call_ensures(AddressSet::clone, (&set,), copy),
    ensures
        copy@.contains(a) <==> set@.contains(a),
{
}

/// An address that is put into a set is in it, all others stay as they are, and what is
/// returned tells whether it is new.
pub proof fn putting_in_changes_one_address(
    set: &mut AddressSet,
    address: SocketAddr,
    added: bool,
    other: SocketAddr,
)
    requires
        call_ensures(AddressSet::insert, (set, address), added),
    ensures
        final(set)@.contains(other) <==> old(set)@.contains(other) || other == address,
        added <==> !old(set)@.contains(address),
{
}

/// An address that is taken out of a set is not in it, all others stay as they are, and
/// what is returned tells whether it was there.
pub proof fn taking_out_changes_one_address(
    set: &mut AddressSet,
    address: SocketAddr,
    removed: bool,
    other: SocketAddr,
)
    requires
        call_ensures(AddressSet::remove, (set, &address), removed),
    ensures
        final(set)@.contains(other) <==> old(set)@.contains(other) && other != address,
        removed <==> old(set)@.contains(address),
{
}

/// What changed between two resolutions: every address that is gone is removed, every
/// address that is new is inserted, an address in both does not occur, none occurs twice,
/// every removal is ahead of every insertion, and both are in the order of the addresses.
pub proof fn what_changed_is_the_difference(
    current: AddressSet,
    resolved: AddressSet,
    changes: Vec<Change<SocketAddr, ()>>,
)
    requires
        call_ensures(diff, (&current, &resolved), changes),
    ensures
        forall|a: SocketAddr| #[trigger]
            changes@.contains(Change::Insert(a, ())) <==> resolved@.contains(a)
                && !current@.contains(a),
        forall|a: SocketAddr| #[trigger]
            changes@.contains(Change::Remove(a)) <==> current@.contains(a) && !resolved@.contains(
                a,
            ),
        forall|i: int, j: int|
            0 <= i < j < changes@.len() ==> match (#[trigger] changes@[i], #[trigger] changes@[j]) {
                (Change::Remove(a), Change::Remove(b)) => rank(a) < rank(b),
                (Change::Insert(a, _), Change::Insert(b, _)) => rank(a) < rank(b),
                (Change::Remove(a), Change::Insert(b, _)) => a != b,
                (Change::Insert(..), Change::Remove(_)) => false,
            },
{
    lemma_set_finite(current);
    lemma_set_finite(resolved);
    assert forall|a: SocketAddr| #[trigger]
        changes@.contains(Change::Insert(a, ())) <==> resolved@.contains(a) && !current@.contains(
            a,
        ) by {
        changes_are_the_difference(current@, resolved@, Change::Insert(a, ()));
    }
    assert forall|a: SocketAddr| #[trigger]
        changes@.contains(Change::Remove(a)) <==> current@.contains(a) && !resolved@.contains(a) by {
        changes_are_the_difference(current@, resolved@, Change::Remove(a));
    }
    a_set_is_walked_in_order(current@.difference(resolved@));
    a_set_is_walked_in_order(resolved@.difference(current@));
    assert forall|i: int, j: int| 0 <= i < j < changes@.len() implies match (
        #[trigger] changes@[i],
        #[trigger] changes@[j],
    ) {
        (Change::Remove(a), Change::Remove(b)) => rank(a) < rank(b),
        (Change::Insert(a, _), Change::Insert(b, _)) => rank(a) < rank(b),
        (Change::Remove(a), Change::Insert(b, _)) => a != b,
        (Change::Insert(..), Change::Remove(_)) => false,
    } by {
        no_address_occurs_twice(current@, resolved@, i, j);
        if changes@[j] is Remove {
            removals_come_first(current@, resolved@, i, j);
        }
    }
}

} // verus!

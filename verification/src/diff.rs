//! What changed between two resolutions.

use vstd::prelude::*;

use crate::address::{
    ascending_of, is_ascending, lemma_ascending_of, lemma_push_members, AddressSet, SocketAddr,
};

verus! {

/// A change in what a balancer holds.
#[derive(Clone, Copy, PartialEq, Eq, Debug)]
pub enum Change<K, V> {
    /// `K` is there now, and `V` is what serves it.
    Insert(K, V),
    /// `K` is gone.
    Remove(K),
}

/// Each of `addresses` taken out, in their order.
pub open spec fn removals(addresses: Seq<SocketAddr>) -> Seq<Change<SocketAddr, ()>> {
    addresses.map_values(|a: SocketAddr| Change::<SocketAddr, ()>::Remove(a))
}

/// Each of `addresses` put in, in their order.
pub open spec fn insertions(addresses: Seq<SocketAddr>) -> Seq<Change<SocketAddr, ()>> {
    addresses.map_values(|a: SocketAddr| Change::<SocketAddr, ()>::Insert(a, ()))
}

/// What leads from `current` to `resolved`: what is gone, then what is new, each
/// in ascending order.
pub open spec fn changes_between(
    current: Set<SocketAddr>,
    resolved: Set<SocketAddr>,
) -> Seq<Change<SocketAddr, ()>> {
    removals(ascending_of(current.difference(resolved))) + insertions(
        ascending_of(resolved.difference(current)),
    )
}

/// The addresses that `changes` take out, in their order.
pub open spec fn removed_in(changes: Seq<Change<SocketAddr, ()>>) -> Seq<SocketAddr>
    decreases changes.len(),
{
    if changes.len() == 0 {
        Seq::empty()
    } else {
        match changes.last() {
            Change::Insert(..) => removed_in(changes.drop_last()),
            Change::Remove(address) => removed_in(changes.drop_last()).push(address),
        }
    }
}

/// The addresses that `changes` put in, in their order.
pub open spec fn inserted_in(changes: Seq<Change<SocketAddr, ()>>) -> Seq<SocketAddr>
    decreases changes.len(),
{
    if changes.len() == 0 {
        Seq::empty()
    } else {
        match changes.last() {
            Change::Insert(address, _) => inserted_in(changes.drop_last()).push(address),
            Change::Remove(_) => inserted_in(changes.drop_last()),
        }
    }
}

/// The set after one change.
pub open spec fn applied(set: Set<SocketAddr>, change: Change<SocketAddr, ()>) -> Set<SocketAddr> {
    match change {
        Change::Insert(a, _) => set.insert(a),
        Change::Remove(a) => set.remove(a),
    }
}

/// The set after all of `changes`, the first one first.
pub open spec fn all_applied(
    set: Set<SocketAddr>,
    changes: Seq<Change<SocketAddr, ()>>,
) -> Set<SocketAddr>
    decreases changes.len(),
{
    if changes.len() == 0 {
        set
    } else {
        all_applied(applied(set, changes[0]), changes.drop_first())
    }
}

/// The members of `from` that `other` lacks, in ascending order.
fn missing_from(from: &AddressSet, other: &AddressSet) -> (res: Vec<SocketAddr>)
    ensures
        res@ == ascending_of(from@.difference(other@)),
{
    let members = from.members();
    let mut res: Vec<SocketAddr> = Vec::new();
    let mut i: usize = 0;
    assert(res@.to_set() =~= members@.take(0).to_set().difference(other@));
    while i < members.len()
        invariant
            i <= members.len(),
            is_ascending(members@),
            is_ascending(res@),
            forall|j: int, k: int|
                0 <= j < res.len() && i <= k < members.len() ==> res[j].before(members[k]),
            res@.to_set() == members@.take(i as int).to_set().difference(other@),
        decreases members.len() - i,
    {
        let member = members[i];
        let ghost before = res@;
        proof {
            assert(members@.take(i + 1) == members@.take(i as int).push(member));
            lemma_push_members(members@.take(i as int), member);
            lemma_push_members(before, member);
        }
        if !other.contains(&member) {
            res.push(member);
            assert(before.to_set().insert(member) =~= members@.take(i as int).to_set().insert(
                member,
            ).difference(other@));
        } else {
            assert(before.to_set() =~= members@.take(i as int).to_set().insert(member).difference(
                other@,
            ));
        }
        i = i + 1;
    }
    proof {
        assert(members@.take(i as int) == members@);
        lemma_ascending_of(res@);
    }
    res
}

/// What changed between two resolutions.
///
/// An address that is in both sets does not occur. Removals come first: a rolling
/// update reuses addresses, and an insertion ahead of the removal of the same key
/// could leave a stale entry behind.
pub fn diff(current: &AddressSet, resolved: &AddressSet) -> (changes: Vec<Change<SocketAddr, ()>>)
    ensures
        changes@ == changes_between(current@, resolved@),
{
    let removed = missing_from(current, resolved);
    let added = missing_from(resolved, current);
    let mut changes: Vec<Change<SocketAddr, ()>> = Vec::new();
    let mut i: usize = 0;
    while i < removed.len()
        invariant
            i <= removed.len(),
            changes@ == removals(removed@.take(i as int)),
        decreases removed.len() - i,
    {
        changes.push(Change::Remove(removed[i]));
        assert(removed@.take(i + 1) == removed@.take(i as int).push(removed[i as int]));
        i = i + 1;
    }
    assert(removed@.take(i as int) == removed@);
    let mut i: usize = 0;
    while i < added.len()
        invariant
            i <= added.len(),
            changes@ == removals(removed@) + insertions(added@.take(i as int)),
        decreases added.len() - i,
    {
        changes.push(Change::Insert(added[i], ()));
        assert(added@.take(i + 1) == added@.take(i as int).push(added[i as int]));
        i = i + 1;
    }
    assert(added@.take(i as int) == added@);
    changes
}

/// The addresses that `changes` take out, and those that they put in.
pub(crate) fn split(changes: &Vec<Change<SocketAddr, ()>>) -> (res: (
    Vec<SocketAddr>,
    Vec<SocketAddr>,
))
    ensures
        res.0@ == removed_in(changes@),
        res.1@ == inserted_in(changes@),
{
    let mut removed: Vec<SocketAddr> = Vec::new();
    let mut inserted: Vec<SocketAddr> = Vec::new();
    let mut i: usize = 0;
    while i < changes.len()
        invariant
            i <= changes.len(),
            removed@ == removed_in(changes@.take(i as int)),
            inserted@ == inserted_in(changes@.take(i as int)),
        decreases changes.len() - i,
    {
        assert(changes@.take(i + 1).drop_last() == changes@.take(i as int));
        match changes[i] {
            Change::Insert(address, _) => {
                inserted.push(address);
            },
            Change::Remove(address) => {
                removed.push(address);
            },
        }
        i = i + 1;
    }
    assert(changes@.take(i as int) == changes@);
    (removed, inserted)
}

} // verus!

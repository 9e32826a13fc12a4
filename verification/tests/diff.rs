//! What changed between two resolutions.

use yadgar_dial::{diff, AddressSet, Change, SocketAddr};

fn pod(last: u32) -> SocketAddr {
    SocketAddr::V4 { ip: 0x0a00_0000 + last, port: 50051 }
}

fn set(addresses: &[SocketAddr]) -> AddressSet {
    AddressSet::from_addresses(&addresses.to_vec())
}

#[test]
fn identical_sets_change_nothing() {
    let same = set(&[pod(1), pod(2)]);
    assert_eq!(diff(&same, &same), vec![]);
    assert_eq!(diff(&set(&[]), &set(&[])), vec![]);
}

#[test]
fn what_is_gone_is_removed_before_what_is_new_is_inserted() {
    let changes = diff(&set(&[pod(1), pod(2), pod(5)]), &set(&[pod(4), pod(2), pod(3)]));
    assert_eq!(
        changes,
        vec![
            Change::Remove(pod(1)),
            Change::Remove(pod(5)),
            Change::Insert(pod(3), ()),
            Change::Insert(pod(4), ()),
        ]
    );
}

#[test]
fn recovering_from_an_empty_set_inserts_everything() {
    assert_eq!(
        diff(&set(&[]), &set(&[pod(2), pod(1), pod(2)])),
        vec![Change::Insert(pod(1), ()), Change::Insert(pod(2), ())]
    );
}

#[test]
fn an_empty_resolution_removes_everything_here() {
    assert_eq!(
        diff(&set(&[pod(2), pod(1)]), &set(&[])),
        vec![Change::Remove(pod(1)), Change::Remove(pod(2))]
    );
}

#[test]
fn the_same_ip_with_another_port_is_another_address() {
    let moved = SocketAddr::V4 { ip: 0x0a00_0001, port: 50052 };
    assert_eq!(
        diff(&set(&[pod(1)]), &set(&[moved])),
        vec![Change::Remove(pod(1)), Change::Insert(moved, ())]
    );
}

#[test]
fn applying_the_changes_gives_the_resolution() {
    let current = set(&[pod(1), pod(2), pod(3)]);
    let resolved = set(&[pod(3), pod(4)]);
    let mut applied = current.clone();
    for change in diff(&current, &resolved) {
        match change {
            Change::Insert(address, ()) => assert!(applied.insert(address)),
            Change::Remove(address) => assert!(applied.remove(&address)),
        }
    }
    assert!(applied.same(&resolved));
}

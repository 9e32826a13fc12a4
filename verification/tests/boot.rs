//! The dial at the start of a process.

use std::time::Duration;

use tonic::transport::ClientTlsConfig;
use yadgar_dial::{
    connect, connect_with, connect_with_request_timeout, default_request_timeout, AddressSet,
    BalanceError, Change, Launch, Next, Peer, SocketAddr,
};

const ABSENT: &str = "an-upstream-that-is-not-there-9f3c.invalid";
const PORT: u16 = 50051;

fn unresolvable(host: &str) -> Result<AddressSet, BalanceError> {
    Err(BalanceError::Dns {
        host: format!("{host}:{PORT}"),
        source: std::io::Error::new(std::io::ErrorKind::NotFound, "no such name"),
    })
}

fn v4(ip: u32) -> SocketAddr {
    SocketAddr::V4 { ip, port: PORT }
}

fn gauge(launch: &Launch) -> f64 {
    if launch.never_resolved {
        1.0
    } else {
        0.0
    }
}

fn inserted(launch: &Launch) -> Vec<(Peer, String)> {
    launch
        .inserts
        .iter()
        .map(|change| match change {
            Change::Insert(peer, endpoint) => (*peer, endpoint.uri().to_string()),
            Change::Remove(peer) => panic!("nothing is removed at the start: {peer:?}"),
        })
        .collect()
}

#[test]
fn the_boot_dial_publishes_the_absence_it_creates() {
    let host = "an-upstream-that-is-not-there-4b71.invalid";
    let launch = connect_with(host, 50051, None, default_request_timeout())
        .and_then(|boot| boot.resolved(unresolvable(host)))
        .expect("an unresolvable upstream is not a boot failure");
    assert_eq!(
        gauge(&launch),
        1.0,
        "the pod is Running with zero restarts and cannot serve; this gauge is the only thing \
         that says so"
    );
    assert_eq!(launch.refresh.host(), host);
}

#[test]
fn a_boot_dial_that_resolves_publishes_the_zero() {
    let host = "127.0.0.1";
    let answer = AddressSet::from_addresses(&vec![v4(0x7f00_0001)]);
    let launch = connect_with(host, 50051, None, default_request_timeout())
        .and_then(|boot| boot.resolved(Ok(answer)))
        .expect("an address literal resolves to itself");
    assert_eq!(gauge(&launch), 0.0);
    assert_eq!(launch.refresh.host(), host);
}

#[test]
fn an_upstream_that_does_not_resolve_is_not_a_boot_failure() {
    let outcome = connect(ABSENT, PORT).and_then(|boot| boot.resolved(unresolvable(ABSENT)));
    assert!(
        outcome.is_ok(),
        "an upstream whose Service does not exist yet must not take the caller down with it"
    );
}

#[test]
fn a_configuration_mistake_is_still_a_boot_failure() {
    match connect("not a host name", PORT) {
        Err(BalanceError::InvalidHost { host }) => assert_eq!(host, "not a host name:50051"),
        _ => panic!("a host that cannot be dialled at all must be reported as itself"),
    }
}

#[test]
fn a_dial_that_resolves_to_nothing_holds_the_name_alone() {
    for answer in [unresolvable(ABSENT), Ok(AddressSet::new())] {
        let boot = connect("task-db", PORT).unwrap_or_else(|e| panic!("{}", e.message()));
        assert_eq!(boot.host(), "task-db");
        assert_eq!(boot.port(), PORT);
        assert!(!boot.secured());
        let launch = boot.resolved(answer).unwrap_or_else(|e| panic!("{}", e.message()));
        assert_eq!(
            inserted(&launch),
            vec![(Peer::Unresolved, "http://task-db:50051/".to_string())]
        );
        assert_eq!(launch.capacity, 8);
        assert!(launch.never_resolved);
    }
}

#[test]
fn a_dial_that_resolves_holds_every_address_and_not_the_name() {
    let answer = AddressSet::from_addresses(&vec![v4(3), v4(1), v4(2)]);
    let launch = connect("task-db", PORT)
        .and_then(|boot| boot.resolved(Ok(answer)))
        .unwrap_or_else(|e| panic!("{}", e.message()));
    assert_eq!(
        inserted(&launch),
        vec![
            (Peer::Address(v4(1)), "http://0.0.0.1:50051/".to_string()),
            (Peer::Address(v4(2)), "http://0.0.0.2:50051/".to_string()),
            (Peer::Address(v4(3)), "http://0.0.0.3:50051/".to_string()),
        ]
    );
    assert_eq!(launch.capacity, 8);
    assert!(!launch.never_resolved);
}

#[test]
fn the_way_to_the_balancer_has_room_for_every_address() {
    for (count, capacity) in [(7, 8), (8, 8), (9, 9), (40, 40)] {
        let answer = AddressSet::from_addresses(&(1..=count).map(v4).collect());
        let launch = connect("task-db", PORT)
            .and_then(|boot| boot.resolved(Ok(answer)))
            .unwrap_or_else(|e| panic!("{}", e.message()));
        assert_eq!(launch.inserts.len(), count as usize);
        assert_eq!(launch.capacity, capacity);
    }
}

/// The loop goes on where the start left off: the same addresses are no change.
#[test]
fn the_loop_starts_with_what_was_launched() {
    let answer = AddressSet::from_addresses(&vec![v4(1), v4(2)]);
    let launch = connect_with_request_timeout("task-db", PORT, Duration::from_millis(750))
        .and_then(|boot| boot.resolved(Ok(answer.clone())))
        .unwrap_or_else(|e| panic!("{}", e.message()));
    let step = launch.refresh.woke(false);
    assert_eq!(step.report, Some(false));
    match step.next {
        Next::Resolve(state) => match state.answered(Some(answer)).next {
            Next::Sleep(_) => {}
            _ => panic!("a stable set sends nothing"),
        },
        _ => panic!("an open channel resolves"),
    }
}

#[test]
fn an_ipv6_literal_can_be_dialled() {
    let launch = connect("::1", PORT)
        .and_then(|boot| boot.resolved(unresolvable("::1")))
        .unwrap_or_else(|e| panic!("{}", e.message()));
    assert_eq!(
        inserted(&launch),
        vec![(Peer::Unresolved, "http://[::1]:50051/".to_string())]
    );
}

/// An IP address in place of a name is never refused.
#[test]
fn an_ip_address_can_be_dialled() {
    for host in ["::", "::1", "fe80::1", "::ffff:10.0.0.1", "0.0.0.0", "10.0.0.1"] {
        assert!(connect(host, PORT).is_ok(), "{host}");
        assert!(connect_with_request_timeout(host, 0, Duration::from_secs(1)).is_ok(), "{host}");
    }
}

/// The endpoint for the name is built on every dial, so a configuration that no
/// endpoint can carry is found before the host is resolved.
#[test]
fn a_configuration_that_cannot_be_used_is_found_before_the_resolution() {
    let tls = ClientTlsConfig::new().domain_name("not a server name");
    assert!(matches!(
        connect_with("task-db", PORT, Some(tls), default_request_timeout()),
        Err(BalanceError::Tls { .. })
    ));
}

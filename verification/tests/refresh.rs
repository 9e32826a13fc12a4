//! The re-resolution loop, tick by tick.

use std::collections::BTreeSet;

use tonic::transport::ClientTlsConfig;
use yadgar_dial::{
    bounded_lookup, default_request_timeout, endpoint, refresh, still_absent, Absence, AddressSet,
    Asleep, BalanceError, Change, Level, Lookup, Next, Peer, SocketAddr, Target,
};

const FIRST: SocketAddr = SocketAddr::V4 { ip: 0x0a00_0001, port: 50051 };
const SECOND: SocketAddr = SocketAddr::V4 { ip: 0x0a00_0002, port: 50051 };
const THIRD: SocketAddr = SocketAddr::V4 { ip: 0x0a00_0003, port: 50051 };

fn target(tls: Option<ClientTlsConfig>) -> Target {
    Target {
        host: "task-db".to_string(),
        port: 50051,
        tls,
        request_timeout: default_request_timeout(),
    }
}

fn set(addresses: &[SocketAddr]) -> AddressSet {
    AddressSet::from_addresses(&addresses.to_vec())
}

/// Nothing can be built with this.
fn unbuildable() -> ClientTlsConfig {
    ClientTlsConfig::new().domain_name("not a server name")
}

/// What a loop did.
#[derive(Default)]
struct Driven {
    /// What the balancer was handed, in order.
    observed: Vec<String>,
    /// Every write of the gauge, in order, with its upstream.
    gauge: Vec<(String, f64)>,
    /// Every absence that was reported.
    absences: Vec<Absence>,
    /// The refusals to build an endpoint.
    errors: Vec<BalanceError>,
    /// Whether the loop ended.
    ended: bool,
}

impl Driven {
    /// The last value of the gauge, and that there is but one upstream.
    fn only_series(&self, host: &str) -> f64 {
        assert!(!self.gauge.is_empty(), "the gauge must have been written");
        for (upstream, _) in &self.gauge {
            assert_eq!(upstream, host);
        }
        self.gauge[self.gauge.len() - 1].1
    }
}

fn described(change: &Change<Peer, tonic::transport::Endpoint>) -> String {
    let (verb, peer) = match change {
        Change::Insert(peer, _) => ("insert", peer),
        Change::Remove(peer) => ("remove", peer),
    };
    match peer {
        Peer::Unresolved => format!("{verb} Unresolved"),
        Peer::Address(address) => format!("{verb} Address({})", address.text()),
    }
}

/// Drives a loop for at most `ticks` ticks. `answers` is asked on every tick;
/// `capacity` is how many changes are taken before the channel is gone.
fn drive(
    start: Asleep,
    ticks: usize,
    closed: bool,
    capacity: usize,
    mut answers: impl FnMut(usize) -> Option<AddressSet>,
) -> Driven {
    let mut driven = Driven::default();
    let mut asleep = start;
    for tick in 0..ticks {
        let host = asleep.host().to_string();
        let mut step = asleep.woke(closed);
        asleep = loop {
            if let Some(never_resolved) = step.report {
                driven
                    .gauge
                    .push((host.clone(), if never_resolved { 1.0 } else { 0.0 }));
            }
            if let Some(absence) = step.absent {
                driven.absences.push(absence);
            }
            step = match step.next {
                Next::Sleep(state) => break state,
                Next::End(dial) => {
                    assert_eq!(dial.host(), host);
                    driven.ended = true;
                    return driven;
                }
                Next::Resolve(state) => {
                    assert_eq!(state.host(), "task-db");
                    assert_eq!(state.port(), 50051);
                    state.answered(answers(tick))
                }
                Next::Build(state) => {
                    assert_eq!(state.host(), host);
                    let (step, error) = state.build();
                    driven.errors.extend(error);
                    step
                }
                Next::Send(change, state) => {
                    assert_eq!(state.host(), host);
                    let delivered = driven.observed.len() < capacity;
                    if delivered {
                        driven.observed.push(described(&change));
                    }
                    state.sent(delivered)
                }
            };
        };
    }
    driven
}

#[test]
fn an_upstream_that_never_resolves_is_reported_on_every_tick() {
    let driven = drive(refresh(target(None), set(&[]), true), 2, false, 8, |_| None);
    assert_eq!(driven.only_series("task-db"), 1.0);
    assert_eq!(driven.gauge.len(), 2);
    assert_eq!(
        driven.absences,
        vec![Absence::NeverResolved, Absence::NeverResolved]
    );
}

#[test]
fn a_blip_on_an_upstream_that_has_resolved_is_not_an_absence() {
    // The balancer has been given an address; the resolver is now failing.
    let driven = drive(refresh(target(None), set(&[FIRST]), false), 2, false, 8, |_| None);
    assert_eq!(
        driven.only_series("task-db"),
        0.0,
        "the endpoints are kept and requests are still served"
    );
    assert_eq!(driven.absences, vec![Absence::Blip, Absence::Blip]);
    assert!(driven.observed.is_empty());
}

#[test]
fn the_gauge_clears_on_the_tick_that_first_resolves() {
    let driven = drive(refresh(target(None), set(&[]), true), 1, false, 8, |_| {
        Some(set(&[FIRST]))
    });
    assert_eq!(driven.only_series("task-db"), 0.0);
    assert_eq!(driven.gauge[0].1, 1.0, "it was an absence when the tick began");
}

#[test]
fn a_dial_nobody_holds_any_more_is_no_longer_an_absence() {
    let driven = drive(refresh(target(None), set(&[]), true), 12, true, 8, |_| None);
    assert!(driven.ended, "the loop must end when the channel is dropped");
    assert_eq!(driven.only_series("task-db"), 0.0);
}

#[test]
fn stable_endpoint_set_exits_on_channel_drop() {
    let driven = drive(refresh(target(None), set(&[FIRST]), false), 12, true, 8, |_| {
        Some(set(&[FIRST]))
    });
    assert!(
        driven.ended,
        "the loop must end when the channel is dropped, including on a tick that sends nothing"
    );
}

#[test]
fn an_endpoint_that_fails_to_build_is_not_recorded_as_given() {
    let loops = refresh(target(Some(unbuildable())), set(&[]), false);
    let driven = drive(loops, 2, false, 8, |tick| {
        Some(set(&[if tick == 0 { FIRST } else { SECOND }]))
    });
    assert!(
        driven.observed.is_empty(),
        "no endpoint could be built, so the balancer was given nothing — and a removal here \
         takes away an address it never had: {:?}",
        driven.observed
    );
    assert_eq!(driven.errors.len(), 2);
    match &driven.errors[0] {
        BalanceError::Tls { source } => {
            let reason = std::error::Error::source(source).map(|cause| cause.to_string());
            assert_eq!(reason, Some("invalid dns name".to_string()));
        }
        other => panic!("expected a TLS error: {other:?}"),
    }
}

#[test]
fn the_seed_is_withdrawn_after_a_resolved_address_is_given() {
    // Nothing was given at the start, and the name is in the balancer.
    let driven = drive(refresh(target(None), set(&[]), true), 1, false, 8, |_| {
        Some(set(&[FIRST]))
    });
    assert_eq!(
        driven.observed,
        vec![
            "insert Address(10.0.0.1:50051)".to_string(),
            "remove Unresolved".to_string(),
        ],
        "the resolved address must be in before the name goes out, and the name must go"
    );
}

#[test]
fn the_seed_survives_a_tick_that_could_build_nothing() {
    let driven = drive(refresh(target(Some(unbuildable())), set(&[]), true), 2, false, 8, |_| {
        Some(set(&[FIRST]))
    });
    assert!(
        driven.observed.is_empty(),
        "no endpoint could be built, so the name is still the only thing that can serve a \
         request — withdrawing it leaves the balancer empty, and an empty balancer never \
         becomes ready"
    );
    assert_eq!(driven.only_series("task-db"), 1.0);
}

#[test]
fn a_lookup_that_never_answers_is_bounded_and_named() {
    let outcome = bounded_lookup("task-db:50051".to_string(), Lookup::TimedOut);
    assert!(
        matches!(outcome, Err(BalanceError::DnsTimedOut { .. })),
        "a resolver that stopped answering must be reported as itself: {outcome:?}"
    );
    match outcome {
        Err(BalanceError::DnsTimedOut { host, after }) => {
            assert_eq!(host, "task-db:50051");
            assert_eq!(after, std::time::Duration::from_secs(5));
        }
        other => panic!("expected a timeout: {other:?}"),
    }
}

#[test]
fn a_lookup_that_answers_is_taken_as_it_is() {
    let refused = std::io::Error::new(std::io::ErrorKind::NotFound, "no such name");
    match bounded_lookup("task-db:50051".to_string(), Lookup::Failed(refused)) {
        Err(BalanceError::Dns { host, source }) => {
            assert_eq!(host, "task-db:50051");
            assert_eq!(source.to_string(), "no such name");
        }
        other => panic!("expected a resolver error: {other:?}"),
    }
    let answer = bounded_lookup(
        "task-db:50051".to_string(),
        Lookup::Answered(vec![SECOND, FIRST, SECOND]),
    )
    .unwrap();
    assert_eq!(answer.members(), &vec![FIRST, SECOND]);
    let nothing = bounded_lookup("task-db:50051".to_string(), Lookup::Answered(vec![])).unwrap();
    assert!(nothing.is_empty());
}

#[test]
fn a_rolling_update_is_followed_and_a_stable_set_is_left_alone() {
    let answers = [
        vec![FIRST, SECOND],
        vec![FIRST, SECOND],
        vec![],
        vec![SECOND, THIRD],
        vec![THIRD],
    ];
    let driven = drive(refresh(target(None), set(&[FIRST]), false), 5, false, 8, |tick| {
        Some(set(&answers[tick]))
    });
    assert_eq!(
        driven.observed,
        vec![
            "insert Address(10.0.0.2:50051)".to_string(),
            "remove Address(10.0.0.1:50051)".to_string(),
            "insert Address(10.0.0.3:50051)".to_string(),
            "remove Address(10.0.0.2:50051)".to_string(),
        ]
    );
    assert_eq!(driven.absences, vec![Absence::Blip]);
    assert_eq!(driven.only_series("task-db"), 0.0);
    assert!(!driven.ended);
}

#[test]
fn a_name_that_was_withdrawn_stays_withdrawn() {
    let driven = drive(refresh(target(None), set(&[]), true), 4, false, 8, |tick| {
        if tick == 0 {
            Some(set(&[FIRST]))
        } else if tick == 3 {
            Some(set(&[SECOND]))
        } else {
            None
        }
    });
    assert_eq!(
        driven.observed,
        vec![
            "insert Address(10.0.0.1:50051)".to_string(),
            "remove Unresolved".to_string(),
            "remove Address(10.0.0.1:50051)".to_string(),
            "insert Address(10.0.0.2:50051)".to_string(),
        ]
    );
}

/// The channel can go in the middle of a tick. What was not taken is not recorded,
/// and the loop ends.
#[test]
fn a_change_that_cannot_be_delivered_ends_the_loop() {
    for capacity in 0..3 {
        let driven = drive(refresh(target(None), set(&[]), true), 9, false, capacity, |_| {
            Some(set(&[FIRST, SECOND]))
        });
        assert!(driven.ended);
        assert_eq!(driven.observed.len(), capacity);
        assert_eq!(driven.only_series("task-db"), 0.0);
    }
}

/// A set that has had an address does not go back to having none: an answer of which
/// nothing can be dialled is no reason to give up what works.
#[test]
fn an_answer_of_which_nothing_can_be_built_keeps_the_old_addresses() {
    let loops = refresh(target(Some(unbuildable())), set(&[FIRST]), false);
    let driven = drive(loops, 1, false, 8, |_| Some(set(&[SECOND])));
    assert!(driven.observed.is_empty(), "{:?}", driven.observed);
    assert_eq!(driven.only_series("task-db"), 0.0);
    assert_eq!(driven.errors.len(), 1);

    let loops = refresh(target(Some(unbuildable())), set(&[FIRST, THIRD]), false);
    let driven = drive(loops, 3, false, 8, |_| Some(set(&[SECOND])));
    assert!(driven.observed.is_empty(), "{:?}", driven.observed);
    assert_eq!(driven.only_series("task-db"), 0.0);
    assert_eq!(driven.errors.len(), 3, "the address is offered again on every tick");
}

/// What is gone goes, as long as one address of the answer is there already.
#[test]
fn an_answer_that_is_served_in_part_is_followed() {
    let loops = refresh(target(Some(unbuildable())), set(&[FIRST, THIRD]), false);
    let driven = drive(loops, 1, false, 8, |_| Some(set(&[SECOND, THIRD])));
    assert_eq!(
        driven.observed,
        vec!["remove Address(10.0.0.1:50051)".to_string()]
    );
    assert_eq!(driven.only_series("task-db"), 0.0);
}

/// Every endpoint is built before the first change is sent.
#[test]
fn everything_is_built_before_anything_is_sent() {
    let step = refresh(target(None), set(&[FIRST]), false).woke(false);
    let resolving = match step.next {
        Next::Resolve(state) => state,
        _ => panic!("an open channel resolves"),
    };
    let step = resolving.answered(Some(set(&[SECOND, THIRD])));
    let step = match step.next {
        Next::Build(state) => {
            assert_eq!(state.address(), SECOND);
            state.built(None)
        }
        _ => panic!("a new address is built"),
    };
    let step = match step.next {
        Next::Build(state) => {
            assert_eq!(state.address(), THIRD);
            let (step, refused) = state.build();
            assert!(refused.is_none());
            step
        }
        _ => panic!("a new address is built"),
    };
    let step = match step.next {
        Next::Send(change, state) => {
            assert_eq!(described(&change), "remove Address(10.0.0.1:50051)");
            state.sent(true)
        }
        _ => panic!("what is gone goes first"),
    };
    let step = match step.next {
        Next::Send(change, state) => {
            assert_eq!(described(&change), "insert Address(10.0.0.3:50051)");
            state.sent(true)
        }
        _ => panic!("what was built comes next"),
    };
    assert_eq!(step.report, Some(false));
    match step.next {
        Next::Sleep(state) => assert_eq!(state.count(), 1),
        _ => panic!("there was nothing else to do"),
    }
}

#[test]
fn an_address_whose_endpoint_was_refused_is_offered_again() {
    // The first time round the endpoint is refused, the second time it is there.
    let step = refresh(target(None), set(&[]), true).woke(false);
    let resolving = match step.next {
        Next::Resolve(state) => state,
        _ => panic!("an open channel resolves"),
    };
    let step = resolving.answered(Some(set(&[FIRST])));
    let asleep = match step.next {
        Next::Build(state) => {
            assert_eq!(state.address(), FIRST);
            match state.built(None).next {
                Next::Sleep(state) => state,
                _ => panic!("there was nothing else to do"),
            }
        }
        _ => panic!("a new address is built"),
    };
    let driven = drive(asleep, 1, false, 8, |_| Some(set(&[FIRST])));
    assert_eq!(
        driven.observed,
        vec![
            "insert Address(10.0.0.1:50051)".to_string(),
            "remove Unresolved".to_string(),
        ]
    );
}

#[test]
fn an_absence_is_reported_as_loudly_as_it_deserves() {
    let never = still_absent(true);
    assert_eq!(never, Absence::NeverResolved);
    assert_eq!(never.level(), Level::Error);
    assert_eq!(never.interval_secs(), Some(5));
    assert_eq!(
        never.message(),
        "the upstream has never resolved; NO endpoint has ever been available and every request \
         to it is failing. This is a missing or unready Service, not a slow one."
    );

    let blip = still_absent(false);
    assert_eq!(blip, Absence::Blip);
    assert_eq!(blip.level(), Level::Warn);
    assert_eq!(blip.interval_secs(), None);
    assert_eq!(
        blip.message(),
        "re-resolution produced nothing; keeping the current endpoints"
    );
}

/// Many ticks, with answers and refusals that follow no pattern: the balancer holds
/// the last answer less what was refused, or what it held where nothing is left of it.
#[test]
fn the_balancer_follows_the_answers_whatever_they_are() {
    let mut seed: u32 = 12345;
    let mut random = move |below: u32| {
        seed = seed.wrapping_mul(1664525).wrapping_add(1013904223);
        (seed >> 16) % below
    };
    let pods: Vec<SocketAddr> = (1..7)
        .map(|last| SocketAddr::V4 { ip: 0x0a00_0000 + last, port: 50051 })
        .collect();

    for _ in 0..40 {
        let mut asleep = refresh(target(None), AddressSet::new(), true);
        let mut held: BTreeSet<String> = BTreeSet::from(["Unresolved".to_string()]);
        let mut served: BTreeSet<String> = BTreeSet::new();
        let mut given = false;
        for _ in 0..25 {
            let mut gauge = false;
            let mut answer: BTreeSet<String> = BTreeSet::new();
            let mut refused: BTreeSet<String> = BTreeSet::new();
            let mut step = asleep.woke(false);
            asleep = loop {
                gauge = step.report.unwrap_or(gauge);
                step = match step.next {
                    Next::Sleep(state) => break state,
                    Next::End(_) => panic!("the channel is there"),
                    Next::Resolve(state) => {
                        if random(4) == 0 {
                            state.answered(None)
                        } else {
                            let some: Vec<SocketAddr> =
                                pods.iter().filter(|_| random(2) == 0).copied().collect();
                            answer = some.iter().map(|pod| pod.text()).collect();
                            state.answered(Some(AddressSet::from_addresses(&some)))
                        }
                    }
                    Next::Build(state) => {
                        let text = state.address().text();
                        if random(3) == 0 {
                            refused.insert(text);
                            state.built(None)
                        } else {
                            let built = endpoint(&text, None, default_request_timeout()).unwrap();
                            state.built(Some(built))
                        }
                    }
                    Next::Send(change, state) => {
                        match change {
                            Change::Insert(Peer::Address(address), built) => {
                                given = true;
                                assert_eq!(
                                    built.uri().to_string(),
                                    format!("http://{}/", address.text())
                                );
                                assert!(held.insert(address.text()));
                            }
                            Change::Insert(Peer::Unresolved, _) => {
                                panic!("the name is not put back");
                            }
                            Change::Remove(Peer::Address(address)) => {
                                assert!(held.remove(&address.text()));
                            }
                            Change::Remove(Peer::Unresolved) => {
                                assert!(held.remove("Unresolved"));
                                assert!(!held.is_empty());
                            }
                        }
                        state.sent(true)
                    }
                };
            };
            let usable: BTreeSet<String> = answer.difference(&refused).cloned().collect();
            if !usable.is_empty() {
                served = usable;
            }
            let mut expected = served.clone();
            if !given {
                expected.insert("Unresolved".to_string());
            }
            assert_eq!(held, expected);
            assert_eq!(asleep.count(), served.len());
            assert_eq!(gauge, served.is_empty());
            assert_eq!(gauge, !given);
            assert!(!held.is_empty());
        }
    }
}

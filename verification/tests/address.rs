//! Addresses, their order, their text, and sets of them.

use yadgar_dial::{AddressSet, SocketAddr};

const LOOPBACK_V6: SocketAddr = SocketAddr::V6 { ip: 1, port: 50051, flowinfo: 0, scope_id: 0 };

fn v4(ip: u32, port: u16) -> SocketAddr {
    SocketAddr::V4 { ip, port }
}

#[test]
fn an_ipv4_address_is_written_in_dotted_decimal() {
    assert_eq!(v4(0x0a00_0001, 50051).text(), "10.0.0.1:50051");
    assert_eq!(v4(0, 0).text(), "0.0.0.0:0");
    assert_eq!(v4(u32::MAX, u16::MAX).text(), "255.255.255.255:65535");
    assert_eq!(v4(0x7f01_0a64, 80).text(), "127.1.10.100:80");
}

#[test]
fn an_ipv6_address_is_written_in_brackets() {
    assert_eq!(LOOPBACK_V6.text(), "[::1]:50051");
    let scoped = SocketAddr::V6 {
        ip: 0xfe80_0000_0000_0000_0000_0000_0000_0001,
        port: 443,
        flowinfo: 0,
        scope_id: 7,
    };
    assert_eq!(scoped.text(), "[fe80::1%7]:443");
}

/// The text is the one that the standard library writes.
#[test]
fn the_text_of_an_address_is_the_usual_one() {
    for ip in [0, 1, 0xffff_0a00_0001, u128::MAX, 0x2001_0db8 << 96] {
        for (port, flowinfo, scope_id) in
            [(0, 0, 0), (443, 9, 0), (65535, 0, 1), (1, 2, u32::MAX)]
        {
            let usual = core::net::SocketAddrV6::new(
                core::net::Ipv6Addr::from(ip),
                port,
                flowinfo,
                scope_id,
            );
            let address = SocketAddr::V6 { ip, port, flowinfo, scope_id };
            assert_eq!(address.text(), usual.to_string());
        }
    }
    for ip in [0, 1, 0x0a00_0001, 0xc0a8_0164, u32::MAX] {
        let usual = core::net::SocketAddrV4::new(core::net::Ipv4Addr::from(ip), 50051);
        assert_eq!(v4(ip, 50051).text(), usual.to_string());
    }
}

#[test]
fn addresses_are_ordered_by_family_then_ip_then_port() {
    assert!(v4(1, 9).precedes(&v4(2, 1)));
    assert!(v4(2, 1).precedes(&v4(2, 2)));
    assert!(!v4(2, 2).precedes(&v4(2, 2)));
    assert!(v4(u32::MAX, u16::MAX).precedes(&LOOPBACK_V6));
    assert!(!LOOPBACK_V6.precedes(&v4(0, 0)));
    let later = SocketAddr::V6 { ip: 1, port: 50051, flowinfo: 1, scope_id: 0 };
    let latest = SocketAddr::V6 { ip: 1, port: 50051, flowinfo: 1, scope_id: 1 };
    assert!(LOOPBACK_V6.precedes(&later));
    assert!(later.precedes(&latest));
    assert!(!latest.precedes(&LOOPBACK_V6));
}

#[test]
fn a_set_keeps_each_member_once_and_in_order() {
    let mut set = AddressSet::from_addresses(&vec![LOOPBACK_V6, v4(2, 1), v4(1, 1), v4(2, 1)]);
    assert_eq!(set.members(), &vec![v4(1, 1), v4(2, 1), LOOPBACK_V6]);
    assert_eq!(set.len(), 3);
    assert!(!set.insert(v4(2, 1)));
    assert!(set.insert(v4(1, 5)));
    assert_eq!(set.members(), &vec![v4(1, 1), v4(1, 5), v4(2, 1), LOOPBACK_V6]);
    assert!(set.remove(&v4(1, 1)));
    assert!(!set.remove(&v4(1, 1)));
    assert!(set.contains(&v4(1, 5)));
    assert!(!set.contains(&v4(1, 1)));
    assert_eq!(set.members(), &vec![v4(1, 5), v4(2, 1), LOOPBACK_V6]);
}

#[test]
fn sets_are_the_same_whatever_order_they_were_made_in() {
    let set = AddressSet::from_addresses(&vec![v4(1, 1), v4(2, 2)]);
    assert!(set.same(&AddressSet::from_addresses(&vec![v4(2, 2), v4(1, 1)])));
    assert!(set.same(&set.clone()));
    assert!(!set.same(&AddressSet::from_addresses(&vec![v4(1, 1)])));
    assert!(!set.same(&AddressSet::from_addresses(&vec![v4(1, 1), v4(2, 3)])));
    assert!(AddressSet::new().is_empty());
    assert!(AddressSet::new().same(&AddressSet::from_addresses(&vec![])));
}

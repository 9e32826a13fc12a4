//! Laws on numerals, on addresses and on their texts.

use vstd::prelude::*;

use crate::address::{ascending_of, lemma_ascending_exists, AddressSet, SocketAddr};
use crate::endpoint::{authority, authority_for};
use crate::resolve::{bounded_lookup, lookup_target, Lookup};
use crate::error::BalanceError;
use crate::system::{ipv6_literal, ipv6_text};
use crate::text::{decimal, decimal_text};

verus! {

/// The number that a numeral stands for.
pub open spec fn number_of(numeral: Seq<char>) -> int
    decreases numeral.len(),
{
    if numeral.len() == 0 {
        0
    } else {
        number_of(numeral.drop_last()) * 10 + (numeral.last() as int - '0' as int)
    }
}

/// A numeral is made of digits, stands for its number, and has no leading zero.
pub proof fn a_numeral_stands_for_its_number(n: nat)
    ensures
        number_of(decimal(n)) == n,
        decimal(n).len() > 0,
        forall|i: int| 0 <= i < decimal(n).len() ==> '0' <= #[trigger] decimal(n)[i] <= '9',
        n > 0 ==> decimal(n)[0] != '0',
        n == 0 ==> decimal(n).len() == 1,
    decreases n,
{
    reveal_with_fuel(number_of, 2);
    if n >= 10 {
        a_numeral_stands_for_its_number(n / 10);
        assert(decimal(n).drop_last() == decimal(n / 10));
    } else {
        assert(decimal(n).drop_last() == Seq::<char>::empty());
    }
}

/// What is written for a number is its numeral.
pub proof fn a_number_is_written_as_its_numeral(n: u64, text: String)
    requires
        call_ensures(decimal_text, (n,), text),
    ensures
        number_of(text@) == n,
        text@.len() > 0,
        forall|i: int| 0 <= i < text@.len() ==> '0' <= #[trigger] text@[i] <= '9',
        n > 0 ==> text@[0] != '0',
{
    a_numeral_stands_for_its_number(n as nat);
}

/// An IPv4 address is written octet by octet.
pub proof fn an_ipv4_address_is_written_by_its_octets(
    a: u8,
    b: u8,
    c: u8,
    d: u8,
    ip: u32,
    port: u16,
    text: String,
)
    requires
        ip == a * 16777216 + b * 65536 + c * 256 + d,
        call_ensures(SocketAddr::text, (&SocketAddr::V4 { ip, port },), text),
    ensures
        text@ == decimal(a as nat) + "."@ + decimal(b as nat) + "."@ + decimal(c as nat) + "."@
            + decimal(d as nat) + ":"@ + decimal(port as nat),
{
    lemma_octets(a as nat, b as nat, c as nat, d as nat);
}

/// The octets of an IPv4 address, taken apart again.
pub proof fn lemma_octets(a: nat, b: nat, c: nat, d: nat)
    requires
        a < 256,
        b < 256,
        c < 256,
        d < 256,
    ensures
        (a * 16777216 + b * 65536 + c * 256 + d) / 16777216 == a,
        (a * 16777216 + b * 65536 + c * 256 + d) / 65536 % 256 == b,
        (a * 16777216 + b * 65536 + c * 256 + d) / 256 % 256 == c,
        (a * 16777216 + b * 65536 + c * 256 + d) % 256 == d,
{
    let ip = a * 16777216 + b * 65536 + c * 256 + d;
    assert(ip / 65536 == a * 256 + b);
    assert(ip / 256 == a * 65536 + b * 256 + c);
}

/// An IPv6 address is written in brackets, with its scope where that is not 0.
pub proof fn an_ipv6_address_is_written_in_brackets(
    ip: u128,
    port: u16,
    flowinfo: u32,
    scope_id: u32,
    text: String,
)
    requires
        call_ensures(
            SocketAddr::text,
            (&SocketAddr::V6 { ip, port, flowinfo, scope_id },),
            text,
        ),
    ensures
        scope_id == 0 ==> text@ == "["@ + ipv6_text(ip) + "]:"@ + decimal(port as nat),
        scope_id != 0 ==> text@ == "["@ + ipv6_text(ip) + "%"@ + decimal(scope_id as nat) + "]:"@
            + decimal(port as nat),
{
    assert("["@ + ipv6_text(ip) + Seq::<char>::empty() == "["@ + ipv6_text(ip));
    assert("["@ + ipv6_text(ip) + ("%"@ + decimal(scope_id as nat)) == "["@ + ipv6_text(ip) + "%"@
        + decimal(scope_id as nat));
}

/// The place of an address among all addresses.
pub open spec fn rank(address: SocketAddr) -> int {
    match address {
        SocketAddr::V4 { ip, port } => ip * 65536 + port - 281474976710656,
        SocketAddr::V6 { ip, port, flowinfo, scope_id } => ((ip * 65536 + port) * 4294967296
            + flowinfo) * 4294967296 + scope_id,
    }
}

/// Addresses are ordered by their place: IPv4 before IPv6, then by the number of the IP
/// address, the port, the flow information and the scope.
pub proof fn addresses_are_ordered_by_their_place(a: SocketAddr, b: SocketAddr)
    ensures
        a.before(b) <==> rank(a) < rank(b),
        rank(a) == rank(b) <==> a == b,
{
}

/// What compares two addresses compares their places.
pub proof fn the_first_of_two_addresses_precedes(a: SocketAddr, b: SocketAddr, res: bool)
    requires
        call_ensures(SocketAddr::precedes, (&a, &b), res),
    ensures
        res <==> rank(a) < rank(b),
{
    addresses_are_ordered_by_their_place(a, b);
}

/// The members of a set are walked in the order of their places, each of them once.
pub proof fn a_set_is_walked_in_order(set: Set<SocketAddr>)
    requires
        set.finite(),
    ensures
        forall|a: SocketAddr| #[trigger] ascending_of(set).contains(a) <==> set.contains(a),
        forall|i: int, j: int|
            0 <= i < j < ascending_of(set).len() ==> rank(#[trigger] ascending_of(set)[i]) < rank(
                #[trigger] ascending_of(set)[j],
            ),
        ascending_of(set).len() == set.len(),
{
    let items = ascending_of(set);
    lemma_ascending_exists(set);
    assert forall|a: SocketAddr| #[trigger] items.contains(a) <==> set.contains(a) by {
        assert(items.contains(a) == items.to_set().contains(a));
    }
    assert forall|i: int, j: int| 0 <= i < j < items.len() implies rank(#[trigger] items[i])
        < rank(#[trigger] items[j]) by {
        addresses_are_ordered_by_their_place(items[i], items[j]);
        assert(items[i].before(items[j]));
    }
    assert(items.no_duplicates()) by {
        assert forall|i: int, j: int| 0 <= i < j < items.len() implies items[i] != items[j] by {
            assert(rank(items[i]) < rank(items[j]));
        }
    }
    items.unique_seq_to_set();
}

/// The members that a set hands out are its members, in the order of their places.
pub proof fn the_members_of_a_set_are_in_order(set: AddressSet, members: &Vec<SocketAddr>)
    requires
        call_ensures(AddressSet::members, (&set,), members),
    ensures
        forall|a: SocketAddr| #[trigger] members@.contains(a) <==> set@.contains(a),
        forall|i: int, j: int|
            0 <= i < j < members@.len() ==> rank(#[trigger] members@[i]) < rank(
                #[trigger] members@[j],
            ),
{
    assert forall|a: SocketAddr| #[trigger] members@.contains(a) <==> set@.contains(a) by {
        assert(members@.contains(a) == members@.to_set().contains(a));
    }
    assert forall|i: int, j: int| 0 <= i < j < members@.len() implies rank(#[trigger] members@[i])
        < rank(#[trigger] members@[j]) by {
        addresses_are_ordered_by_their_place(members@[i], members@[j]);
        assert(members@[i].before(members@[j]));
    }
}

/// An authority is the host and the port, and an IPv6 literal is put in brackets.
pub proof fn an_authority_is_the_host_and_the_port(host: &str, port: u16, res: String)
    requires
        call_ensures(authority, (host, port), res),
    ensures
        ipv6_literal(host@) is None ==> res@ == host@ + ":"@ + decimal(port as nat),
        ipv6_literal(host@) matches Some(ip) ==> res@ == "["@ + ipv6_text(ip) + "]:"@ + decimal(
            port as nat,
        ),
{
}

/// An authority is the host and the port, and a literal stands in brackets in place of
/// the host.
pub proof fn a_literal_stands_in_brackets(
    host: &str,
    literal: Option<&str>,
    port: u16,
    res: String,
)
    requires
        call_ensures(authority_for, (host, literal, port), res),
    ensures
        literal is None ==> res@ == host@ + ":"@ + decimal(port as nat),
        literal matches Some(text) ==> res@ == "["@ + text@ + "]:"@ + decimal(port as nat),
{
}

/// A resolver is asked for the host as it is, with the port.
pub proof fn a_resolver_is_asked_for_the_host(host: &str, port: u16, res: String)
    requires
        call_ensures(lookup_target, (host, port), res),
    ensures
        res@ == host@ + ":"@ + decimal(port as nat),
{
}

/// A lookup that answers gives exactly the addresses of the answer; one that fails or
/// runs out of time gives an error of its own, which names what was looked up.
pub proof fn a_lookup_gives_what_was_answered(
    target: String,
    lookup: Lookup,
    res: Result<AddressSet, BalanceError>,
)
    requires
        call_ensures(bounded_lookup, (target, lookup), res),
    ensures
        lookup matches Lookup::Answered(addresses) ==> (res matches Ok(set) && forall|a: SocketAddr|
            #[trigger] set@.contains(a) <==> addresses@.contains(a)),
        lookup matches Lookup::Failed(source) ==> res == Err::<AddressSet, BalanceError>(
            BalanceError::Dns { host: target, source },
        ),
        lookup is TimedOut ==> (res matches Err(BalanceError::DnsTimedOut { host, .. }) && host
            == target),
{
}

} // verus!

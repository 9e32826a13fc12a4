//! Socket addresses, and ordered sets of them.

use vstd::prelude::*;
use vstd::string::*;

use crate::system::{display_ipv6, ipv6_text};
use crate::text::{decimal, decimal_text};

verus! {

/// The address of one pod: an IP address and a port.
///
/// `ip` is the address as one number, most significant octet first.
#[derive(Clone, Copy, PartialEq, Eq, Hash, Debug, Structural)]
pub enum SocketAddr {
    /// An IPv4 address.
    V4 {
        /// The four octets.
        ip: u32,
        /// The port.
        port: u16,
    },
    /// An IPv6 address.
    V6 {
        /// The sixteen octets.
        ip: u128,
        /// The port.
        port: u16,
        /// The flow information.
        flowinfo: u32,
        /// The scope identifier.
        scope_id: u32,
    },
}

impl SocketAddr {
    /// The order in which addresses are walked: IPv4 first, then by IP address,
    /// port, flow information and scope.
    pub open spec fn before(self, other: SocketAddr) -> bool {
        match (self, other) {
            (SocketAddr::V4 { ip: a, port: p }, SocketAddr::V4 { ip: b, port: q }) => a < b || (a
                == b && p < q),
            (SocketAddr::V4 { .. }, SocketAddr::V6 { .. }) => true,
            (SocketAddr::V6 { .. }, SocketAddr::V4 { .. }) => false,
            (
                SocketAddr::V6 { ip: a, port: p, flowinfo: f, scope_id: s },
                SocketAddr::V6 { ip: b, port: q, flowinfo: g, scope_id: t },
            ) => a < b || (a == b && (p < q || (p == q && (f < g || (f == g && s < t))))),
        }
    }

    /// Whether `self` comes before `other`.
    pub fn precedes(&self, other: &SocketAddr) -> (res: bool)
        ensures
            res == self.before(*other),
    {
        match (*self, *other) {
            (SocketAddr::V4 { ip: a, port: p }, SocketAddr::V4 { ip: b, port: q }) => a < b || (a
                == b && p < q),
            (SocketAddr::V4 { .. }, SocketAddr::V6 { .. }) => true,
            (SocketAddr::V6 { .. }, SocketAddr::V4 { .. }) => false,
            (
                SocketAddr::V6 { ip: a, port: p, flowinfo: f, scope_id: s },
                SocketAddr::V6 { ip: b, port: q, flowinfo: g, scope_id: t },
            ) => a < b || (a == b && (p < q || (p == q && (f < g || (f == g && s < t))))),
        }
    }
}

/// The four octets of an IPv4 address in dotted decimal.
pub open spec fn dotted(ip: u32) -> Seq<char> {
    decimal(ip as nat / 16777216) + "."@ + decimal(ip as nat / 65536 % 256) + "."@ + decimal(
        ip as nat / 256 % 256,
    ) + "."@ + decimal(ip as nat % 256)
}

/// The scope of an IPv6 address behind it, where it has one.
pub open spec fn scope_text(scope_id: u32) -> Seq<char> {
    if scope_id == 0 {
        Seq::empty()
    } else {
        "%"@ + decimal(scope_id as nat)
    }
}

impl SocketAddr {
    /// The address as text: the IP address and the port, and an IPv6 address in
    /// brackets, with its scope where that is not 0.
    pub open spec fn spec_text(self) -> Seq<char> {
        match self {
            SocketAddr::V4 { ip, port } => dotted(ip) + ":"@ + decimal(port as nat),
            SocketAddr::V6 { ip, port, scope_id, .. } => "["@ + ipv6_text(ip) + scope_text(scope_id)
                + "]:"@ + decimal(port as nat),
        }
    }

    /// The address as text, in the form that a URI can hold.
    pub fn text(&self) -> (res: String)
        ensures
            res@ == self.spec_text(),
    {
        match *self {
            SocketAddr::V4 { ip, port } => {
                let ip = ip as u64;
                decimal_text(ip / 16777216).concat(".").concat(
                    decimal_text(ip / 65536 % 256).as_str(),
                ).concat(".").concat(decimal_text(ip / 256 % 256).as_str()).concat(".").concat(
                    decimal_text(ip % 256).as_str(),
                ).concat(":").concat(decimal_text(port as u64).as_str())
            },
            SocketAddr::V6 { ip, port, scope_id, .. } => {
                let bracketed = "[".to_owned().concat(display_ipv6(ip).as_str());
                let scoped = if scope_id == 0 {
                    assert(bracketed@ + Seq::<char>::empty() == bracketed@);
                    bracketed
                } else {
                    let scope = "%".to_owned().concat(decimal_text(scope_id as u64).as_str());
                    bracketed.concat(scope.as_str())
                };
                scoped.concat("]:").concat(decimal_text(port as u64).as_str())
            },
        }
    }
}

/// Each item of `items` comes before all that follow it.
pub open spec fn is_ascending(items: Seq<SocketAddr>) -> bool {
    forall|i: int, j: int| 0 <= i < j < items.len() ==> items[i].before(items[j])
}

/// The members of `set` from the first to the last.
pub open spec fn ascending_of(set: Set<SocketAddr>) -> Seq<SocketAddr> {
    choose|items: Seq<SocketAddr>| is_ascending(items) && #[trigger] items.to_set() == set
}

/// A set has only one ascending sequence.
pub proof fn lemma_ascending_unique(a: Seq<SocketAddr>, b: Seq<SocketAddr>)
    requires
        is_ascending(a),
        is_ascending(b),
        a.to_set() == b.to_set(),
    ensures
        a == b,
    decreases a.len(),
{
    if a.len() == 0 {
        if b.len() > 0 {
            assert(b.to_set().contains(b[0]));
            assert(a.contains(b[0]));
        }
        assert(a == b);
    } else {
        assert(a.to_set().contains(a.last()));
        assert(b.contains(a.last()));
        assert(b.to_set().contains(b.last()));
        assert(a.contains(b.last()));
        let i = choose|i: int| 0 <= i < a.len() && a[i] == b.last();
        let j = choose|j: int| 0 <= j < b.len() && b[j] == a.last();
        assert(i < a.len() - 1 ==> a[i].before(a[a.len() - 1]));
        assert(j < b.len() - 1 ==> b[j].before(b[b.len() - 1]));
        assert(a.last() == b.last());
        let ta = a.drop_last();
        let tb = b.drop_last();
        assert forall|x: SocketAddr| ta.to_set().contains(x) == tb.to_set().contains(x) by {
            lemma_drop_last_members(a, x);
            lemma_drop_last_members(b, x);
            assert(a.to_set().contains(x) == b.to_set().contains(x));
        }
        assert(ta.to_set() =~= tb.to_set());
        lemma_ascending_unique(ta, tb);
        assert(a == ta.push(a.last()));
        assert(b == tb.push(b.last()));
    }
}

proof fn lemma_drop_last_members(a: Seq<SocketAddr>, x: SocketAddr)
    requires
        is_ascending(a),
        a.len() > 0,
    ensures
        a.drop_last().to_set().contains(x) == (a.to_set().contains(x) && x != a.last()),
{
    let t = a.drop_last();
    if t.contains(x) {
        let i = choose|i: int| 0 <= i < t.len() && t[i] == x;
        assert(a[i] == x);
        assert(a[i].before(a[a.len() - 1]));
    }
    if a.contains(x) && x != a.last() {
        let i = choose|i: int| 0 <= i < a.len() && a[i] == x;
        assert(t[i] == x);
    }
}

/// The ascending sequence of a set is the one that `ascending_of` names.
pub proof fn lemma_ascending_of(items: Seq<SocketAddr>)
    requires
        is_ascending(items),
    ensures
        ascending_of(items.to_set()) == items,
{
    let set = items.to_set();
    assert(is_ascending(items) && items.to_set() == set);
    lemma_ascending_unique(ascending_of(set), items);
}

/// A set has finitely many members.
pub proof fn lemma_set_finite(set: AddressSet)
    ensures
        set@.finite(),
{
    vstd::seq_lib::seq_to_set_is_finite(set.items@);
}

/// Every finite set has an ascending sequence.
pub proof fn lemma_ascending_exists(set: Set<SocketAddr>)
    requires
        set.finite(),
    ensures
        is_ascending(ascending_of(set)),
        ascending_of(set).to_set() == set,
    decreases set.len(),
{
    if set.is_empty() {
        let none = Seq::<SocketAddr>::empty();
        assert(none.to_set() =~= set);
        lemma_ascending_of(none);
    } else {
        let address = set.choose();
        let rest = set.remove(address);
        lemma_ascending_exists(rest);
        let items = ascending_of(rest);
        assert(!items.contains(address)) by {
            assert(!items.to_set().contains(address));
        }
        let at = lemma_place_of(items, address);
        lemma_insert_members(items, at, address);
        assert(items.insert(at, address).to_set() =~= set);
        lemma_ascending_of(items.insert(at, address));
    }
}

/// Where a new address belongs in an ascending sequence.
proof fn lemma_place_of(items: Seq<SocketAddr>, address: SocketAddr) -> (at: int)
    requires
        is_ascending(items),
        !items.contains(address),
    ensures
        0 <= at <= items.len(),
        forall|j: int| 0 <= j < at ==> items[j].before(address),
        forall|j: int| at <= j < items.len() ==> address.before(items[j]),
    decreases items.len(),
{
    if items.len() == 0 {
        0
    } else if items.last().before(address) {
        assert forall|j: int| 0 <= j < items.len() implies items[j].before(address) by {
            if j < items.len() - 1 {
                assert(items[j].before(items[items.len() - 1]));
            }
        }
        items.len() as int
    } else {
        let rest = items.drop_last();
        assert(!rest.contains(address)) by {
            if rest.contains(address) {
                let j = choose|j: int| 0 <= j < rest.len() && rest[j] == address;
                assert(items[j] == address);
            }
        }
        let at = lemma_place_of(rest, address);
        assert(items.contains(items.last()));
        assert forall|j: int| 0 <= j < at implies items[j].before(address) by {
            assert(rest[j] == items[j]);
        }
        assert forall|j: int| at <= j < items.len() implies address.before(items[j]) by {
            if j < rest.len() {
                assert(rest[j] == items[j]);
            }
        }
        at
    }
}

/// A set of addresses, kept in ascending order.
#[derive(Debug)]
pub struct AddressSet {
    items: Vec<SocketAddr>,
}

impl View for AddressSet {
    type V = Set<SocketAddr>;

    closed spec fn view(&self) -> Set<SocketAddr> {
        self.items@.to_set()
    }
}

impl AddressSet {
    #[verifier::type_invariant]
    closed spec fn wf(self) -> bool {
        is_ascending(self.items@)
    }

    /// The set with no member.
    pub fn new() -> (res: AddressSet)
        ensures
            res@ == Set::<SocketAddr>::empty(),
    {
        let items: Vec<SocketAddr> = Vec::new();
        assert(items@.to_set() =~= Set::empty());
        AddressSet { items }
    }

    /// The set of all that `addresses` lists, in whatever order and however often.
    pub fn from_addresses(addresses: &Vec<SocketAddr>) -> (res: AddressSet)
        ensures
            res@ == addresses@.to_set(),
    {
        let mut res = AddressSet::new();
        let mut i: usize = 0;
        while i < addresses.len()
            invariant
                i <= addresses.len(),
                res@ == addresses@.take(i as int).to_set(),
            decreases addresses.len() - i,
        {
            res.insert(addresses[i]);
            assert(addresses@.take(i + 1) == addresses@.take(i as int).push(addresses[i as int]));
            assert(addresses@.take(i + 1).to_set() =~= addresses@.take(i as int).to_set().insert(
                addresses[i as int],
            )) by {
                lemma_push_members(addresses@.take(i as int), addresses[i as int]);
            }
            i = i + 1;
        }
        assert(addresses@.take(i as int) == addresses@);
        res
    }
}

pub(crate) proof fn lemma_push_members(s: Seq<SocketAddr>, a: SocketAddr)
    ensures
        s.push(a).to_set() == s.to_set().insert(a),
{
    assert forall|x: SocketAddr| s.push(a).to_set().contains(x) == s.to_set().insert(a).contains(
        x,
    ) by {
        if s.contains(x) {
            let i = choose|i: int| 0 <= i < s.len() && s[i] == x;
            assert(s.push(a)[i] == x);
        }
        assert(s.push(a)[s.len() as int] == a);
    }
    assert(s.push(a).to_set() =~= s.to_set().insert(a));
}

impl AddressSet {
    /// How many members there are.
    pub fn len(&self) -> (res: usize)
        ensures
            res == self@.len(),
            self@.finite(),
    {
        proof {
            use_type_invariant(self);
            lemma_ascending_len(self.items@);
        }
        self.items.len()
    }

    /// Whether there is no member.
    pub fn is_empty(&self) -> (res: bool)
        ensures
            res == self@.is_empty(),
            res == (self@ == Set::<SocketAddr>::empty()),
    {
        proof {
            if self.items@.len() > 0 {
                assert(self@.contains(self.items@[0]));
            } else {
                assert(self@ =~= Set::empty());
            }
        }
        self.items.len() == 0
    }

    /// The members, from the first to the last.
    pub fn members(&self) -> (res: &Vec<SocketAddr>)
        ensures
            res@ == ascending_of(self@),
            is_ascending(res@),
            res@.to_set() == self@,
            res@.len() == self@.len(),
    {
        proof {
            use_type_invariant(self);
            lemma_ascending_of(self.items@);
            lemma_ascending_len(self.items@);
        }
        &self.items
    }

    /// Whether `address` is a member.
    pub fn contains(&self, address: &SocketAddr) -> (res: bool)
        ensures
            res == self@.contains(*address),
    {
        let mut i: usize = 0;
        while i < self.items.len()
            invariant
                i <= self.items.len(),
                forall|j: int| 0 <= j < i ==> self.items@[j] != *address,
            decreases self.items.len() - i,
        {
            if self.items[i] == *address {
                assert(self.items@.contains(*address));
                return true;
            }
            i = i + 1;
        }
        false
    }

    /// Whether every member is one of `addresses`.
    pub fn within(&self, addresses: &Vec<SocketAddr>) -> (res: bool)
        ensures
            res == self@.subset_of(addresses@.to_set()),
    {
        let others = AddressSet::from_addresses(addresses);
        let mut i: usize = 0;
        while i < self.items.len()
            invariant
                i <= self.items.len(),
                others@ == addresses@.to_set(),
                forall|j: int| 0 <= j < i ==> others@.contains(#[trigger] self.items@[j]),
            decreases self.items.len() - i,
        {
            if !others.contains(&self.items[i]) {
                assert(self@.contains(self.items@[i as int]));
                return false;
            }
            i = i + 1;
        }
        true
    }

    /// Whether `self` and `other` have the same members.
    pub fn same(&self, other: &AddressSet) -> (res: bool)
        ensures
            res == (self@ == other@),
    {
        proof {
            use_type_invariant(self);
            use_type_invariant(other);
            if self@ == other@ {
                lemma_ascending_unique(self.items@, other.items@);
            }
        }
        if self.items.len() != other.items.len() {
            return false;
        }
        let mut i: usize = 0;
        while i < self.items.len()
            invariant
                i <= self.items.len(),
                self.items.len() == other.items.len(),
                self@ == other@ ==> self.items@ == other.items@,
                forall|j: int| 0 <= j < i ==> self.items@[j] == other.items@[j],
            decreases self.items.len() - i,
        {
            if self.items[i] != other.items[i] {
                return false;
            }
            i = i + 1;
        }
        assert(self.items@ =~= other.items@);
        true
    }

    /// Adds `address`. Returns whether it was absent.
    pub fn insert(&mut self, address: SocketAddr) -> (res: bool)
        ensures
            final(self)@ == old(self)@.insert(address),
            res == !old(self)@.contains(address),
    {
        proof {
            use_type_invariant(&*self);
        }
        let ghost before = self.items@;
        let mut at: usize = 0;
        while at < self.items.len() && self.items[at].precedes(&address)
            invariant
                at <= self.items.len(),
                self.items@ == before,
                is_ascending(before),
                forall|j: int| 0 <= j < at ==> before[j].before(address),
            decreases self.items.len() - at,
        {
            at = at + 1;
        }
        if at < self.items.len() && self.items[at] == address {
            proof {
                assert(before.contains(address));
                assert(before.to_set() =~= before.to_set().insert(address));
            }
            return false;
        }
        proof {
            if at < before.len() {
                assert(address.before(before[at as int]));
            }
            assert forall|j: int| at <= j < before.len() implies address.before(before[j]) by {
                if j > at {
                    assert(before[at as int].before(before[j]));
                }
            }
            assert(!before.contains(address));
        }
        let mut items: Vec<SocketAddr> = Vec::new();
        std::mem::swap(&mut items, &mut self.items);
        items.insert(at, address);
        proof {
            assert(items@ == before.insert(at as int, address));
            lemma_insert_members(before, at as int, address);
        }
        self.items = items;
        true
    }

    /// Takes `address` out. Returns whether it was a member.
    pub fn remove(&mut self, address: &SocketAddr) -> (res: bool)
        ensures
            final(self)@ == old(self)@.remove(*address),
            res == old(self)@.contains(*address),
    {
        proof {
            use_type_invariant(&*self);
        }
        let ghost before = self.items@;
        let mut at: usize = 0;
        while at < self.items.len() && self.items[at] != *address
            invariant
                at <= self.items.len(),
                self.items@ == before,
                is_ascending(before),
                forall|j: int| 0 <= j < at ==> before[j] != *address,
            decreases self.items.len() - at,
        {
            at = at + 1;
        }
        if at == self.items.len() {
            proof {
                assert(!before.contains(*address));
                assert(before.to_set() =~= before.to_set().remove(*address));
            }
            return false;
        }
        let mut items: Vec<SocketAddr> = Vec::new();
        std::mem::swap(&mut items, &mut self.items);
        items.remove(at);
        proof {
            assert(items@ == before.remove(at as int));
            lemma_remove_members(before, at as int);
        }
        self.items = items;
        true
    }
}

impl Clone for AddressSet {
    fn clone(&self) -> (res: AddressSet)
        ensures
            res@ == self@,
    {
        proof {
            use_type_invariant(self);
        }
        let mut items: Vec<SocketAddr> = Vec::new();
        let mut i: usize = 0;
        while i < self.items.len()
            invariant
                i <= self.items.len(),
                items@ == self.items@.take(i as int),
            decreases self.items.len() - i,
        {
            items.push(self.items[i]);
            assert(self.items@.take(i + 1) == self.items@.take(i as int).push(
                self.items@[i as int],
            ));
            i = i + 1;
        }
        assert(items@ == self.items@);
        AddressSet { items }
    }
}

proof fn lemma_ascending_len(s: Seq<SocketAddr>)
    requires
        is_ascending(s),
    ensures
        s.to_set().len() == s.len(),
        s.to_set().finite(),
{
    assert(s.no_duplicates()) by {
        assert forall|i: int, j: int| 0 <= i < j < s.len() implies s[i] != s[j] by {
            assert(s[i].before(s[j]));
        }
    }
    s.unique_seq_to_set();
}

proof fn lemma_insert_members(s: Seq<SocketAddr>, at: int, a: SocketAddr)
    requires
        is_ascending(s),
        0 <= at <= s.len(),
        forall|j: int| 0 <= j < at ==> s[j].before(a),
        forall|j: int| at <= j < s.len() ==> a.before(s[j]),
    ensures
        is_ascending(s.insert(at, a)),
        s.insert(at, a).to_set() == s.to_set().insert(a),
{
    let t = s.insert(at, a);
    assert forall|i: int, j: int| 0 <= i < j < t.len() implies t[i].before(t[j]) by {
        let p = if i < at {
            i
        } else {
            i - 1
        };
        let q = if j < at {
            j
        } else {
            j - 1
        };
        if i != at && j != at {
            assert(s[p].before(s[q]));
        }
    }
    assert forall|x: SocketAddr| t.to_set().contains(x) == s.to_set().insert(a).contains(x) by {
        if t.contains(x) {
            let i = choose|i: int| 0 <= i < t.len() && t[i] == x;
            if i < at {
                assert(s[i] == x);
            } else if i > at {
                assert(s[i - 1] == x);
            }
        }
        if s.contains(x) {
            let i = choose|i: int| 0 <= i < s.len() && s[i] == x;
            if i < at {
                assert(t[i] == x);
            } else {
                assert(t[i + 1] == x);
            }
        }
        assert(t[at] == a);
    }
    assert(t.to_set() =~= s.to_set().insert(a));
}

proof fn lemma_remove_members(s: Seq<SocketAddr>, at: int)
    requires
        is_ascending(s),
        0 <= at < s.len(),
    ensures
        is_ascending(s.remove(at)),
        s.remove(at).to_set() == s.to_set().remove(s[at]),
        s.contains(s[at]),
{
    let t = s.remove(at);
    assert forall|i: int, j: int| 0 <= i < j < t.len() implies t[i].before(t[j]) by {
        let p = if i < at {
            i
        } else {
            i + 1
        };
        let q = if j < at {
            j
        } else {
            j + 1
        };
        assert(s[p].before(s[q]));
    }
    assert forall|x: SocketAddr| t.to_set().contains(x) == s.to_set().remove(s[at]).contains(
        x,
    ) by {
        if t.contains(x) {
            let i = choose|i: int| 0 <= i < t.len() && t[i] == x;
            if i < at {
                assert(s[i] == x);
                assert(s[i].before(s[at]));
            } else {
                assert(s[i + 1] == x);
                assert(s[at].before(s[i + 1]));
            }
        }
        if s.contains(x) && x != s[at] {
            let i = choose|i: int| 0 <= i < s.len() && s[i] == x;
            if i < at {
                assert(t[i] == x);
            } else {
                assert(t[i - 1] == x);
            }
        }
    }
    assert(t.to_set() =~= s.to_set().remove(s[at]));
}

} // verus!

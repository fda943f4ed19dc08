//! Choosing the network interface and addresses that a service announces.
//!
//! The caller lists the interfaces of the machine; this module chooses
//! among them.

use vstd::prelude::*;
use vstd::string::*;

verus! {

/// An IP address: IPv4 as its 32 bits, IPv6 as its 128 bits, both in
/// network order. Addresses are ordered as `std::net::IpAddr` orders them:
/// every IPv4 address before every IPv6 address, and by value within each.
#[derive(Debug, Clone, Copy, PartialEq, Eq, Structural)]
pub enum IpAddress {
    V4(u32),
    V6(u128),
}

/// `a` comes strictly before `b`, character by character, a proper prefix
/// first. For strings this is the order of their UTF-8 bytes, which is how
/// `String` is ordered.
pub open spec fn text_lt(a: Seq<char>, b: Seq<char>) -> bool
    decreases a.len(),
{
    if a.len() == 0 {
        b.len() > 0
    } else if b.len() == 0 {
        false
    } else if a[0] != b[0] {
        (a[0] as u32) < (b[0] as u32)
    } else {
        text_lt(a.drop_first(), b.drop_first())
    }
}

/// `a` comes strictly before `b` in the order of `std::net::IpAddr`.
pub open spec fn ip_lt(a: IpAddress, b: IpAddress) -> bool {
    match (a, b) {
        (IpAddress::V4(x), IpAddress::V4(y)) => x < y,
        (IpAddress::V4(_), IpAddress::V6(_)) => true,
        (IpAddress::V6(_), IpAddress::V4(_)) => false,
        (IpAddress::V6(x), IpAddress::V6(y)) => x < y,
    }
}

/// `a` comes at or before `b` in the order of `(String, IpAddr)`.
pub open spec fn iface_le(a: (Seq<char>, IpAddress), b: (Seq<char>, IpAddress)) -> bool {
    text_lt(a.0, b.0) || (a.0 == b.0 && (a.1 == b.1 || ip_lt(a.1, b.1)))
}

/// The first octet of an IPv4 address.
pub open spec fn octet0(addr: u32) -> int {
    addr as int / 0x100_0000
}

/// The second octet of an IPv4 address.
pub open spec fn octet1(addr: u32) -> int {
    (addr as int / 0x1_0000) % 0x100
}

/// A private IPv4 address, as `Ipv4Addr::is_private` defines it:
/// `10.0.0.0/8`, `172.16.0.0/12` or `192.168.0.0/16`.
pub open spec fn is_private_v4(addr: u32) -> bool {
    ||| octet0(addr) == 10
    ||| octet0(addr) == 172 && 16 <= octet1(addr) < 32
    ||| octet0(addr) == 192 && octet1(addr) == 168
}

/// Whether an IPv4 address is private.
pub fn is_private(addr: u32) -> (r: bool)
    ensures
        r == is_private_v4(addr),
{
    let a = addr / 0x100_0000;
    let b = (addr / 0x1_0000) % 0x100;
    a == 10 || (a == 172 && 16 <= b && b < 32) || (a == 192 && b == 168)
}

/// The view of an interface entry.
pub open spec fn iface_view(e: (String, IpAddress)) -> (Seq<char>, IpAddress) {
    (e.0@, e.1)
}

/// An interface of the local network: its name starts with `en` and its
/// address is a private IPv4 address.
pub open spec fn is_local_network_iface(e: (Seq<char>, IpAddress)) -> bool {
    &&& e.0.len() >= 2 && e.0[0] == 'e' && e.0[1] == 'n'
    &&& e.1 matches IpAddress::V4(a) && is_private_v4(a)
}

/// The Thunderbolt bridge interface: named `bridge0`, with an IPv4 address.
pub open spec fn is_bridge_iface(e: (Seq<char>, IpAddress)) -> bool {
    e.0 == "bridge0"@ && e.1 is V4
}

/// The private IPv4 addresses are exactly the three blocks `10.0.0.0/8`,
/// `172.16.0.0/12` and `192.168.0.0/16`; an interface of the local network
/// is one whose name starts with `en` and whose IPv4 address lies in one of
/// them.
pub proof fn lemma_private_blocks(addr: u32, e: (Seq<char>, IpAddress))
    ensures
        is_private_v4(addr) <==> {
            ||| 0x0A00_0000 <= addr <= 0x0AFF_FFFF
            ||| 0xAC10_0000 <= addr <= 0xAC1F_FFFF
            ||| 0xC0A8_0000 <= addr <= 0xC0A8_FFFF
        },
        is_local_network_iface(e) <==> {
            &&& e.0.len() >= 2 && e.0[0] == 'e' && e.0[1] == 'n'
            &&& e.1 matches IpAddress::V4(a) && {
                ||| 0x0A00_0000 <= a <= 0x0AFF_FFFF
                ||| 0xAC10_0000 <= a <= 0xAC1F_FFFF
                ||| 0xC0A8_0000 <= a <= 0xC0A8_FFFF
            }
        },
{
    lemma_private_octets(addr);
    match e.1 {
        IpAddress::V4(a) => lemma_private_octets(a),
        IpAddress::V6(_) => {},
    }
}

/// The octets of an IPv4 address place it in the private blocks.
proof fn lemma_private_octets(addr: u32)
    ensures
        octet0(addr) == 10 <==> 0x0A00_0000 <= addr <= 0x0AFF_FFFF,
        octet0(addr) == 172 && 16 <= octet1(addr) < 32 <==> 0xAC10_0000 <= addr <= 0xAC1F_FFFF,
        octet0(addr) == 192 && octet1(addr) == 168 <==> 0xC0A8_0000 <= addr <= 0xC0A8_FFFF,
{
    let a = addr as int;
    let q = a / 0x1_0000;
    assert(a == q * 0x1_0000 + a % 0x1_0000 && 0 <= a % 0x1_0000 < 0x1_0000) by (nonlinear_arith)
        requires
            q == a / 0x1_0000,
            a >= 0,
    ;
    assert(a / 0x100_0000 == q / 0x100) by (nonlinear_arith)
        requires
            q == a / 0x1_0000,
            a >= 0,
    {
        vstd::arithmetic::div_mod::lemma_div_denominator(a, 0x1_0000, 0x100);
    }
    assert(q >= 0 && q < 0x1_0000) by (nonlinear_arith)
        requires
            q == a / 0x1_0000,
            0 <= a < 0x1_0000_0000,
    ;
    assert(q == (q / 0x100) * 0x100 + q % 0x100 && 0 <= q % 0x100 < 0x100) by (nonlinear_arith)
        requires
            q >= 0,
    ;
}

proof fn lemma_text_lt_irreflexive(a: Seq<char>)
    ensures
        !text_lt(a, a),
    decreases a.len(),
{
    if a.len() > 0 {
        lemma_text_lt_irreflexive(a.drop_first());
    }
}

proof fn lemma_text_lt_total(a: Seq<char>, b: Seq<char>)
    ensures
        a == b || text_lt(a, b) || text_lt(b, a),
    decreases a.len(),
{
    if a.len() > 0 && b.len() > 0 && a[0] == b[0] {
        lemma_text_lt_total(a.drop_first(), b.drop_first());
        if a.drop_first() == b.drop_first() {
            assert(a =~= seq![a[0]] + a.drop_first());
            assert(b =~= seq![b[0]] + b.drop_first());
        }
    } else if a.len() == 0 && b.len() == 0 {
        assert(a =~= b);
    } else if a.len() > 0 && b.len() > 0 {
        vstd::utf8::char_u32_cast(a[0], a[0] as u32);
        vstd::utf8::char_u32_cast(b[0], b[0] as u32);
        assert((a[0] as u32) != (b[0] as u32));
    }
}

proof fn lemma_text_lt_transitive(a: Seq<char>, b: Seq<char>, c: Seq<char>)
    requires
        text_lt(a, b),
        text_lt(b, c),
    ensures
        text_lt(a, c),
    decreases a.len(),
{
    if a.len() > 0 && a[0] == b[0] && b[0] == c[0] {
        lemma_text_lt_transitive(a.drop_first(), b.drop_first(), c.drop_first());
    }
}

/// The order of interface entries is a total order.
proof fn lemma_iface_order(a: (Seq<char>, IpAddress), b: (Seq<char>, IpAddress), c: (Seq<char>, IpAddress))
    ensures
        iface_le(a, a),
        iface_le(a, b) || iface_le(b, a),
        iface_le(a, b) && iface_le(b, a) ==> a == b,
        iface_le(a, b) && iface_le(b, c) ==> iface_le(a, c),
{
    lemma_text_lt_irreflexive(a.0);
    lemma_text_lt_irreflexive(b.0);
    lemma_text_lt_total(a.0, b.0);
    if text_lt(a.0, b.0) && text_lt(b.0, a.0) {
        lemma_text_lt_transitive(a.0, b.0, a.0);
    }
    if text_lt(a.0, b.0) && text_lt(b.0, c.0) {
        lemma_text_lt_transitive(a.0, b.0, c.0);
    }
}

/// Whether `a` comes strictly before `b`.
fn text_less(a: &String, b: &String) -> (r: bool)
    ensures
        r == text_lt(a@, b@),
{
    let n = a.as_str().unicode_len();
    let m = b.as_str().unicode_len();
    let mut i: usize = 0;
    assert(a@.skip(0) =~= a@);
    assert(b@.skip(0) =~= b@);
    while i < n && i < m
        invariant
            n == a@.len(),
            m == b@.len(),
            i <= n,
            i <= m,
            text_lt(a@, b@) == text_lt(a@.skip(i as int), b@.skip(i as int)),
        decreases n - i,
    {
        let x = a.as_str().get_char(i);
        let y = b.as_str().get_char(i);
        let ghost sa = a@.skip(i as int);
        let ghost sb = b@.skip(i as int);
        assert(sa[0] == x && sb[0] == y);
        if x != y {
            return (x as u32) < (y as u32);
        }
        assert(sa.drop_first() =~= a@.skip(i + 1));
        assert(sb.drop_first() =~= b@.skip(i + 1));
        i = i + 1;
    }
    i == n && i < m
}

/// Whether entry `a` comes at or before entry `b`.
fn iface_less_eq(a: &(String, IpAddress), b: &(String, IpAddress)) -> (r: bool)
    ensures
        r == iface_le(iface_view(*a), iface_view(*b)),
{
    if text_less(&a.0, &b.0) {
        return true;
    }
    if a.0 != b.0 {
        return false;
    }
    match (a.1, b.1) {
        (IpAddress::V4(x), IpAddress::V4(y)) => x <= y,
        (IpAddress::V4(_), IpAddress::V6(_)) => true,
        (IpAddress::V6(_), IpAddress::V4(_)) => false,
        (IpAddress::V6(x), IpAddress::V6(y)) => x <= y,
    }
}

/// The private IP address of the local machine: the least, in the order
/// of `(String, IpAddr)`, of the interfaces whose name starts with `en` and
/// whose address is a private IPv4 address. Other devices in the same local network can reach
/// the service there.
pub fn get_local_network_ip(ifaces: &Vec<(String, IpAddress)>) -> (r: Option<(String, IpAddress)>)
    ensures
        match r {
            Some(x) => {
                &&& is_local_network_iface(iface_view(x))
                &&& exists|i: int| 0 <= i < ifaces@.len() && iface_view(#[trigger] ifaces@[i]) == iface_view(x)
                &&& forall|i: int| 0 <= i < ifaces@.len() && is_local_network_iface(iface_view(#[trigger] ifaces@[i]))
                    ==> iface_le(iface_view(x), iface_view(ifaces@[i]))
            },
            None => forall|i: int| 0 <= i < ifaces@.len() ==> !is_local_network_iface(iface_view(#[trigger] ifaces@[i])),
        },
{
    let mut best: Option<usize> = None;
    let mut i: usize = 0;
    while i < ifaces.len()
        invariant
            i <= ifaces@.len(),
            match best {
                Some(b) => {
                    &&& b < i
                    &&& is_local_network_iface(iface_view(ifaces@[b as int]))
                    &&& forall|j: int| 0 <= j < i && is_local_network_iface(iface_view(#[trigger] ifaces@[j]))
                        ==> iface_le(iface_view(ifaces@[b as int]), iface_view(ifaces@[j]))
                },
                None => forall|j: int| 0 <= j < i ==> !is_local_network_iface(iface_view(#[trigger] ifaces@[j])),
            },
        decreases ifaces@.len() - i,
    {
        let e = &ifaces[i];
        let candidate = {
            let name = e.0.as_str();
            let private_v4 = match e.1 {
                IpAddress::V4(a) => is_private(a),
                IpAddress::V6(_) => false,
            };
            name.unicode_len() >= 2 && name.get_char(0) == 'e' && name.get_char(1) == 'n' && private_v4
        };
        assert(candidate == is_local_network_iface(iface_view(ifaces@[i as int])));
        if candidate {
            match best {
                None => {
                    best = Some(i);
                    proof {
                        lemma_iface_order(iface_view(ifaces@[i as int]), iface_view(ifaces@[i as int]), iface_view(ifaces@[i as int]));
                    }
                },
                Some(b) => {
                    if !iface_less_eq(&ifaces[b], e) {
                        let ghost nb = iface_view(ifaces@[i as int]);
                        let ghost ob = iface_view(ifaces@[b as int]);
                        assert forall|j: int| 0 <= j < i + 1 && is_local_network_iface(iface_view(#[trigger] ifaces@[j]))
                            implies iface_le(nb, iface_view(ifaces@[j])) by {
                            lemma_iface_order(nb, ob, iface_view(ifaces@[j]));
                            lemma_iface_order(nb, nb, nb);
                        }
                        best = Some(i);
                    }
                },
            }
        }
        i = i + 1;
    }
    match best {
        Some(b) => {
            let x = (ifaces[b].0.clone(), ifaces[b].1);
            assert(iface_view(ifaces@[b as int]) == iface_view(x));
            Some(x)
        },
        None => None,
    }
}

/// The address of the Thunderbolt bridge interface `bridge0`, which is
/// active when using Thunderbolt networking on macOS: the first IPv4 entry
/// of that name.
pub fn get_bridge_ip(ifaces: &Vec<(String, IpAddress)>) -> (r: Option<(String, IpAddress)>)
    ensures
        match r {
            Some(x) => exists|i: int| 0 <= i < ifaces@.len() && iface_view(#[trigger] ifaces@[i]) == iface_view(x)
                && is_bridge_iface(iface_view(x))
                && forall|j: int| 0 <= j < i ==> !is_bridge_iface(iface_view(#[trigger] ifaces@[j])),
            None => forall|i: int| 0 <= i < ifaces@.len() ==> !is_bridge_iface(iface_view(#[trigger] ifaces@[i])),
        },
{
    let bridge = "bridge0".to_owned();
    let mut i: usize = 0;
    while i < ifaces.len()
        invariant
            i <= ifaces@.len(),
            bridge@ == "bridge0"@,
            forall|j: int| 0 <= j < i ==> !is_bridge_iface(iface_view(#[trigger] ifaces@[j])),
        decreases ifaces@.len() - i,
    {
        let is_v4 = match ifaces[i].1 {
            IpAddress::V4(_) => true,
            IpAddress::V6(_) => false,
        };
        if ifaces[i].0 == bridge && is_v4 {
            let x = (ifaces[i].0.clone(), ifaces[i].1);
            assert(iface_view(ifaces@[i as int]) == iface_view(x));
            return Some(x);
        }
        i = i + 1;
    }
    None
}

} // verus!

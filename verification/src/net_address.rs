use vstd::prelude::*;

verus! {

/// A UDP endpoint: an IP address held as a 128-bit number (an IPv4 address in
/// its low 32 bits when `is_v6` is false) and a port.
#[derive(Clone, Copy, Debug, PartialEq, Eq, Structural, Hash)]
pub struct NetAddress {
    pub ip: u128,
    pub port: u16,
    pub is_v6: bool,
}

/// The IPv4-mapped IPv6 prefix `::ffff:0:0/96`, shifted down by 32 bits.
pub const IPV4_MAPPED_PREFIX: u128 = 0xFFFF;

impl NetAddress {
    /// Whether this endpoint reaches an IPv4 host: either it is IPv4, or an
    /// IPv6 address of the form `::ffff:a.b.c.d`.
    pub fn is_actually_ipv4(&self) -> (res: bool)
        ensures
            res == (!self.is_v6 || self.ip / 0x1_0000_0000 == IPV4_MAPPED_PREFIX),
    {
        if !self.is_v6 {
            return true;
        }
        let ip: u128 = self.ip;
        let high: u128 = ip >> 32u32;
        assert(high == ip / 0x1_0000_0000) by (bit_vector)
            requires
                high == ip >> 32u32,
        ;
        high == IPV4_MAPPED_PREFIX
    }
}

/// The wildcard address to bind to, in the requested family, on `port` or on
/// any free port when none is given.
pub fn get_bind_address(is_ipv6: bool, port: Option<u16>) -> (res: NetAddress)
    ensures
        res.ip == 0,
        res.is_v6 == is_ipv6,
        res.port == match port {
            Some(p) => p,
            None => 0,
        },
{
    let port = match port {
        Some(p) => p,
        None => 0,
    };
    NetAddress { ip: 0, port, is_v6: is_ipv6 }
}

/// The endpoint at `ip` and `port`, of the same family as `ip`.
pub fn match_ip_address_to_socket_addr(ip: u128, is_v6: bool, port: u16) -> (res: NetAddress)
    requires
        !is_v6 ==> ip < 0x1_0000_0000,
    ensures
        res == (NetAddress { ip, port, is_v6 }),
{
    NetAddress { ip, port, is_v6 }
}

/// Whether no address before `n` in `ips` is of the family `is_ipv6` asks
/// for.
pub open spec fn none_of_family_before(ips: Seq<(u128, bool)>, is_ipv6: bool, n: int) -> bool {
    forall|j: int| 0 <= j < n ==> (#[trigger] ips[j]).1 != is_ipv6
}

/// The endpoint on `port` at the first of `ips` (each an address and whether
/// it is IPv6, as a name lookup lists them) of the family `is_ipv6` asks for;
/// none when no address is of that family.
pub fn first_address_of_family(ips: &Vec<(u128, bool)>, is_ipv6: bool, port: u16) -> (res: Option<NetAddress>)
    requires
        forall|j: int| 0 <= j < ips.len() && !(#[trigger] ips@[j]).1 ==> ips@[j].0 < 0x1_0000_0000,
    ensures
        match res {
            Some(a) => exists|i: int|
                0 <= i < ips.len() && (#[trigger] ips@[i]).1 == is_ipv6 && none_of_family_before(ips@, is_ipv6, i)
                    && a == (NetAddress { ip: ips@[i].0, port, is_v6: is_ipv6 }),
            None => none_of_family_before(ips@, is_ipv6, ips.len() as int),
        },
{
    let mut i: usize = 0;
    while i < ips.len()
        invariant
            i <= ips.len(),
            none_of_family_before(ips@, is_ipv6, i as int),
            forall|j: int| 0 <= j < ips.len() && !(#[trigger] ips@[j]).1 ==> ips@[j].0 < 0x1_0000_0000,
        decreases ips.len() - i,
    {
        let (ip, v6) = ips[i];
        if v6 == is_ipv6 {
            assert(ips@[i as int].1 == is_ipv6);
            return Some(match_ip_address_to_socket_addr(ip, v6, port));
        }
        i = i + 1;
    }
    None
}

} // verus!

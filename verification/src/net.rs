//! Networks: blocks of addresses that share a prefix.

use crate::addr::{same_prefix, IpAddr};
use vstd::prelude::*;

verus! {

/// A network: the addresses that agree with `addr` in their first `prefix_len`
/// bits. The bits of `addr` after the prefix play no part.
#[derive(Clone, Copy, Debug, PartialEq, Eq, Structural, Hash)]
pub struct IpNet {
    addr: IpAddr,
    prefix_len: u8,
}

impl IpNet {
    #[verifier::type_invariant]
    spec fn prefix_fits(self) -> bool {
        self.prefix_len <= self.addr.width()
    }

    /// The address that the network was made from.
    pub closed spec fn base(self) -> IpAddr {
        self.addr
    }

    /// The number of leading bits that the addresses of the network share.
    pub closed spec fn prefix(self) -> u8 {
        self.prefix_len
    }

    /// Whether `ip` belongs to the network.
    pub open spec fn covers(self, ip: IpAddr) -> bool {
        &&& ip.width() == self.base().width()
        &&& same_prefix(
            ip.width(),
            self.prefix() as nat,
            self.base().value(),
            ip.value(),
        )
    }

    /// The network `addr`/`prefix_len`, if the prefix is no longer than the
    /// address: 32 bits for IPv4, 128 for IPv6.
    pub fn new(addr: IpAddr, prefix_len: u8) -> (r: Option<IpNet>)
        ensures
            r is Some <==> prefix_len <= addr.width(),
            r matches Some(net) ==> net.base() == addr && net.prefix() == prefix_len,
    {
        let width: u8 = match addr {
            IpAddr::V4(_) => 32,
            IpAddr::V6(_) => 128,
        };
        if prefix_len <= width {
            Some(IpNet { addr, prefix_len })
        } else {
            None
        }
    }

    /// Whether `ip` belongs to the network. An address of the other family
    /// never does.
    pub fn contains(&self, ip: IpAddr) -> (r: bool)
        ensures
            r == self.covers(ip),
    {
        proof {
            use_type_invariant(self);
        }
        match (self.addr, ip) {
            (IpAddr::V4(net), IpAddr::V4(a)) => v4_contains(net.bits, self.prefix_len, a.bits),
            (IpAddr::V6(net), IpAddr::V6(a)) => v6_contains(net.bits, self.prefix_len, a.bits),
            _ => false,
        }
    }
}

/// `ipnet::Ipv4Net::contains`, for an address: whether `ip` lies between the
/// first and the last address of the network `addr`/`prefix_len`, that is,
/// whether it agrees with `addr` in the first `prefix_len` bits.
#[verifier::external_body]
fn v4_contains(addr: u32, prefix_len: u8, ip: u32) -> (r: bool)
    requires
        prefix_len <= 32,
    ensures
        r == same_prefix(32, prefix_len as nat, addr as nat, ip as nat),
{
    let net = ipnet::Ipv4Net::new_assert(addr.into(), prefix_len);
    // The array gives `ip` the type of the network's own address.
    let [_, other] = [net.addr(), ip.into()];
    net.contains(&other)
}

/// `ipnet::Ipv6Net::contains`, for an address: whether `ip` lies between the
/// first and the last address of the network `addr`/`prefix_len`, that is,
/// whether it agrees with `addr` in the first `prefix_len` bits.
#[verifier::external_body]
fn v6_contains(addr: u128, prefix_len: u8, ip: u128) -> (r: bool)
    requires
        prefix_len <= 128,
    ensures
        r == same_prefix(128, prefix_len as nat, addr as nat, ip as nat),
{
    let net = ipnet::Ipv6Net::new_assert(addr.into(), prefix_len);
    // The array gives `ip` the type of the network's own address.
    let [_, other] = [net.addr(), ip.into()];
    net.contains(&other)
}

} // verus!

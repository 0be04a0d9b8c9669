//! IP addresses and networks.

use vstd::arithmetic::power2::{lemma2_to64, pow2};
use vstd::prelude::*;

verus! {

/// An IPv4 address, as the number that its four octets spell.
#[derive(Clone, Copy, Debug, PartialEq, Eq, Structural, Hash)]
pub struct Ipv4Addr {
    pub bits: u32,
}

/// An IPv6 address, as the number that its eight segments spell.
#[derive(Clone, Copy, Debug, PartialEq, Eq, Structural, Hash)]
pub struct Ipv6Addr {
    pub bits: u128,
}

/// An IP address of either family.
#[derive(Clone, Copy, Debug, PartialEq, Eq, Structural, Hash)]
pub enum IpAddr {
    V4(Ipv4Addr),
    V6(Ipv6Addr),
}

impl IpAddr {
    /// The number of bits in an address of this family.
    pub open spec fn width(self) -> nat {
        match self {
            IpAddr::V4(_) => 32,
            IpAddr::V6(_) => 128,
        }
    }

    /// The address as a number.
    pub open spec fn value(self) -> nat {
        match self {
            IpAddr::V4(a) => a.bits as nat,
            IpAddr::V6(a) => a.bits as nat,
        }
    }
}

/// Whether `a` and `b`, numbers of `width` bits, agree in their first `len` bits.
pub open spec fn same_prefix(width: nat, len: nat, a: nat, b: nat) -> bool {
    a / pow2((width - len) as nat) == b / pow2((width - len) as nat)
}

/// [`same_prefix`] with the power of two written out.
pub(crate) proof fn lemma_same_prefix(width: nat, len: nat, a: nat, b: nat, unit: nat)
    requires
        pow2((width - len) as nat) == unit,
    ensures
        same_prefix(width, len, a, b) == (a / unit == b / unit),
{
}

impl Ipv4Addr {
    /// Whether the address lies in the network `base`/`len`.
    pub open spec fn in_block(self, base: u32, len: nat) -> bool {
        same_prefix(32, len, base as nat, self.bits as nat)
    }

    /// The four octets, first to last.
    pub fn octets(&self) -> (r: [u8; 4])
        ensures
            r[0] == self.bits / 0x100_0000,
            r[1] == self.bits / 0x1_0000 % 0x100,
            r[2] == self.bits / 0x100 % 0x100,
            r[3] == self.bits % 0x100,
    {
        [
            (self.bits / 0x100_0000) as u8,
            (self.bits / 0x1_0000 % 0x100) as u8,
            (self.bits / 0x100 % 0x100) as u8,
            (self.bits % 0x100) as u8,
        ]
    }

    /// A private address: 10.0.0.0/8, 172.16.0.0/12 or 192.168.0.0/16.
    pub open spec fn in_private_range(self) -> bool {
        ||| self.in_block(0x0a00_0000, 8)
        ||| self.in_block(0xac10_0000, 12)
        ||| self.in_block(0xc0a8_0000, 16)
    }

    /// Whether this is a private address (RFC 1918).
    pub fn is_private(&self) -> (r: bool)
        ensures
            r == self.in_private_range(),
    {
        proof {
            lemma2_to64();
            let b = self.bits as nat;
            lemma_same_prefix(32, 8, 0x0a00_0000, b, 0x100_0000);
            lemma_same_prefix(32, 12, 0xac10_0000, b, 0x10_0000);
            lemma_same_prefix(32, 16, 0xc0a8_0000, b, 0x1_0000);
        }
        let oct: [u8; 4] = self.octets();
        oct[0] == 10 || (oct[0] == 172 && oct[1] >= 16 && oct[1] <= 31) || (oct[0] == 192 && oct[1]
            == 168)
    }

    /// A loopback address: 127.0.0.0/8.
    pub open spec fn in_loopback_range(self) -> bool {
        self.in_block(0x7f00_0000, 8)
    }

    /// Whether this is a loopback address.
    pub fn is_loopback(&self) -> (r: bool)
        ensures
            r == self.in_loopback_range(),
    {
        proof {
            lemma2_to64();
            lemma_same_prefix(32, 8, 0x7f00_0000, self.bits as nat, 0x100_0000);
        }
        self.octets()[0] == 127
    }

    /// A link-local address: 169.254.0.0/16.
    pub open spec fn in_link_local_range(self) -> bool {
        self.in_block(0xa9fe_0000, 16)
    }

    /// Whether this is a link-local address.
    pub fn is_link_local(&self) -> (r: bool)
        ensures
            r == self.in_link_local_range(),
    {
        proof {
            lemma2_to64();
            lemma_same_prefix(32, 16, 0xa9fe_0000, self.bits as nat, 0x1_0000);
        }
        let oct: [u8; 4] = self.octets();
        oct[0] == 169 && oct[1] == 254
    }

    /// Whether this is the broadcast address 255.255.255.255.
    pub fn is_broadcast(&self) -> (r: bool)
        ensures
            r == (self.bits == 0xffff_ffff),
    {
        self.bits == 0xffff_ffff
    }
}

impl Ipv6Addr {
    /// Whether the address lies in the network `base`/`len`.
    pub open spec fn in_block(self, base: u128, len: nat) -> bool {
        same_prefix(128, len, base as nat, self.bits as nat)
    }

    /// The eight segments, first to last.
    pub fn segments(&self) -> (r: [u16; 8])
        ensures
            r[0] == self.bits / 0x1_0000_0000_0000_0000_0000_0000_0000,
            r[1] == self.bits / 0x1_0000_0000_0000_0000_0000_0000 % 0x1_0000,
            r[2] == self.bits / 0x1_0000_0000_0000_0000_0000 % 0x1_0000,
            r[3] == self.bits / 0x1_0000_0000_0000_0000 % 0x1_0000,
            r[4] == self.bits / 0x1_0000_0000_0000 % 0x1_0000,
            r[5] == self.bits / 0x1_0000_0000 % 0x1_0000,
            r[6] == self.bits / 0x1_0000 % 0x1_0000,
            r[7] == self.bits % 0x1_0000,
    {
        [
            (self.bits / 0x1_0000_0000_0000_0000_0000_0000_0000) as u16,
            (self.bits / 0x1_0000_0000_0000_0000_0000_0000 % 0x1_0000) as u16,
            (self.bits / 0x1_0000_0000_0000_0000_0000 % 0x1_0000) as u16,
            (self.bits / 0x1_0000_0000_0000_0000 % 0x1_0000) as u16,
            (self.bits / 0x1_0000_0000_0000 % 0x1_0000) as u16,
            (self.bits / 0x1_0000_0000 % 0x1_0000) as u16,
            (self.bits / 0x1_0000 % 0x1_0000) as u16,
            (self.bits % 0x1_0000) as u16,
        ]
    }

    /// Whether this is the loopback address `::1`.
    pub fn is_loopback(&self) -> (r: bool)
        ensures
            r == (self.bits == 1),
    {
        self.bits == 1
    }

    /// Whether this is the unspecified address `::`.
    pub fn is_unspecified(&self) -> (r: bool)
        ensures
            r == (self.bits == 0),
    {
        self.bits == 0
    }

    /// The IPv4 address that an IPv4-mapped address (`::ffff:0:0/96`) carries.
    pub open spec fn mapped(self) -> Option<Ipv4Addr> {
        if self.in_block(0xffff_0000_0000, 96) {
            Some(Ipv4Addr { bits: (self.bits % 0x1_0000_0000) as u32 })
        } else {
            None
        }
    }

    /// The IPv4 address inside an IPv4-mapped address `::ffff:a.b.c.d`, and
    /// nothing for any other address.
    pub fn to_ipv4_mapped(&self) -> (r: Option<Ipv4Addr>)
        ensures
            r == self.mapped(),
    {
        proof {
            lemma2_to64();
            lemma_same_prefix(128, 96, 0xffff_0000_0000, self.bits as nat, 0x1_0000_0000);
        }
        if self.bits / 0x1_0000_0000 == 0xffff {
            Some(Ipv4Addr { bits: (self.bits % 0x1_0000_0000) as u32 })
        } else {
            None
        }
    }
}

} // verus!

//! Which addresses belong to the local network.

use crate::addr::{lemma_same_prefix, IpAddr, Ipv4Addr, Ipv6Addr};
use vstd::arithmetic::power2::{lemma2_to64, lemma2_to64_rest, lemma_pow2_adds};
use vstd::prelude::*;

verus! {

/// The address `fc00::`.
pub const FC00: u128 = 0xfc00_0000_0000_0000_0000_0000_0000_0000;

/// The address `fe80::`.
pub const FE80: u128 = 0xfe80_0000_0000_0000_0000_0000_0000_0000;

/// The local IPv4 addresses: the private ranges, loopback, link-local, shared
/// address space, "this network" and broadcast.
pub open spec fn local_v4(a: Ipv4Addr) -> bool {
    ||| a.in_block(0x0a00_0000, 8)  // 10.0.0.0/8
    ||| a.in_block(0xac10_0000, 12)  // 172.16.0.0/12
    ||| a.in_block(0xc0a8_0000, 16)  // 192.168.0.0/16
    ||| a.in_block(0x7f00_0000, 8)  // 127.0.0.0/8
    ||| a.in_block(0xa9fe_0000, 16)  // 169.254.0.0/16
    ||| a.in_block(0x6440_0000, 10)  // 100.64.0.0/10
    ||| a.in_block(0, 8)  // 0.0.0.0/8
    ||| a.bits == 0xffff_ffff  // 255.255.255.255
}

/// The local IPv6 addresses: loopback, unspecified, unique local, link-local,
/// and the IPv4-mapped forms of the local IPv4 addresses.
pub open spec fn local_v6(a: Ipv6Addr) -> bool {
    ||| a.bits == 1  // ::1
    ||| a.bits == 0  // ::
    ||| a.in_block(FC00, 7)  // fc00::/7
    ||| a.in_block(FE80, 10)  // fe80::/10
    ||| (a.mapped() matches Some(v4) && local_v4(v4))
}

/// The addresses of a local or non-routable network.
pub open spec fn local(ip: IpAddr) -> bool {
    match ip {
        IpAddr::V4(a) => local_v4(a),
        IpAddr::V6(a) => local_v6(a),
    }
}

/// fc00::/7 and fe80::/10, read off the first segment of an address.
proof fn lemma_v6_blocks(a: Ipv6Addr, first: u16)
    requires
        first == a.bits / 0x1_0000_0000_0000_0000_0000_0000_0000,
    ensures
        a.in_block(FC00, 7) == (first & 0xfe00 == 0xfc00),
        a.in_block(FE80, 10) == (first & 0xffc0 == 0xfe80),
{
    lemma2_to64();
    lemma2_to64_rest();
    lemma_pow2_adds(64, 57);
    lemma_pow2_adds(64, 54);
    let b = a.bits as nat;
    lemma_same_prefix(128, 7, FC00 as nat, b, 0x200_0000_0000_0000_0000_0000_0000_0000);
    lemma_same_prefix(128, 10, FE80 as nat, b, 0x40_0000_0000_0000_0000_0000_0000_0000);
    assert((first & 0xfe00 == 0xfc00) == (0xfc00 <= first < 0xfe00)) by (bit_vector);
    assert((first & 0xffc0 == 0xfe80) == (0xfe80 <= first < 0xfec0)) by (bit_vector);
}

/// Whether `ip` belongs to a local or non-routable network.
///
/// These are, for IPv4, the private ranges of RFC 1918, loopback
/// (`127.0.0.0/8`), link-local (`169.254.0.0/16`), shared address space
/// (`100.64.0.0/10`), `0.0.0.0/8` and broadcast; for IPv6, loopback (`::1`),
/// unspecified (`::`), unique local (`fc00::/7`), link-local (`fe80::/10`), and
/// the IPv4-mapped forms of the local IPv4 addresses. The metadata endpoints of
/// the large cloud providers all lie in these ranges.
pub fn is_local_network(ip: IpAddr) -> (r: bool)
    ensures
        r == local(ip),
    decreases ip.width(),
{
    match ip {
        IpAddr::V4(v4) => {
            let oct: [u8; 4] = v4.octets();
            proof {
                lemma2_to64();
                let b = v4.bits as nat;
                lemma_same_prefix(32, 8, 0, b, 0x100_0000);
                lemma_same_prefix(32, 10, 0x6440_0000, b, 0x40_0000);
                let second = oct[1];
                assert((second & 0xc0 == 0x40) == (0x40 <= second < 0x80)) by (bit_vector);
            }
            v4.is_private() || v4.is_loopback() || v4.is_link_local() || v4.is_broadcast() || oct[0]
                == 0 || (oct[0] == 100 && (oct[1] & 0xc0) == 0x40)
        },
        IpAddr::V6(v6) => {
            if v6.is_loopback() || v6.is_unspecified() {
                return true;
            }
            let segs: [u16; 8] = v6.segments();
            proof {
                lemma_v6_blocks(v6, segs[0]);
            }
            // Unique local fc00::/7
            if segs[0] & 0xfe00 == 0xfc00 {
                return true;
            }
            // Link-local fe80::/10
            if segs[0] & 0xffc0 == 0xfe80 {
                return true;
            }
            // An IPv4-mapped address is as local as the address it carries.
            if let Some(v4) = v6.to_ipv4_mapped() {
                return is_local_network(IpAddr::V4(v4));
            }
            false
        },
    }
}

} // verus!

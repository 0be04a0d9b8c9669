//! Networks and the local network.

use crate::addr::{lemma_same_prefix, IpAddr, Ipv4Addr, Ipv6Addr};
use crate::display::{decimal, ip_text, ipv6_text};
use crate::local::{local, FC00, FE80};
use crate::net::IpNet;
use vstd::arithmetic::div_mod::{
    lemma_fundamental_div_mod, lemma_fundamental_div_mod_converse, lemma_mod_bound,
};
use vstd::arithmetic::mul::lemma_mul_is_commutative;
use vstd::arithmetic::power2::{
    lemma2_to64, lemma2_to64_rest, lemma_pow2_adds, lemma_pow2_pos, pow2,
};
use vstd::prelude::*;

verus! {

/// A network whose prefix is the whole address holds that one address.
pub proof fn law_full_prefix_is_one_address(net: IpNet, ip: IpAddr)
    requires
        net.prefix() == net.base().width(),
    ensures
        net.covers(ip) <==> ip == net.base(),
{
    lemma2_to64();
    if ip.width() == net.base().width() {
        lemma_same_prefix(ip.width(), net.prefix() as nat, net.base().value(), ip.value(), 1);
    }
}

/// A network with an empty prefix holds every address of its family.
pub proof fn law_empty_prefix_is_the_family(net: IpNet, ip: IpAddr)
    requires
        net.prefix() == 0,
    ensures
        net.covers(ip) <==> ip.width() == net.base().width(),
{
    lemma2_to64();
    lemma2_to64_rest();
    lemma_pow2_adds(64, 64);
    if ip.width() == net.base().width() {
        let unit = pow2(ip.width());
        assert(ip.value() < unit);
        assert(net.base().value() < unit);
        vstd::arithmetic::div_mod::lemma_basic_div(ip.value() as int, unit as int);
        vstd::arithmetic::div_mod::lemma_basic_div(net.base().value() as int, unit as int);
    }
}

/// The bits of a network's address after the prefix play no part: networks of
/// one prefix length that share an address hold the same addresses.
pub proof fn law_host_bits_are_ignored(a: IpNet, b: IpNet, shared: IpAddr, ip: IpAddr)
    requires
        a.prefix() == b.prefix(),
        a.covers(shared),
        b.covers(shared),
    ensures
        a.covers(ip) == b.covers(ip),
{
}

/// An IPv4-mapped IPv6 address is local exactly if the IPv4 address that it
/// carries is.
pub proof fn law_mapped_addresses(a: Ipv6Addr, v4: Ipv4Addr)
    requires
        a.mapped() == Some(v4),
    ensures
        local(IpAddr::V6(a)) == local(IpAddr::V4(v4)),
{
    let first = v4.bits as int / 0x100_0000;
    let second = v4.bits as int / 0x1_0000 % 0x100;
    law_mapped_form(a, v4);
    law_local_ipv4(v4, first, second);
    law_local_ipv6(
        a,
        a.bits as int / 0x1_0000_0000_0000_0000_0000_0000_0000,
        first,
        second,
    );
}

/// The families of addresses, and their numbers.
pub proof fn law_families(v4: Ipv4Addr, v6: Ipv6Addr)
    ensures
        IpAddr::V4(v4).width() == 32,
        IpAddr::V6(v6).width() == 128,
        IpAddr::V4(v4).value() == v4.bits,
        IpAddr::V6(v6).value() == v6.bits,
{
}

/// Numbers that agree in their first bits are those in the run of `unit`
/// numbers that starts at a multiple of `unit`.
proof fn lemma_same_quotient(a: nat, b: nat, unit: nat)
    requires
        unit > 0,
    ensures
        a / unit == b / unit <==> a - a % unit <= b < a - a % unit + unit,
{
    lemma_fundamental_div_mod(a as int, unit as int);
    lemma_fundamental_div_mod(b as int, unit as int);
    lemma_mod_bound(a as int, unit as int);
    lemma_mod_bound(b as int, unit as int);
    let first = a - a % unit;
    assert(first == unit * (a / unit));
    if a / unit == b / unit {
        assert(b == first + b % unit);
    }
    if first <= b < first + unit {
        lemma_mul_is_commutative(unit as int, (a / unit) as int);
        lemma_fundamental_div_mod_converse(
            b as int,
            unit as int,
            (a / unit) as int,
            b - first,
        );
    }
}

/// A network of any prefix holds the addresses of its family from its first to
/// its last, and no others. The first is its address with the bits after the
/// prefix cleared, and there are two to the power of their number.
pub proof fn law_network_range(net: IpNet, ip: IpAddr)
    requires
        net.prefix() <= net.base().width(),
    ensures
        net.covers(ip) <==> {
            &&& (ip is V4 <==> net.base() is V4)
            &&& net.base().value() - net.base().value() % pow2(
                (net.base().width() - net.prefix()) as nat,
            ) <= ip.value()
            &&& ip.value() < net.base().value() - net.base().value() % pow2(
                (net.base().width() - net.prefix()) as nat,
            ) + pow2((net.base().width() - net.prefix()) as nat)
        },
{
    let unit = pow2((net.base().width() - net.prefix()) as nat);
    lemma_pow2_pos((net.base().width() - net.prefix()) as nat);
    lemma_same_quotient(net.base().value(), ip.value(), unit);
}

/// One more bit of prefix halves a network: of two addresses in it whose
/// numbers are half the network apart, exactly one stays.
pub proof fn law_longer_prefix_halves(wide: IpNet, narrow: IpNet, a: IpAddr, b: IpAddr)
    requires
        wide.base() == narrow.base(),
        wide.prefix() < wide.base().width(),
        narrow.prefix() == wide.prefix() + 1,
        wide.covers(a),
        wide.covers(b),
        b.value() == a.value() + pow2((wide.base().width() - narrow.prefix()) as nat),
    ensures
        narrow.covers(a) != narrow.covers(b),
{
    law_network_range(wide, a);
    law_network_range(wide, b);
    law_network_range(narrow, a);
    law_network_range(narrow, b);
    let k = (wide.base().width() - narrow.prefix()) as nat;
    let half = pow2(k);
    lemma_pow2_pos(k);
    lemma_pow2_adds(1, k);
    lemma2_to64();
    let whole = pow2(k + 1);
    assert(whole == 2 * half);
    let v = wide.base().value();
    assert((wide.base().width() - wide.prefix()) as nat == k + 1);
    lemma_fundamental_div_mod(v as int, whole as int);
    lemma_mod_bound(v as int, whole as int);
    let first = v - v % whole;
    let q = v / whole;
    assert(first == whole * q);
    let rest = v % whole;
    if rest < half {
        assert(v == (2 * q) * half + rest) by (nonlinear_arith)
            requires
                v == whole * q + rest,
                whole == 2 * half,
        ;
        lemma_fundamental_div_mod_converse(v as int, half as int, (2 * q) as int, rest as int);
    } else {
        assert(v == (2 * q + 1) * half + (rest - half)) by (nonlinear_arith)
            requires
                v == whole * q + rest,
                whole == 2 * half,
        ;
        lemma_fundamental_div_mod_converse(v as int, half as int, (2 * q + 1) as int, rest - half);
    }
}

/// The private, loopback and link-local IPv4 addresses, by their octets.
pub proof fn law_ipv4_ranges(a: Ipv4Addr, first: int, second: int)
    requires
        first == a.bits / 0x100_0000,
        second == a.bits / 0x1_0000 % 0x100,
    ensures
        a.in_private_range() <==> (first == 10 || (first == 172 && 16 <= second <= 31) || (first
            == 192 && second == 168)),
        a.in_loopback_range() <==> first == 127,
        a.in_link_local_range() <==> first == 169 && second == 254,
{
    lemma2_to64();
    let b = a.bits as nat;
    lemma_same_prefix(32, 8, 0x0a00_0000, b, 0x100_0000);
    lemma_same_prefix(32, 12, 0xac10_0000, b, 0x10_0000);
    lemma_same_prefix(32, 16, 0xc0a8_0000, b, 0x1_0000);
    lemma_same_prefix(32, 8, 0x7f00_0000, b, 0x100_0000);
    lemma_same_prefix(32, 16, 0xa9fe_0000, b, 0x1_0000);
}

/// The local IPv4 addresses, by their octets.
pub proof fn law_local_ipv4(a: Ipv4Addr, first: int, second: int)
    requires
        first == a.bits / 0x100_0000,
        second == a.bits / 0x1_0000 % 0x100,
    ensures
        local(IpAddr::V4(a)) <==> {
            ||| first == 0
            ||| first == 10
            ||| first == 127
            ||| first == 100 && 64 <= second <= 127
            ||| first == 169 && second == 254
            ||| first == 172 && 16 <= second <= 31
            ||| first == 192 && second == 168
            ||| a.bits == 0xffff_ffff
        },
{
    law_ipv4_ranges(a, first, second);
    lemma2_to64();
    let b = a.bits as nat;
    lemma_same_prefix(32, 8, 0, b, 0x100_0000);
    lemma_same_prefix(32, 10, 0x6440_0000, b, 0x40_0000);
}

/// An IPv6 address carries an IPv4 address if and only if it is that address
/// after the 96 bits of `::ffff:0:0`.
pub proof fn law_mapped_form(a: Ipv6Addr, v4: Ipv4Addr)
    ensures
        a.mapped() == Some(v4) <==> a.bits == 0xffff_0000_0000 + v4.bits,
        a.mapped() is None <==> !(0xffff_0000_0000 <= a.bits <= 0xffff_ffff_ffff),
{
    lemma2_to64();
    lemma_same_prefix(128, 96, 0xffff_0000_0000, a.bits as nat, 0x1_0000_0000);
}

/// The local IPv6 addresses, by their first segment, or by the octets of the
/// IPv4 address that they carry.
pub proof fn law_local_ipv6(a: Ipv6Addr, segment: int, first: int, second: int)
    requires
        segment == a.bits / 0x1_0000_0000_0000_0000_0000_0000_0000,
        first == a.bits % 0x1_0000_0000 / 0x100_0000,
        second == a.bits % 0x1_0000_0000 / 0x1_0000 % 0x100,
    ensures
        local(IpAddr::V6(a)) <==> {
            ||| a.bits == 0
            ||| a.bits == 1
            ||| 0xfc00 <= segment <= 0xfdff
            ||| 0xfe80 <= segment <= 0xfebf
            ||| 0xffff_0000_0000 <= a.bits <= 0xffff_ffff_ffff && {
                ||| first == 0
                ||| first == 10
                ||| first == 127
                ||| first == 100 && 64 <= second <= 127
                ||| first == 169 && second == 254
                ||| first == 172 && 16 <= second <= 31
                ||| first == 192 && second == 168
                ||| a.bits == 0xffff_ffff_ffff
            }
        },
{
    lemma2_to64();
    lemma2_to64_rest();
    lemma_pow2_adds(64, 57);
    lemma_pow2_adds(64, 54);
    let b = a.bits as nat;
    lemma_same_prefix(128, 7, FC00 as nat, b, 0x200_0000_0000_0000_0000_0000_0000_0000);
    lemma_same_prefix(128, 10, FE80 as nat, b, 0x40_0000_0000_0000_0000_0000_0000_0000);
    let v4 = Ipv4Addr { bits: (a.bits % 0x1_0000_0000) as u32 };
    law_mapped_form(a, v4);
    law_local_ipv4(v4, first, second);
}

/// The text of an octet is its decimal digits, without a zero in front.
pub proof fn law_octet_text(n: nat)
    requires
        n < 256,
    ensures
        n < 10 ==> decimal(n).len() == 1 && decimal(n)[0] as int == 48 + n,
        10 <= n < 100 ==> decimal(n).len() == 2 && decimal(n)[0] as int == 48 + n / 10 && decimal(
            n,
        )[1] as int == 48 + n % 10,
        100 <= n ==> decimal(n).len() == 3 && decimal(n)[0] as int == 48 + n / 100 && decimal(
            n,
        )[1] as int == 48 + n / 10 % 10 && decimal(n)[2] as int == 48 + n % 10,
{
    reveal_with_fuel(decimal, 4);
}

/// The text of an IPv4 address is that of its four octets with dots between
/// them.
pub proof fn law_ipv4_text(a: Ipv4Addr, o0: nat, o1: nat, o2: nat, o3: nat)
    requires
        o0 < 256,
        o1 < 256,
        o2 < 256,
        o3 < 256,
        a.bits == o0 * 0x100_0000 + o1 * 0x1_0000 + o2 * 0x100 + o3,
    ensures
        ip_text(IpAddr::V4(a)) == decimal(o0) + seq!['.'] + decimal(o1) + seq!['.'] + decimal(o2)
            + seq!['.'] + decimal(o3),
{
    let b = a.bits as nat;
    assert(b / 0x100_0000 == o0);
    assert(b / 0x1_0000 == o0 * 0x100 + o1);
    assert(b / 0x100 == o0 * 0x1_0000 + o1 * 0x100 + o2);
    assert(b / 0x1_0000 % 0x100 == o1);
    assert(b / 0x100 % 0x100 == o2);
    assert(b % 0x100 == o3);
}

/// The text of an IPv6 address is the one that its bits print as.
pub proof fn law_ipv6_text(a: Ipv6Addr)
    ensures
        ip_text(IpAddr::V6(a)) == ipv6_text(a.bits),
{
}

} // verus!

//! Addresses as text.

use crate::addr::{IpAddr, Ipv4Addr, Ipv6Addr};
use vstd::prelude::*;

verus! {

/// The decimal digit `d`.
pub open spec fn digit_char(d: nat) -> char {
    ('0' as nat + d) as char
}

/// `n` in decimal.
pub open spec fn decimal(n: nat) -> Seq<char>
    decreases n,
{
    if n < 10 {
        seq![digit_char(n)]
    } else {
        decimal(n / 10).push(digit_char(n % 10))
    }
}

/// An IPv4 address in the usual notation: four decimal numbers with dots
/// between them.
pub open spec fn ipv4_text(a: Ipv4Addr) -> Seq<char> {
    decimal(a.bits as nat / 0x100_0000) + seq!['.'] + decimal(a.bits as nat / 0x1_0000 % 0x100)
        + seq!['.'] + decimal(a.bits as nat / 0x100 % 0x100) + seq!['.'] + decimal(
        a.bits as nat % 0x100,
    )
}

/// What the standard library's `Ipv6Addr` with these bits prints as.
pub uninterp spec fn ipv6_text(bits: u128) -> Seq<char>;

/// An address in its usual notation.
pub open spec fn ip_text(ip: IpAddr) -> Seq<char> {
    match ip {
        IpAddr::V4(a) => ipv4_text(a),
        IpAddr::V6(a) => ipv6_text(a.bits),
    }
}

fn digit(d: u8) -> (r: &'static str)
    requires
        d < 10,
    ensures
        r@ == seq![digit_char(d as nat)],
{
    proof {
        reveal_strlit("0");
        reveal_strlit("1");
        reveal_strlit("2");
        reveal_strlit("3");
        reveal_strlit("4");
        reveal_strlit("5");
        reveal_strlit("6");
        reveal_strlit("7");
        reveal_strlit("8");
        reveal_strlit("9");
    }
    let r: &'static str = match d {
        0 => "0",
        1 => "1",
        2 => "2",
        3 => "3",
        4 => "4",
        5 => "5",
        6 => "6",
        7 => "7",
        8 => "8",
        _ => "9",
    };
    assert(r@ =~= seq![digit_char(d as nat)]);
    r
}

fn append_decimal(s: &mut String, n: u8)
    ensures
        final(s)@ == old(s)@ + decimal(n as nat),
    decreases n,
{
    if n >= 10 {
        append_decimal(s, n / 10);
    }
    s.append(digit(n % 10));
    assert(s@ =~= old(s)@ + decimal(n as nat));
}

/// `<std::net::Ipv6Addr as Display>`, of the address with these bits.
/// `ipnet::Ipv6Net` serves to make that address. Of its notation nothing is
/// stated but that the bits determine it.
#[verifier::external_body]
fn ipv6_to_string(bits: u128) -> (r: String)
    ensures
        r@ == ipv6_text(bits),
{
    ipnet::Ipv6Net::new_assert(bits.into(), 128).addr().to_string()
}

impl IpAddr {
    /// The address in its usual notation.
    pub fn text(&self) -> (r: String)
        ensures
            r@ == ip_text(*self),
    {
        match self {
            IpAddr::V4(a) => {
                proof {
                    reveal_strlit(".");
                }
                let oct: [u8; 4] = a.octets();
                let dot: &'static str = ".";
                assert(dot@ =~= seq!['.']);
                let mut s: String = String::new();
                append_decimal(&mut s, oct[0]);
                s.append(dot);
                append_decimal(&mut s, oct[1]);
                s.append(dot);
                append_decimal(&mut s, oct[2]);
                s.append(dot);
                append_decimal(&mut s, oct[3]);
                assert(s@ =~= ipv4_text(*a));
                s
            },
            IpAddr::V6(a) => ipv6_to_string(a.bits),
        }
    }
}

} // verus!

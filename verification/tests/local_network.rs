//! Which addresses count as local.

use reqwest_ssrf_guard::{is_local_network, IpAddr, Ipv4Addr, Ipv6Addr};

fn v4(s: &str) -> IpAddr {
    let one: ipnet::Ipv4Net = format!("{s}/32").parse().unwrap();
    IpAddr::V4(Ipv4Addr { bits: one.addr().into() })
}

fn v6(s: &str) -> IpAddr {
    let one: ipnet::Ipv6Net = format!("{s}/128").parse().unwrap();
    IpAddr::V6(Ipv6Addr { bits: one.addr().into() })
}

#[test]
fn denies_ipv4_private_ranges() {
    for ip in [
        "10.0.0.1",
        "10.255.255.254",
        "172.16.0.1",
        "172.31.255.254",
        "192.168.0.1",
    ] {
        assert!(is_local_network(v4(ip)), "{ip} should be denied");
    }
}

#[test]
fn denies_ipv4_loopback_and_linklocal_and_zero_and_broadcast() {
    for ip in [
        "127.0.0.1",
        "169.254.1.1",
        "0.0.0.0",
        "0.1.2.3",
        "255.255.255.255",
    ] {
        assert!(is_local_network(v4(ip)), "{ip} should be denied");
    }
}

#[test]
fn allows_public_ipv4() {
    for ip in [
        "1.1.1.1",
        "8.8.8.8",
        "172.15.0.1",
        "172.32.0.1",
        "192.0.2.1",
    ] {
        assert!(!is_local_network(v4(ip)), "{ip} should be allowed");
    }
}

#[test]
fn denies_cgnat_range() {
    for ip in [
        "100.64.0.0",
        "100.64.0.1",
        "100.100.100.200",
        "100.127.255.255",
    ] {
        assert!(is_local_network(v4(ip)), "{ip} should be denied (CGNAT)");
    }
}

#[test]
fn allows_addresses_adjacent_to_cgnat() {
    for ip in ["100.63.255.255", "100.128.0.0", "99.255.255.255"] {
        assert!(!is_local_network(v4(ip)), "{ip} should be allowed");
    }
}

#[test]
fn denies_cloud_metadata_endpoints() {
    assert!(
        is_local_network(v4("169.254.169.254")),
        "AWS/GCP/Azure IMDS"
    );
    assert!(is_local_network(v4("100.100.100.200")), "Alibaba IMDS");
    assert!(is_local_network(v6("fd00:ec2::254")), "AWS IPv6 IMDS");
}

#[test]
fn denies_ipv6_local() {
    for ip in ["::1", "::", "fc00::1", "fd12:3456::1", "fe80::1"] {
        assert!(is_local_network(v6(ip)), "{ip} should be denied");
    }
}

#[test]
fn allows_public_ipv6() {
    for ip in ["2001:db8::1", "2606:4700:4700::1111"] {
        assert!(!is_local_network(v6(ip)), "{ip} should be allowed");
    }
}

#[test]
fn denies_ipv4_mapped_local() {
    assert!(is_local_network(v6("::ffff:127.0.0.1")));
    assert!(is_local_network(v6("::ffff:192.168.1.1")));
    assert!(!is_local_network(v6("::ffff:8.8.8.8")));
}

#[test]
fn edges_of_the_ipv4_blocks() {
    for (ip, expected) in [
        ("0.255.255.255", true),
        ("1.0.0.0", false),
        ("9.255.255.255", false),
        ("10.0.0.0", true),
        ("10.255.255.255", true),
        ("11.0.0.0", false),
        ("126.255.255.255", false),
        ("127.0.0.0", true),
        ("127.255.255.255", true),
        ("128.0.0.0", false),
        ("169.253.255.255", false),
        ("169.254.0.0", true),
        ("169.254.255.255", true),
        ("169.255.0.0", false),
        ("172.16.0.0", true),
        ("172.31.255.255", true),
        ("192.167.255.255", false),
        ("192.168.0.0", true),
        ("192.168.255.255", true),
        ("192.169.0.0", false),
        ("255.255.255.254", false),
    ] {
        assert_eq!(is_local_network(v4(ip)), expected, "{ip}");
    }
}

#[test]
fn edges_of_the_ipv6_blocks() {
    for (ip, expected) in [
        ("::2", false),
        ("fbff:ffff:ffff:ffff:ffff:ffff:ffff:ffff", false),
        ("fc00::", true),
        ("fdff:ffff:ffff:ffff:ffff:ffff:ffff:ffff", true),
        ("fe00::", false),
        ("fe7f:ffff:ffff:ffff:ffff:ffff:ffff:ffff", false),
        ("fe80::", true),
        ("febf:ffff:ffff:ffff:ffff:ffff:ffff:ffff", true),
        ("fec0::", false),
        ("::fffe:10.0.0.1", false),
        ("::1:ffff:a00:1", false),
        ("::10.0.0.1", false),
    ] {
        assert_eq!(is_local_network(v6(ip)), expected, "{ip}");
    }
}

#[test]
fn a_mapped_address_is_as_local_as_the_one_it_carries() {
    for ip in ["10.0.0.1", "100.100.100.200", "0.0.0.0", "8.8.8.8", "255.255.255.255"] {
        assert_eq!(
            is_local_network(v6(&format!("::ffff:{ip}"))),
            is_local_network(v4(ip)),
            "{ip}"
        );
    }
}

#[test]
fn octets_and_segments() {
    match v4("198.51.100.7") {
        IpAddr::V4(a) => {
            assert_eq!(a.octets(), [198, 51, 100, 7]);
            assert!(!a.is_private());
            assert!(!a.is_loopback());
            assert!(!a.is_link_local());
            assert!(!a.is_broadcast());
        }
        IpAddr::V6(_) => panic!("not IPv4"),
    }
    match v6("2001:db8:3:4:5:6:7:8") {
        IpAddr::V6(a) => {
            assert_eq!(a.segments(), [0x2001, 0xdb8, 3, 4, 5, 6, 7, 8]);
            assert!(!a.is_loopback());
            assert!(!a.is_unspecified());
            assert_eq!(a.to_ipv4_mapped(), None);
        }
        IpAddr::V4(_) => panic!("not IPv6"),
    }
    match v6("::ffff:1.2.3.4") {
        IpAddr::V6(a) => {
            assert_eq!(a.to_ipv4_mapped(), Some(Ipv4Addr { bits: 0x0102_0304 }));
        }
        IpAddr::V4(_) => panic!("not IPv6"),
    }
}

#[test]
fn addresses_as_text() {
    for ip in ["0.0.0.0", "10.20.30.255", "127.0.0.1", "255.100.9.10"] {
        assert_eq!(v4(ip).text(), ip);
    }
    for ip in ["::", "::1", "2001:db8::1", "fe80::1:0:0:1", "::ffff:10.0.0.1"] {
        assert_eq!(v6(ip).text(), ip);
    }
}

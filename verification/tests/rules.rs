//! IP rules and host rules.

use reqwest_ssrf_guard::{
    normalize_host, Acl, HostDecision, IpAddr, IpNet, Ipv4Addr, Ipv6Addr,
};

fn v4(s: &str) -> IpAddr {
    let one: ipnet::Ipv4Net = format!("{s}/32").parse().unwrap();
    IpAddr::V4(Ipv4Addr { bits: one.addr().into() })
}

fn v6(s: &str) -> IpAddr {
    let one: ipnet::Ipv6Net = format!("{s}/128").parse().unwrap();
    IpAddr::V6(Ipv6Addr { bits: one.addr().into() })
}

fn cidr(s: &str) -> IpNet {
    match s.parse::<ipnet::IpNet>().unwrap() {
        ipnet::IpNet::V4(n) => {
            let addr = IpAddr::V4(Ipv4Addr { bits: n.addr().into() });
            IpNet::new(addr, n.prefix_len()).unwrap()
        }
        ipnet::IpNet::V6(n) => {
            let addr = IpAddr::V6(Ipv6Addr { bits: n.addr().into() });
            IpNet::new(addr, n.prefix_len()).unwrap()
        }
    }
}

// --- IP rules ---------------------------------------------------------------

#[test]
fn acl_default_is_allow_all() {
    let acl = Acl::new();
    assert!(acl.is_allowed_ip(v4("10.0.0.1")));
    assert!(acl.is_allowed_ip(v4("8.8.8.8")));
}

#[test]
fn acl_deny_local_network() {
    let acl = Acl::new().deny_local_network();
    assert!(!acl.is_allowed_ip(v4("10.0.0.1")));
    assert!(!acl.is_allowed_ip(v4("127.0.0.1")));
    assert!(acl.is_allowed_ip(v4("8.8.8.8")));
}

#[test]
fn acl_explicit_allow_overrides_deny() {
    let acl = Acl::new()
        .deny_local_network()
        .allow_cidr(cidr("192.168.1.100/32"));
    assert!(!acl.is_allowed_ip(v4("192.168.0.1"))); // still denied
    assert!(acl.is_allowed_ip(v4("192.168.1.100"))); // exception
    assert!(acl.is_allowed_ip(v4("8.8.8.8"))); // default allow
}

#[test]
fn acl_allow_wins_regardless_of_order() {
    let acl1 = Acl::new()
        .allow_cidr(cidr("192.168.1.100/32"))
        .deny_local_network();
    let acl2 = Acl::new()
        .deny_local_network()
        .allow_cidr(cidr("192.168.1.100/32"));
    for acl in [&acl1, &acl2] {
        assert!(acl.is_allowed_ip(v4("192.168.1.100")));
        assert!(!acl.is_allowed_ip(v4("192.168.0.1")));
    }
}

#[test]
fn acl_default_deny_allowlist_mode() {
    let acl = Acl::new()
        .default_deny()
        .allow_cidr(cidr("1.1.1.1/32"))
        .allow_cidr(cidr("8.8.8.8/32"));
    assert!(acl.is_allowed_ip(v4("1.1.1.1")));
    assert!(acl.is_allowed_ip(v4("8.8.8.8")));
    assert!(!acl.is_allowed_ip(v4("9.9.9.9")));
    assert!(!acl.is_allowed_ip(v4("10.0.0.1")));
}

#[test]
fn acl_cidr_range() {
    // /24 allows the whole prefix
    let acl = Acl::new().default_deny().allow_cidr(cidr("192.0.2.0/24"));
    assert!(acl.is_allowed_ip(v4("192.0.2.0")));
    assert!(acl.is_allowed_ip(v4("192.0.2.42")));
    assert!(acl.is_allowed_ip(v4("192.0.2.255")));
    assert!(!acl.is_allowed_ip(v4("192.0.3.0")));
}

#[test]
fn acl_cidr_ipv6() {
    let acl = Acl::new().default_deny().allow_cidr(cidr("2001:db8::/32"));
    assert!(acl.is_allowed_ip(v6("2001:db8::1")));
    assert!(acl.is_allowed_ip(v6("2001:db8:ffff::1")));
    assert!(!acl.is_allowed_ip(v6("2001:db9::1")));
}

#[test]
fn acl_deny_ip_when_custom_predicate() {
    let acl = Acl::new().deny_ip_when(|ip| match ip {
        IpAddr::V4(v4) => v4.octets()[0] == 198, // deny 198.x.x.x
        _ => false,
    });
    assert!(!acl.is_allowed_ip(v4("198.51.100.1")));
    assert!(acl.is_allowed_ip(v4("8.8.8.8")));
}

#[test]
fn allow_ip_when_overrides_deny() {
    let acl = Acl::new()
        .deny_local_network()
        .allow_ip_when(|ip| match ip {
            IpAddr::V4(v4) => v4.octets()[3] == 7,
            _ => false,
        });
    assert!(acl.is_allowed_ip(v4("10.0.0.7")));
    assert!(!acl.is_allowed_ip(v4("10.0.0.8")));
}

#[test]
fn a_predicate_may_change_its_mind() {
    let blocked = std::sync::Arc::new(std::sync::atomic::AtomicBool::new(false));
    let seen = blocked.clone();
    let acl = Acl::new().deny_ip_when(move |_| seen.load(std::sync::atomic::Ordering::SeqCst));
    assert!(acl.is_allowed_ip(v4("1.1.1.1")));
    blocked.store(true, std::sync::atomic::Ordering::SeqCst);
    assert!(!acl.is_allowed_ip(v4("1.1.1.1")));
}

#[test]
fn deny_cidr_denies_a_range() {
    let acl = Acl::new().deny_cidr(cidr("203.0.113.0/24"));
    assert!(!acl.is_allowed_ip(v4("203.0.113.9")));
    assert!(acl.is_allowed_ip(v4("203.0.114.0")));
    assert!(acl.is_allowed_ip(v6("2001:db8::1")));
}

#[test]
fn networks() {
    let net = cidr("192.168.1.77/24");
    assert!(net.contains(v4("192.168.1.0")));
    assert!(net.contains(v4("192.168.1.255")));
    assert!(!net.contains(v4("192.168.0.255")));
    assert!(!net.contains(v6("::ffff:192.168.1.1")));

    let all = cidr("1.2.3.4/0");
    assert!(all.contains(v4("0.0.0.0")));
    assert!(all.contains(v4("255.255.255.255")));
    assert!(!all.contains(v6("::")));

    let one = cidr("fd00::1/128");
    assert!(one.contains(v6("fd00::1")));
    assert!(!one.contains(v6("fd00::2")));

    let all6 = cidr("::/0");
    assert!(all6.contains(v6("ffff::1")));
    assert!(!all6.contains(v4("1.1.1.1")));

    let half = cidr("fd00::/9");
    assert!(half.contains(v6("fd7f::1")));
    assert!(!half.contains(v6("fd80::1")));
}

#[test]
fn a_prefix_has_to_fit() {
    assert!(IpNet::new(v4("10.0.0.0"), 32).is_some());
    assert!(IpNet::new(v4("10.0.0.0"), 33).is_none());
    assert!(IpNet::new(v6("fd00::"), 128).is_some());
    assert!(IpNet::new(v6("fd00::"), 129).is_none());
}

#[test]
fn adding_a_rule_twice_changes_nothing() {
    let once = Acl::new().deny_local_network();
    let twice = Acl::new().deny_local_network().deny_local_network();
    for ip in ["10.0.0.1", "8.8.8.8", "127.0.0.1"] {
        assert_eq!(once.is_allowed_ip(v4(ip)), twice.is_allowed_ip(v4(ip)));
    }
}

#[test]
fn clones_and_defaults() {
    let acl = Acl::default().deny_local_network().deny_host("evil.example");
    let copy = acl.clone();
    assert!(!copy.is_allowed_ip(v4("10.0.0.1")));
    assert!(copy.is_allowed_ip(v4("8.8.8.8")));
    assert_eq!(copy.host_decision("evil.example"), HostDecision::Deny);
    assert_eq!(copy.host_decision("good.example"), HostDecision::Continue);
}

// --- host rules -------------------------------------------------------------

#[test]
fn host_decision_continues_when_no_rules_match() {
    let acl = Acl::new().deny_host("evil.example");
    assert_eq!(acl.host_decision("good.example"), HostDecision::Continue);
}

#[test]
fn host_decision_exact_match_case_insensitive() {
    let acl = Acl::new().deny_host("Evil.Example");
    assert_eq!(acl.host_decision("evil.example"), HostDecision::Deny);
    assert_eq!(acl.host_decision("EVIL.EXAMPLE"), HostDecision::Deny);
    // trailing dot is stripped
    assert_eq!(acl.host_decision("evil.example."), HostDecision::Deny);
    // not a substring match
    assert_eq!(
        acl.host_decision("not-evil.example"),
        HostDecision::Continue
    );
}

#[test]
fn host_decision_suffix_match() {
    let acl = Acl::new().deny_host_suffix(".internal.corp");
    assert_eq!(acl.host_decision("api.internal.corp"), HostDecision::Deny);
    assert_eq!(
        acl.host_decision("deep.api.internal.corp"),
        HostDecision::Deny
    );
    // leading dot guards against bare-string false matches
    assert_eq!(acl.host_decision("internal.corp"), HostDecision::Continue);
    assert_eq!(acl.host_decision("public.example"), HostDecision::Continue);
}

#[test]
fn host_allow_wins_over_host_deny() {
    let acl = Acl::new()
        .deny_host_suffix(".example.com")
        .allow_host("api.example.com");
    assert_eq!(acl.host_decision("api.example.com"), HostDecision::Allow);
    assert_eq!(acl.host_decision("other.example.com"), HostDecision::Deny);
}

#[test]
fn host_when_predicate_sees_normalized_host() {
    let acl = Acl::new().deny_host_when(|h| h == "lowered.example");
    assert_eq!(acl.host_decision("LOWERED.example."), HostDecision::Deny);
}

#[test]
fn allow_rules_for_hosts() {
    let acl = Acl::new()
        .deny_host_when(|_| true)
        .allow_host_suffix(".Trusted.example.")
        .allow_host_when(|h| h.starts_with("ok-"));
    assert_eq!(acl.host_decision("a.trusted.example"), HostDecision::Allow);
    assert_eq!(acl.host_decision("ok-7.example"), HostDecision::Allow);
    assert_eq!(acl.host_decision("trusted.example"), HostDecision::Deny);
}

#[test]
fn host_rules_take_owned_names() {
    let acl = Acl::new()
        .deny_host(String::from("Evil.Example"))
        .allow_host_suffix(String::from(".Good.Example"));
    assert_eq!(acl.host_decision("evil.example"), HostDecision::Deny);
    assert_eq!(acl.host_decision("a.good.example"), HostDecision::Allow);
}

#[test]
fn a_suffix_of_dots_matches_every_host() {
    let acl = Acl::new().deny_host_suffix(".");
    assert_eq!(acl.host_decision("example.com"), HostDecision::Deny);
    assert_eq!(acl.host_decision(""), HostDecision::Deny);
}

#[test]
fn a_suffix_without_a_dot_matches_inside_a_label() {
    let acl = Acl::new().deny_host_suffix("example.com");
    assert_eq!(acl.host_decision("example.com"), HostDecision::Deny);
    assert_eq!(acl.host_decision("notexample.com"), HostDecision::Deny);
    assert_eq!(acl.host_decision("example.co"), HostDecision::Continue);
}

#[test]
fn normal_forms() {
    assert_eq!(normalize_host("Example.COM."), "example.com");
    assert_eq!(normalize_host("example.com"), "example.com");
    assert_eq!(normalize_host("a.b..."), "a.b");
    assert_eq!(normalize_host(".leading"), ".leading");
    assert_eq!(normalize_host("..."), "");
    assert_eq!(normalize_host(""), "");
    assert_eq!(normalize_host("BÜCHER.example."), "bÜcher.example");
}

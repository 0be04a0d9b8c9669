//! Validating URLs and resolving names.

use reqwest_ssrf_guard::{
    Acl, AclError, Host, IpAddr, IpNet, Ipv4Addr, Ipv6Addr, Resolution, ResolveError, SocketAddr,
};
use url::Url;

fn v4(s: &str) -> IpAddr {
    let one: ipnet::Ipv4Net = format!("{s}/32").parse().unwrap();
    IpAddr::V4(Ipv4Addr { bits: one.addr().into() })
}

fn v6(s: &str) -> IpAddr {
    let one: ipnet::Ipv6Net = format!("{s}/128").parse().unwrap();
    IpAddr::V6(Ipv6Addr { bits: one.addr().into() })
}

fn deny_local() -> Acl {
    Acl::new().deny_local_network()
}

#[test]
fn validate_url_rejects_ipv4_literal_local() {
    let url = Url::parse("http://127.0.0.1/admin").unwrap();
    let err = deny_local().validate_url(&url).unwrap_err();
    assert_eq!(err, AclError::DeniedIp(v4("127.0.0.1")));
}

#[test]
fn validate_url_rejects_ipv6_literal_local() {
    let url = Url::parse("http://[::1]/").unwrap();
    let err = deny_local().validate_url(&url).unwrap_err();
    assert_eq!(err, AclError::DeniedIp(v6("::1")));
}

#[test]
fn validate_url_allows_public_literal() {
    let url = Url::parse("http://1.1.1.1/").unwrap();
    assert!(deny_local().validate_url(&url).is_ok());
}

#[test]
fn validate_url_defers_domain_names_to_resolver() {
    let url = Url::parse("http://localhost/").unwrap();
    assert!(deny_local().validate_url(&url).is_ok());
    let url = Url::parse("http://example.com/").unwrap();
    assert!(deny_local().validate_url(&url).is_ok());
}

#[test]
fn validate_url_via_acl_with_exception() {
    let acl = Acl::new()
        .deny_local_network()
        .allow_cidr(IpNet::new(v4("192.168.1.100"), 32).unwrap());
    // Exception is honoured at URL-check time too
    assert!(acl
        .validate_url(&Url::parse("http://192.168.1.100/").unwrap())
        .is_ok());
    assert!(acl
        .validate_url(&Url::parse("http://192.168.1.101/").unwrap())
        .is_err());
}

// --- schemes ----------------------------------------------------------------

#[test]
fn validate_url_rejects_non_http_schemes_by_default() {
    let acl = deny_local();
    for url in [
        "file:///etc/passwd",
        "data:text/plain,hello",
        "gopher://example.com/",
        "ftp://example.com/x",
    ] {
        let err = acl.validate_url(&Url::parse(url).unwrap()).unwrap_err();
        assert!(
            matches!(err, AclError::DeniedScheme(_)),
            "{url} should be denied by scheme, got {err:?}"
        );
    }
}

#[test]
fn validate_url_allows_http_and_https_by_default() {
    let acl = deny_local();
    assert!(acl
        .validate_url(&Url::parse("http://example.com/").unwrap())
        .is_ok());
    assert!(acl
        .validate_url(&Url::parse("https://example.com/").unwrap())
        .is_ok());
}

#[test]
fn validate_url_scheme_check_runs_before_host_check() {
    // A denied host over a denied scheme reports the scheme first.
    let acl = Acl::new().deny_host("evil.example");
    let err = acl
        .validate_url(&Url::parse("ftp://evil.example/").unwrap())
        .unwrap_err();
    assert_eq!(err, AclError::DeniedScheme("ftp".into()));
}

#[test]
fn restrict_schemes_https_only_forbids_plaintext() {
    let acl = Acl::new().restrict_schemes(&["https"]);
    assert_eq!(
        acl.validate_url(&Url::parse("http://example.com/").unwrap()),
        Err(AclError::DeniedScheme("http".into()))
    );
    assert!(acl
        .validate_url(&Url::parse("https://example.com/").unwrap())
        .is_ok());
}

#[test]
fn restrict_schemes_is_case_insensitive() {
    let acl = Acl::new().restrict_schemes(&["HTTP"]);
    assert!(acl
        .validate_url(&Url::parse("http://example.com/").unwrap())
        .is_ok());
}

#[test]
fn restrict_schemes_empty_denies_everything() {
    let acl = Acl::new().restrict_schemes(&[]);
    assert!(acl
        .validate_url(&Url::parse("https://example.com/").unwrap())
        .is_err());
}

#[test]
fn restrict_schemes_can_widen() {
    let acl = Acl::new().restrict_schemes(&["http", "https", "ftp"]);
    assert!(acl
        .validate_url(&Url::parse("ftp://example.com/").unwrap())
        .is_ok());
}

#[test]
fn file_url_is_denied_by_scheme() {
    assert_eq!(
        Acl::new().validate_url(&Url::parse("file:///etc/passwd").unwrap()),
        Err(AclError::DeniedScheme("file".into()))
    );
}

#[test]
fn an_upper_case_url_scheme_is_lowered() {
    assert!(Acl::new()
        .validate_url(&Url::parse("HTTPS://Example.COM/").unwrap())
        .is_ok());
}

#[test]
fn a_url_without_a_host_passes_if_its_scheme_does() {
    let acl = deny_local().restrict_schemes(&["data"]);
    assert_eq!(
        acl.validate_url(&Url::parse("data:text/plain,hello").unwrap()),
        Ok(())
    );
}

// --- hosts ------------------------------------------------------------------

#[test]
fn validate_url_host_deny_rejects_domain_url() {
    let acl = Acl::new().deny_host("evil.example");
    let err = acl
        .validate_url(&Url::parse("http://EVIL.example/path").unwrap())
        .unwrap_err();
    assert_eq!(err, AclError::DeniedHost("evil.example".into()));
}

#[test]
fn validate_url_host_allow_overrides_default_deny_for_domain() {
    // default_deny only affects the IP layer; domain URLs short-circuit on
    // host rules in validate_url and otherwise pass (resolver handles them).
    let acl = Acl::new().default_deny().allow_host("api.example.com");
    // domain with explicit allow — passes
    assert!(acl
        .validate_url(&Url::parse("http://api.example.com/").unwrap())
        .is_ok());
    // domain with no host rule match — validate_url still says ok (resolver
    // would then deny per default_deny at IP layer)
    assert!(acl
        .validate_url(&Url::parse("http://other.example.com/").unwrap())
        .is_ok());
}

#[test]
fn host_rules_do_not_touch_addresses() {
    let acl = deny_local().allow_host("127.0.0.1");
    assert_eq!(
        acl.validate_url(&Url::parse("http://127.0.0.1/").unwrap()),
        Err(AclError::DeniedIp(v4("127.0.0.1")))
    );
}

#[test]
fn a_mapped_literal_is_judged_by_what_it_carries() {
    let acl = deny_local();
    assert_eq!(
        acl.validate_url(&Url::parse("http://[::ffff:10.0.0.1]/").unwrap()),
        Err(AclError::DeniedIp(v6("::ffff:10.0.0.1")))
    );
    assert!(acl
        .validate_url(&Url::parse("http://[::ffff:8.8.8.8]/").unwrap())
        .is_ok());
}

#[test]
fn targets_are_judged_like_urls() {
    let acl = deny_local().deny_host("evil.example");
    assert_eq!(acl.validate_target("http", None), Ok(()));
    assert_eq!(
        acl.validate_target("HTTP", None),
        Err(AclError::DeniedScheme("HTTP".into()))
    );
    assert_eq!(
        acl.validate_target("https", Some(Host::Domain("Evil.Example.".into()))),
        Err(AclError::DeniedHost("evil.example".into()))
    );
    assert_eq!(
        acl.validate_target("https", Some(Host::Ipv4(Ipv4Addr { bits: 0x0808_0808 }))),
        Ok(())
    );
    assert_eq!(
        acl.validate_target("https", Some(Host::Ipv6(Ipv6Addr { bits: 1 }))),
        Err(AclError::DeniedIp(v6("::1")))
    );
}

#[test]
fn errors_in_words() {
    assert_eq!(
        AclError::DeniedScheme("file".into()).message(),
        "scheme file is denied by ACL"
    );
    assert_eq!(
        AclError::DeniedIp(v4("127.0.0.1")).message(),
        "address 127.0.0.1 is denied by ACL"
    );
    assert_eq!(
        AclError::DeniedIp(v6("::1")).message(),
        "address ::1 is denied by ACL"
    );
    assert_eq!(
        AclError::DeniedHost("evil.example".into()).clone().message(),
        "host evil.example is denied by ACL"
    );
}

// --- resolving --------------------------------------------------------------

fn at(ip: IpAddr) -> SocketAddr {
    SocketAddr { ip, port: 0, flowinfo: 0, scope_id: 0 }
}

#[test]
fn a_denied_name_is_refused() {
    let acl = Acl::new().deny_host("evil.example");
    match acl.start_resolve("Evil.example.") {
        Resolution::Refused(e) => {
            assert_eq!(e, ResolveError::DeniedHost("Evil.example.".into()));
            assert_eq!(e.message(), "host Evil.example. is denied by ACL");
        }
        Resolution::Lookup { .. } => panic!("looked up"),
    }
}

#[test]
fn an_allowed_name_is_trusted() {
    let acl = deny_local().allow_host("api.example.com");
    assert_eq!(
        acl.start_resolve("api.example.com"),
        Resolution::Lookup { trusted: true }
    );
    let found = vec![at(v4("10.0.0.1")), at(v4("8.8.8.8"))];
    assert_eq!(
        acl.finish_resolve("api.example.com", true, found.clone()),
        Ok(found)
    );
    assert_eq!(acl.finish_resolve("api.example.com", true, vec![]), Ok(vec![]));
}

#[test]
fn other_names_are_filtered() {
    let acl = deny_local();
    assert_eq!(
        acl.start_resolve("example.com"),
        Resolution::Lookup { trusted: false }
    );
    let found = vec![
        at(v4("10.0.0.1")),
        at(v4("8.8.8.8")),
        at(v6("::1")),
        at(v6("2001:db8::1")),
    ];
    assert_eq!(
        acl.finish_resolve("example.com", false, found),
        Ok(vec![at(v4("8.8.8.8")), at(v6("2001:db8::1"))])
    );
}

#[test]
fn a_name_with_only_denied_addresses_fails() {
    let acl = deny_local();
    let err = acl
        .finish_resolve("localhost", false, vec![at(v4("127.0.0.1")), at(v6("::1"))])
        .unwrap_err();
    assert_eq!(err, ResolveError::AllDenied("localhost".into()));
    assert_eq!(
        err.message(),
        "all resolved addresses for localhost were denied by ACL"
    );
    assert_eq!(
        acl.finish_resolve("nowhere", false, vec![]),
        Err(ResolveError::AllDenied("nowhere".into()))
    );
}

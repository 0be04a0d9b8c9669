//! Validating URLs.

use crate::acl::AclView;
use crate::addr::{IpAddr, Ipv4Addr, Ipv6Addr};
use crate::display::ip_text;
use crate::error::{AclError, AclErrorView};
use crate::laws::hosts::law_normal_form_is_unique;
use crate::laws::policies::{law_answers, law_explicit_allow, law_explicit_deny};
use crate::laws::rules::{
    can_match, law_allow_wins, law_deny_without_allow, law_no_match_continues, surely,
};
use crate::rule::{may_decide, HostDecision};
use crate::target::{domain_outcome, ip_outcome, opt_host, outcome, Host, HostView};
use crate::text::{ascii_lower, normalized};
use vstd::prelude::*;

verus! {

/// A URL whose scheme is not accepted is denied for its scheme, whatever its
/// host is.
pub proof fn law_scheme_comes_first(
    acl: AclView,
    scheme: Seq<char>,
    host: Option<HostView>,
    r: Result<(), AclErrorView>,
)
    requires
        !acl.schemes.contains(scheme),
    ensures
        acl.may_validate(scheme, host, r) <==> r == Err::<(), _>(
            AclErrorView::DeniedScheme(scheme),
        ),
{
}

/// A list that accepts no scheme denies every URL.
pub proof fn law_no_schemes(
    acl: AclView,
    scheme: Seq<char>,
    host: Option<HostView>,
    r: Result<(), AclErrorView>,
)
    requires
        acl.schemes.len() == 0,
        acl.may_validate(scheme, host, r),
    ensures
        r == Err::<(), _>(AclErrorView::DeniedScheme(scheme)),
{
}

/// Schemes are compared without regard to case: after restricting a list to the
/// schemes `given`, a lower-case scheme, as every URL has, is accepted if and
/// only if it is one of them in some spelling.
pub proof fn law_scheme_spelling(acl: AclView, given: Seq<&str>, scheme: Seq<char>)
    requires
        acl.schemes == given.map_values(|s: &str| ascii_lower(s@)),
        ascii_lower(scheme) == scheme,
    ensures
        acl.schemes.contains(scheme) <==> (exists|i: int|
            0 <= i < given.len() && ascii_lower((#[trigger] given[i])@) == ascii_lower(scheme)),
{
    if acl.schemes.contains(scheme) {
        let i = choose|i: int| 0 <= i < acl.schemes.len() && acl.schemes[i] == scheme;
        assert(ascii_lower(given[i]@) == ascii_lower(scheme));
    }
    if exists|i: int|
        0 <= i < given.len() && ascii_lower((#[trigger] given[i])@) == ascii_lower(scheme) {
        let i = choose|i: int|
            0 <= i < given.len() && ascii_lower((#[trigger] given[i])@) == ascii_lower(scheme);
        assert(acl.schemes[i] == scheme);
    }
}

/// Whether a URL with a domain name passes is up to the schemes and the host
/// rules alone. In particular denying by default does not touch it.
pub proof fn law_domains_ignore_ip_rules(
    a: AclView,
    b: AclView,
    scheme: Seq<char>,
    name: Seq<char>,
    r: Result<(), AclErrorView>,
)
    requires
        a.schemes == b.schemes,
        a.host_rules == b.host_rules,
    ensures
        a.may_validate(scheme, Some(HostView::Domain(name)), r) == b.may_validate(
            scheme,
            Some(HostView::Domain(name)),
            r,
        ),
{
    assert(forall|d: HostDecision| #[trigger]
        a.may_decide_host(name, d) == b.may_decide_host(name, d));
    if a.may_validate(scheme, Some(HostView::Domain(name)), r) && a.schemes.contains(scheme) {
        let d = choose|d: HostDecision| #[trigger]
            a.may_decide_host(name, d) && r == domain_outcome(name, d);
        assert(b.may_decide_host(name, d));
    }
    if b.may_validate(scheme, Some(HostView::Domain(name)), r) && b.schemes.contains(scheme) {
        let d = choose|d: HostDecision| #[trigger]
            b.may_decide_host(name, d) && r == domain_outcome(name, d);
        assert(a.may_decide_host(name, d));
    }
}

/// Whether a URL with an address passes is up to the schemes, the IP rules and
/// the default alone.
pub proof fn law_addresses_ignore_host_rules(
    a: AclView,
    b: AclView,
    scheme: Seq<char>,
    ip: IpAddr,
    r: Result<(), AclErrorView>,
)
    requires
        a.schemes == b.schemes,
        a.ip_rules == b.ip_rules,
        a.default_allow == b.default_allow,
    ensures
        a.may_validate(scheme, Some(HostView::Ip(ip)), r) == b.may_validate(
            scheme,
            Some(HostView::Ip(ip)),
            r,
        ),
{
    if a.may_validate(scheme, Some(HostView::Ip(ip)), r) {
        lemma_address_outcome(a, b, scheme, ip, r);
    }
    if b.may_validate(scheme, Some(HostView::Ip(ip)), r) {
        lemma_address_outcome(b, a, scheme, ip, r);
    }
}

proof fn lemma_address_outcome(
    a: AclView,
    b: AclView,
    scheme: Seq<char>,
    ip: IpAddr,
    r: Result<(), AclErrorView>,
)
    requires
        a.schemes == b.schemes,
        a.ip_rules == b.ip_rules,
        a.default_allow == b.default_allow,
        a.may_validate(scheme, Some(HostView::Ip(ip)), r),
    ensures
        b.may_validate(scheme, Some(HostView::Ip(ip)), r),
{
    if a.schemes.contains(scheme) {
        let allowed = choose|allowed: bool| #[trigger]
            a.may_answer_ip(ip, allowed) && r == ip_outcome(ip, allowed);
        let d = choose|d: HostDecision| #[trigger]
            may_decide(a.ip_rules, ip, d) && allowed == a.ip_answer(d);
        assert(may_decide(b.ip_rules, ip, d) && allowed == b.ip_answer(d));
        assert(b.may_answer_ip(ip, allowed));
    }
}

/// A URL with a domain name that no host rule can match passes, if its scheme
/// is accepted.
pub proof fn law_unmatched_domain_passes(
    acl: AclView,
    scheme: Seq<char>,
    name: Seq<char>,
    r: Result<(), AclErrorView>,
)
    requires
        acl.schemes.contains(scheme),
        !can_match(acl.host_rules, normalized(name), true),
        !can_match(acl.host_rules, normalized(name), false),
        acl.may_validate(scheme, Some(HostView::Domain(name)), r),
    ensures
        r == Ok::<(), AclErrorView>(()),
{
    let d = choose|d: HostDecision| #[trigger]
        acl.may_decide_host(name, d) && r == domain_outcome(name, d);
    law_no_match_continues(acl.host_rules, normalized(name), d);
}

/// A URL with a domain name that an allow rule matches passes, if its scheme is
/// accepted.
pub proof fn law_allowed_domain_passes(
    acl: AclView,
    i: int,
    scheme: Seq<char>,
    name: Seq<char>,
    r: Result<(), AclErrorView>,
)
    requires
        acl.schemes.contains(scheme),
        0 <= i < acl.host_rules.len(),
        acl.host_rules[i].allow,
        surely(acl.host_rules[i], normalized(name)),
        acl.may_validate(scheme, Some(HostView::Domain(name)), r),
    ensures
        r == Ok::<(), AclErrorView>(()),
{
    let d = choose|d: HostDecision| #[trigger]
        acl.may_decide_host(name, d) && r == domain_outcome(name, d);
    law_allow_wins(acl.host_rules, i, normalized(name), d);
}

/// A URL with a domain name that a deny rule matches, and no allow rule can
/// match, is denied under the normal form of that name.
pub proof fn law_denied_domain_fails(
    acl: AclView,
    i: int,
    scheme: Seq<char>,
    name: Seq<char>,
    r: Result<(), AclErrorView>,
)
    requires
        acl.schemes.contains(scheme),
        0 <= i < acl.host_rules.len(),
        !acl.host_rules[i].allow,
        surely(acl.host_rules[i], normalized(name)),
        !can_match(acl.host_rules, normalized(name), true),
        acl.may_validate(scheme, Some(HostView::Domain(name)), r),
    ensures
        r == Err::<(), _>(AclErrorView::DeniedHost(normalized(name))),
{
    let d = choose|d: HostDecision| #[trigger]
        acl.may_decide_host(name, d) && r == domain_outcome(name, d);
    law_deny_without_allow(acl.host_rules, i, normalized(name), d);
}

/// A URL with an address that an allow rule matches passes, if its scheme is
/// accepted.
pub proof fn law_allowed_address_passes(
    acl: AclView,
    i: int,
    scheme: Seq<char>,
    ip: IpAddr,
    r: Result<(), AclErrorView>,
)
    requires
        acl.schemes.contains(scheme),
        0 <= i < acl.ip_rules.len(),
        acl.ip_rules[i].allow,
        surely(acl.ip_rules[i], ip),
        acl.may_validate(scheme, Some(HostView::Ip(ip)), r),
    ensures
        r == Ok::<(), AclErrorView>(()),
{
    let allowed = choose|allowed: bool| #[trigger]
        acl.may_answer_ip(ip, allowed) && r == ip_outcome(ip, allowed);
    law_explicit_allow(acl, i, ip, allowed);
}

/// A URL with an address that a deny rule matches, and no allow rule can match,
/// is denied for that address.
pub proof fn law_denied_address_fails(
    acl: AclView,
    i: int,
    scheme: Seq<char>,
    ip: IpAddr,
    r: Result<(), AclErrorView>,
)
    requires
        acl.schemes.contains(scheme),
        0 <= i < acl.ip_rules.len(),
        !acl.ip_rules[i].allow,
        surely(acl.ip_rules[i], ip),
        !can_match(acl.ip_rules, ip, true),
        acl.may_validate(scheme, Some(HostView::Ip(ip)), r),
    ensures
        r == Err::<(), _>(AclErrorView::DeniedIp(ip)),
{
    let allowed = choose|allowed: bool| #[trigger]
        acl.may_answer_ip(ip, allowed) && r == ip_outcome(ip, allowed);
    law_explicit_deny(acl, i, ip, allowed);
}

/// Every error ends by naming the list as its cause.
pub proof fn law_error_text(e: AclErrorView)
    ensures
        "denied by ACL"@.is_suffix_of(e.text()),
{
    reveal_strlit(" is denied by ACL");
    reveal_strlit("denied by ACL");
    let t = e.text();
    let end = "denied by ACL"@;
    assert(end =~= t.subrange(t.len() - end.len(), t.len() as int));
}

/// A URL without a host passes if and only if its scheme is accepted.
pub proof fn law_urls_without_host(
    acl: AclView,
    scheme: Seq<char>,
    i: int,
    r: Result<(), AclErrorView>,
)
    requires
        0 <= i < acl.schemes.len(),
        acl.schemes[i] == scheme,
    ensures
        acl.may_validate(scheme, None, r) <==> r == Ok::<(), AclErrorView>(()),
{
}

/// A URL whose scheme is none of those accepted is denied for that scheme, and
/// in no other way.
pub proof fn law_urls_of_other_schemes(
    acl: AclView,
    scheme: Seq<char>,
    host: Option<HostView>,
    r: Result<(), AclErrorView>,
)
    requires
        forall|i: int| 0 <= i < acl.schemes.len() ==> #[trigger] acl.schemes[i] != scheme,
    ensures
        acl.may_validate(scheme, host, r) <==> (r matches Err(AclErrorView::DeniedScheme(s)) && s
            == scheme),
{
}

/// A URL with an address passes exactly where the IP layer of the list permits
/// that address, and is denied for that address exactly where it does not.
pub proof fn law_urls_with_address(
    acl: AclView,
    scheme: Seq<char>,
    i: int,
    ip: IpAddr,
    r: Result<(), AclErrorView>,
)
    requires
        0 <= i < acl.schemes.len(),
        acl.schemes[i] == scheme,
    ensures
        acl.may_validate(scheme, Some(HostView::Ip(ip)), r) <==> {
            ||| r == Ok::<(), AclErrorView>(()) && acl.may_answer_ip(ip, true)
            ||| (r matches Err(AclErrorView::DeniedIp(a)) && a == ip) && acl.may_answer_ip(
                ip,
                false,
            )
        },
{
    if r == Ok::<(), AclErrorView>(()) && acl.may_answer_ip(ip, true) {
        assert(acl.may_answer_ip(ip, true) && r == ip_outcome(ip, true));
    }
    if (r matches Err(AclErrorView::DeniedIp(a)) && a == ip) && acl.may_answer_ip(ip, false) {
        assert(acl.may_answer_ip(ip, false) && r == ip_outcome(ip, false));
    }
}

/// A URL with an address that no rule can match gets the default of the list.
pub proof fn law_unmatched_address_gets_the_default(
    acl: AclView,
    scheme: Seq<char>,
    i: int,
    ip: IpAddr,
    r: Result<(), AclErrorView>,
)
    requires
        0 <= i < acl.schemes.len(),
        acl.schemes[i] == scheme,
        forall|j: int| 0 <= j < acl.ip_rules.len() ==> !((#[trigger] acl.ip_rules[j].may)(ip, true)),
        acl.may_validate(scheme, Some(HostView::Ip(ip)), r),
    ensures
        acl.default_allow ==> r == Ok::<(), AclErrorView>(()),
        !acl.default_allow ==> (r matches Err(AclErrorView::DeniedIp(a)) && a == ip),
{
    law_urls_with_address(acl, scheme, i, ip, r);
    law_answers(acl, ip);
}

/// A URL with a domain name is denied exactly where the host layer of the list
/// denies that name, under the name up to the dots at its end in lower case, and
/// passes exactly where the host layer allows it or leaves it open.
pub proof fn law_urls_with_domain(
    acl: AclView,
    scheme: Seq<char>,
    i: int,
    host: Seq<char>,
    n: Seq<char>,
    r: Result<(), AclErrorView>,
)
    requires
        0 <= i < acl.schemes.len(),
        acl.schemes[i] == scheme,
        n.len() <= host.len(),
        forall|i: int|
            0 <= i < n.len() ==> (#[trigger] n[i]) as int == (if 65 <= host[i] as int <= 90 {
                host[i] as int + 32
            } else {
                host[i] as int
            }),
        forall|i: int| n.len() <= i < host.len() ==> host[i] == '.',
        n.len() > 0 ==> host[n.len() - 1] != '.',
    ensures
        acl.may_validate(scheme, Some(HostView::Domain(host)), r) <==> {
            ||| r == Ok::<(), AclErrorView>(()) && acl.may_decide_host(host, HostDecision::Allow)
            ||| r == Ok::<(), AclErrorView>(()) && acl.may_decide_host(host, HostDecision::Continue)
            ||| (r matches Err(AclErrorView::DeniedHost(h)) && h == n) && acl.may_decide_host(
                host,
                HostDecision::Deny,
            )
        },
{
    law_normal_form_is_unique(host, n);
    if r == Ok::<(), AclErrorView>(()) && acl.may_decide_host(host, HostDecision::Allow) {
        assert(r == domain_outcome(host, HostDecision::Allow));
    }
    if r == Ok::<(), AclErrorView>(()) && acl.may_decide_host(host, HostDecision::Continue) {
        assert(r == domain_outcome(host, HostDecision::Continue));
    }
    if (r matches Err(AclErrorView::DeniedHost(h)) && h == n) && acl.may_decide_host(
        host,
        HostDecision::Deny,
    ) {
        assert(r == domain_outcome(host, HostDecision::Deny));
    }
}

/// The outcome of a validation is read as it was returned.
pub proof fn law_outcomes(r: Result<(), AclError>, text: String, ip: IpAddr)
    ensures
        r is Ok <==> outcome(r) == Ok::<(), AclErrorView>(()),
        r matches Err(e) ==> outcome(r) == Err::<(), _>(e@),
        AclError::DeniedScheme(text)@ == AclErrorView::DeniedScheme(text@),
        AclError::DeniedIp(ip)@ == AclErrorView::DeniedIp(ip),
        AclError::DeniedHost(text)@ == AclErrorView::DeniedHost(text@),
{
}

/// The host of a URL is read as the name or the address that it is.
pub proof fn law_hosts(host: Option<Host>, name: String, v4: Ipv4Addr, v6: Ipv6Addr)
    ensures
        opt_host(host) is Some <==> host is Some,
        host matches Some(h) ==> opt_host(host) == Some(h@),
        Host::Domain(name)@ == HostView::Domain(name@),
        Host::Ipv4(v4)@ == HostView::Ip(IpAddr::V4(v4)),
        Host::Ipv6(v6)@ == HostView::Ip(IpAddr::V6(v6)),
{
}

/// The words of an error: what was denied, in full, between fixed words.
pub proof fn law_error_words(s: Seq<char>, ip: IpAddr)
    ensures
        AclErrorView::DeniedScheme(s).text() ==
            seq!['s', 'c', 'h', 'e', 'm', 'e', ' ']
            + s
            + seq![' ', 'i', 's', ' ', 'd', 'e', 'n', 'i', 'e', 'd', ' ', 'b', 'y', ' ', 'A',
                'C', 'L'],
        AclErrorView::DeniedIp(ip).text() ==
            seq!['a', 'd', 'd', 'r', 'e', 's', 's', ' ']
            + ip_text(ip)
            + seq![' ', 'i', 's', ' ', 'd', 'e', 'n', 'i', 'e', 'd', ' ', 'b', 'y', ' ', 'A',
                'C', 'L'],
        AclErrorView::DeniedHost(s).text() ==
            seq!['h', 'o', 's', 't', ' ']
            + s
            + seq![' ', 'i', 's', ' ', 'd', 'e', 'n', 'i', 'e', 'd', ' ', 'b', 'y', ' ', 'A',
                'C', 'L'],
{
    reveal_strlit("scheme ");
    reveal_strlit("address ");
    reveal_strlit("host ");
    reveal_strlit(" is denied by ACL");
    assert("scheme "@ =~= seq!['s', 'c', 'h', 'e', 'm', 'e', ' ']);
    assert("address "@ =~= seq!['a', 'd', 'd', 'r', 'e', 's', 's', ' ']);
    assert("host "@ =~= seq!['h', 'o', 's', 't', ' ']);
    assert(" is denied by ACL"@ =~=
        seq![' ', 'i', 's', ' ', 'd', 'e', 'n', 'i', 'e', 'd', ' ', 'b', 'y', ' ', 'A', 'C',
            'L']);
}

} // verus!

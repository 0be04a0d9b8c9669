//! The access-control list: building one, and judging hosts and addresses by it.

use crate::addr::IpAddr;
use crate::laws::hosts::law_normalizing_twice;
use crate::local::local;
use crate::net::IpNet;
use crate::rule::{
    answers, decision, host_fn_may, host_fn_ready, lemma_one_more, matched, may_decide, HostDecision, HostEndsWith,
    HostFn, HostIs, HostRule, HostTest, InLocalNetwork, InNetwork, IpFn, IpTest, Rule, RuleView,
};
use crate::text::{ascii_lower, came_from, normalize_host, normalized};
use std::sync::Arc;
use vstd::prelude::*;

verus! {

/// What an [`Acl`] holds.
#[verifier::ext_equal]
pub struct AclView {
    /// The rules of the IP layer, in the order in which they were added.
    pub ip_rules: Seq<RuleView<IpAddr>>,
    /// The rules of the host layer, in the order in which they were added.
    pub host_rules: Seq<RuleView<Seq<char>>>,
    /// The schemes that a URL may have.
    pub schemes: Seq<Seq<char>>,
    /// The answer of the IP layer where none of its rules matches.
    pub default_allow: bool,
}

impl AclView {
    /// This list with one more IP rule.
    pub open spec fn with_ip_rule(self, rule: RuleView<IpAddr>) -> AclView {
        AclView { ip_rules: self.ip_rules.push(rule), ..self }
    }

    /// This list with one more host rule.
    pub open spec fn with_host_rule(self, rule: RuleView<Seq<char>>) -> AclView {
        AclView { host_rules: self.host_rules.push(rule), ..self }
    }

    /// The answer of the IP layer, given what its rules decide.
    pub open spec fn ip_answer(self, d: HostDecision) -> bool {
        match d {
            HostDecision::Allow => true,
            HostDecision::Deny => false,
            HostDecision::Continue => self.default_allow,
        }
    }

    /// The IP layer can answer `allowed` about `ip`.
    pub open spec fn may_answer_ip(self, ip: IpAddr, allowed: bool) -> bool {
        exists|d: HostDecision| #[trigger]
            may_decide(self.ip_rules, ip, d) && allowed == self.ip_answer(d)
    }

    /// The host layer can decide `d` about `host`.
    pub open spec fn may_decide_host(self, host: Seq<char>, d: HostDecision) -> bool {
        may_decide(self.host_rules, normalized(host), d)
    }
}

/// An access-control list made of allow and deny rules.
///
/// # Evaluation
///
/// There are two layers, host rules and IP rules, and in both an explicit allow
/// wins. Within a layer the order of the rules does not matter.
///
/// Host rules come first, and see the host name in lower case and without a dot
/// at its end:
///
/// 1. An allow rule matches: the connection is allowed, and the IP layer is
///    skipped. This switches the protection off for that host; use it only for
///    hosts that you trust.
/// 2. A deny rule matches: the connection is denied, without a DNS lookup.
/// 3. Neither: the IP layer decides.
///
/// IP rules see the addresses that the name resolves to, or the address that a
/// URL spells out:
///
/// 1. An allow rule matches: allowed.
/// 2. A deny rule matches: denied.
/// 3. Neither: the default, which is to allow unless [`Acl::default_deny`] was
///    called.
pub struct Acl {
    rules: Vec<Rule>,
    host_rules: Vec<HostRule>,
    allowed_schemes: Vec<String>,
    default_allow: bool,
}

impl View for Acl {
    type V = AclView;

    closed spec fn view(&self) -> AclView {
        AclView {
            ip_rules: self.rules@.map_values(|r: Rule| r.model()),
            host_rules: self.host_rules@.map_values(|r: HostRule| r.model()),
            schemes: self.allowed_schemes@.map_values(|s: String| s@),
            default_allow: self.default_allow,
        }
    }
}

impl Acl {
    /// An empty list, which allows every address and the schemes `http` and
    /// `https`.
    pub fn new() -> (r: Acl)
        ensures
            r@ == (AclView {
                ip_rules: seq![],
                host_rules: seq![],
                schemes: seq!["http"@, "https"@],
                default_allow: true,
            }),
    {
        let r = Acl {
            rules: Vec::new(),
            host_rules: Vec::new(),
            allowed_schemes: vec![String::from("http"), String::from("https")],
            default_allow: true,
        };
        assert(r@.schemes =~= seq!["http"@, "https"@]);
        assert(r@.ip_rules =~= seq![]);
        assert(r@.host_rules =~= seq![]);
        r
    }

    fn push_ip_rule(self, rule: Rule) -> (r: Acl)
        ensures
            r@ == self@.with_ip_rule(rule.model()),
    {
        let mut acl = self;
        acl.rules.push(rule);
        assert(acl@.ip_rules =~= self@.ip_rules.push(rule.model()));
        acl
    }

    fn push_host_rule(self, rule: HostRule) -> (r: Acl)
        ensures
            r@ == self@.with_host_rule(rule.model()),
    {
        let mut acl = self;
        acl.host_rules.push(rule);
        assert(acl@.host_rules =~= self@.host_rules.push(rule.model()));
        acl
    }

    /// Deny every address of the local network; see
    /// [`is_local_network`](crate::is_local_network).
    pub fn deny_local_network(self) -> (r: Acl)
        ensures
            r@ == self@.with_ip_rule(RuleView::exactly(false, |ip: IpAddr| local(ip))),
    {
        let test = IpTest { p: Box::new(InLocalNetwork) };
        let rule = Rule::Deny(Arc::new(test));
        assert(rule.model() =~= RuleView::exactly(false, |ip: IpAddr| local(ip)));
        self.push_ip_rule(rule)
    }

    /// Deny every address for which `f` returns true.
    pub fn deny_ip_when<F>(self, f: F) -> (r: Acl) where F: Fn(IpAddr) -> bool + Send + Sync + 'static
        requires
            forall|ip: IpAddr| #[trigger] call_requires(f, (ip,)),
        ensures
            r@ == self@.with_ip_rule(
                RuleView { allow: false, may: |ip: IpAddr, hit: bool| call_ensures(f, (ip,), hit) },
            ),
    {
        let test = IpTest { p: Box::new(IpFn::new(f)) };
        let rule = Rule::Deny(Arc::new(test));
        assert(rule.model() =~= RuleView {
            allow: false,
            may: |ip: IpAddr, hit: bool| call_ensures(f, (ip,), hit),
        });
        self.push_ip_rule(rule)
    }

    /// Allow every address for which `f` returns true, whatever the deny rules say.
    pub fn allow_ip_when<F>(self, f: F) -> (r: Acl) where F: Fn(IpAddr) -> bool + Send + Sync + 'static
        requires
            forall|ip: IpAddr| #[trigger] call_requires(f, (ip,)),
        ensures
            r@ == self@.with_ip_rule(
                RuleView { allow: true, may: |ip: IpAddr, hit: bool| call_ensures(f, (ip,), hit) },
            ),
    {
        let test = IpTest { p: Box::new(IpFn::new(f)) };
        let rule = Rule::Allow(Arc::new(test));
        assert(rule.model() =~= RuleView {
            allow: true,
            may: |ip: IpAddr, hit: bool| call_ensures(f, (ip,), hit),
        });
        self.push_ip_rule(rule)
    }

    /// Deny every address of the network `cidr`. For a single address, use a
    /// prefix of 32 bits (IPv4) or 128 bits (IPv6).
    pub fn deny_cidr(self, cidr: IpNet) -> (r: Acl)
        ensures
            r@ == self@.with_ip_rule(RuleView::exactly(false, |ip: IpAddr| cidr.covers(ip))),
    {
        let test = IpTest { p: Box::new(InNetwork { net: cidr }) };
        let rule = Rule::Deny(Arc::new(test));
        assert(rule.model() =~= RuleView::exactly(false, |ip: IpAddr| cidr.covers(ip)));
        self.push_ip_rule(rule)
    }

    /// Allow every address of the network `cidr`, whatever the deny rules say.
    /// For a single address, use a prefix of 32 bits (IPv4) or 128 bits (IPv6).
    pub fn allow_cidr(self, cidr: IpNet) -> (r: Acl)
        ensures
            r@ == self@.with_ip_rule(RuleView::exactly(true, |ip: IpAddr| cidr.covers(ip))),
    {
        let test = IpTest { p: Box::new(InNetwork { net: cidr }) };
        let rule = Rule::Allow(Arc::new(test));
        assert(rule.model() =~= RuleView::exactly(true, |ip: IpAddr| cidr.covers(ip)));
        self.push_ip_rule(rule)
    }

    /// Deny the host `name`, in upper or lower case. The rule looks at the name
    /// itself, before it is resolved.
    pub fn deny_host(self, name: impl Into<String>) -> (r: Acl)
        ensures
            exists|s: String| #[trigger]
                came_from(name, s) && r@ == self@.with_host_rule(
                    RuleView::exactly(false, |host: Seq<char>| host == normalized(s@)),
                ),
    {
        let text: String = name.into();
        assert(came_from(name, text));
        let test = HostTest { p: Box::new(HostIs { name: normalize_host(text.as_str()) }) };
        let rule = HostRule::Deny(Arc::new(test));
        assert(rule.model() =~= RuleView::exactly(
            false,
            |host: Seq<char>| host == normalized(text@),
        ));
        self.push_host_rule(rule)
    }

    /// Allow the host `name`, in upper or lower case. This skips IP filtering for
    /// that host: see the type's documentation.
    pub fn allow_host(self, name: impl Into<String>) -> (r: Acl)
        ensures
            exists|s: String| #[trigger]
                came_from(name, s) && r@ == self@.with_host_rule(
                    RuleView::exactly(true, |host: Seq<char>| host == normalized(s@)),
                ),
    {
        let text: String = name.into();
        assert(came_from(name, text));
        let test = HostTest { p: Box::new(HostIs { name: normalize_host(text.as_str()) }) };
        let rule = HostRule::Allow(Arc::new(test));
        assert(rule.model() =~= RuleView::exactly(
            true,
            |host: Seq<char>| host == normalized(text@),
        ));
        self.push_host_rule(rule)
    }

    /// Deny every host whose name ends with `suffix`, in upper or lower case.
    /// With a dot in front (`.example.com`) only strict subdomains match.
    pub fn deny_host_suffix(self, suffix: impl Into<String>) -> (r: Acl)
        ensures
            exists|s: String| #[trigger]
                came_from(suffix, s) && r@ == self@.with_host_rule(
                    RuleView::exactly(false, |host: Seq<char>| normalized(s@).is_suffix_of(host)),
                ),
    {
        let text: String = suffix.into();
        assert(came_from(suffix, text));
        let test = HostTest {
            p: Box::new(HostEndsWith { suffix: normalize_host(text.as_str()) }),
        };
        let rule = HostRule::Deny(Arc::new(test));
        assert(rule.model() =~= RuleView::exactly(
            false,
            |host: Seq<char>| normalized(text@).is_suffix_of(host),
        ));
        self.push_host_rule(rule)
    }

    /// Allow every host whose name ends with `suffix`, in upper or lower case.
    /// With a dot in front (`.example.com`) only strict subdomains match.
    /// This skips IP filtering for those hosts.
    pub fn allow_host_suffix(self, suffix: impl Into<String>) -> (r: Acl)
        ensures
            exists|s: String| #[trigger]
                came_from(suffix, s) && r@ == self@.with_host_rule(
                    RuleView::exactly(true, |host: Seq<char>| normalized(s@).is_suffix_of(host)),
                ),
    {
        let text: String = suffix.into();
        assert(came_from(suffix, text));
        let test = HostTest {
            p: Box::new(HostEndsWith { suffix: normalize_host(text.as_str()) }),
        };
        let rule = HostRule::Allow(Arc::new(test));
        assert(rule.model() =~= RuleView::exactly(
            true,
            |host: Seq<char>| normalized(text@).is_suffix_of(host),
        ));
        self.push_host_rule(rule)
    }

    /// Deny every host for which `f` returns true. `f` sees the name in lower
    /// case and without a dot at its end.
    pub fn deny_host_when<F>(self, f: F) -> (r: Acl) where F: Fn(&str) -> bool + Send + Sync + 'static
        requires
            host_fn_ready(f),
        ensures
            r@ == self@.with_host_rule(
                RuleView {
                    allow: false,
                    may: |host: Seq<char>, hit: bool| host_fn_may(f, host, hit),
                },
            ),
    {
        let test = HostTest { p: Box::new(HostFn::new(f)) };
        let rule = HostRule::Deny(Arc::new(test));
        assert(rule.model() =~= RuleView {
            allow: false,
            may: |host: Seq<char>, hit: bool| host_fn_may(f, host, hit),
        });
        self.push_host_rule(rule)
    }

    /// Allow every host for which `f` returns true. `f` sees the name in lower
    /// case and without a dot at its end. This skips IP filtering for those
    /// hosts.
    pub fn allow_host_when<F>(self, f: F) -> (r: Acl) where F: Fn(&str) -> bool + Send + Sync + 'static
        requires
            host_fn_ready(f),
        ensures
            r@ == self@.with_host_rule(
                RuleView {
                    allow: true,
                    may: |host: Seq<char>, hit: bool| host_fn_may(f, host, hit),
                },
            ),
    {
        let test = HostTest { p: Box::new(HostFn::new(f)) };
        let rule = HostRule::Allow(Arc::new(test));
        assert(rule.model() =~= RuleView {
            allow: true,
            may: |host: Seq<char>, hit: bool| host_fn_may(f, host, hit),
        });
        self.push_host_rule(rule)
    }

    /// What the host rules decide about `host`.
    pub fn host_decision(&self, host: &str) -> (r: HostDecision)
        ensures
            self@.may_decide_host(host@, r),
    {
        let ghost given = host@;
        let host: String = normalize_host(host);
        proof {
            law_normalizing_twice(given);
        }
        let mut any_allow = false;
        let mut any_deny = false;
        let ghost rules = self@.host_rules;
        let ghost mut hits: Seq<bool> = seq![];
        for i in 0..self.host_rules.len()
            invariant
                normalized(host@) == host@,
                rules == self@.host_rules,
                rules.len() == self.host_rules.len(),
                answers(rules.take(i as int), host@, hits),
                any_allow == matched(rules.take(i as int), hits, true),
                any_deny == matched(rules.take(i as int), hits, false),
        {
            let hit: bool = match &self.host_rules[i] {
                HostRule::Allow(t) => {
                    let hit: bool = t.p.test(&host);
                    any_allow = any_allow || hit;
                    hit
                },
                HostRule::Deny(t) => {
                    let hit: bool = t.p.test(&host);
                    any_deny = any_deny || hit;
                    hit
                },
            };
            proof {
                lemma_one_more(rules, i as int, host@, hits, hit);
                hits = hits.push(hit);
            }
        }
        assert(rules.take(rules.len() as int) =~= rules);
        if any_allow {
            HostDecision::Allow
        } else if any_deny {
            HostDecision::Deny
        } else {
            HostDecision::Continue
        }
    }

    /// Let [`Acl::validate_url`] accept exactly the given schemes, in upper or
    /// lower case, in place of those it accepted so far. With none given, it
    /// accepts no URL at all.
    ///
    /// The schemes of a new list are `http` and `https`. This keeps out schemes
    /// without a host, such as `file:` and `data:`, which the host and IP rules
    /// would not see.
    pub fn restrict_schemes(self, schemes: &[&str]) -> (r: Acl)
        ensures
            r@ == (AclView { schemes: schemes@.map_values(|s: &str| ascii_lower(s@)), ..self@ }),
    {
        let mut allowed: Vec<String> = Vec::new();
        for i in 0..schemes.len()
            invariant
                allowed.len() == i,
                forall|j: int| 0 <= j < i ==> #[trigger] allowed[j]@ == ascii_lower(schemes[j]@),
        {
            allowed.push(schemes[i].to_ascii_lowercase());
        }
        let mut acl = self;
        acl.allowed_schemes = allowed;
        assert(acl@.schemes =~= schemes@.map_values(|s: &str| ascii_lower(s@)));
        acl
    }

    /// Deny every address that no rule allows.
    pub fn default_deny(self) -> (r: Acl)
        ensures
            r@ == (AclView { default_allow: false, ..self@ }),
    {
        let mut acl = self;
        acl.default_allow = false;
        acl
    }

    /// Whether the IP rules permit a connection to `ip`. The host rules are not
    /// asked.
    pub fn is_allowed_ip(&self, ip: IpAddr) -> (r: bool)
        ensures
            self@.may_answer_ip(ip, r),
    {
        let mut any_allow = false;
        let mut any_deny = false;
        let ghost rules = self@.ip_rules;
        let ghost mut hits: Seq<bool> = seq![];
        for i in 0..self.rules.len()
            invariant
                rules == self@.ip_rules,
                rules.len() == self.rules.len(),
                answers(rules.take(i as int), ip, hits),
                any_allow == matched(rules.take(i as int), hits, true),
                any_deny == matched(rules.take(i as int), hits, false),
        {
            let hit: bool = match &self.rules[i] {
                Rule::Allow(t) => {
                    let hit: bool = t.p.test(ip);
                    any_allow = any_allow || hit;
                    hit
                },
                Rule::Deny(t) => {
                    let hit: bool = t.p.test(ip);
                    any_deny = any_deny || hit;
                    hit
                },
            };
            proof {
                lemma_one_more(rules, i as int, ip, hits, hit);
                hits = hits.push(hit);
            }
        }
        proof {
            assert(rules.take(rules.len() as int) =~= rules);
            assert(may_decide(rules, ip, decision(rules, hits)));
        }
        if any_allow {
            return true;
        }
        if any_deny {
            return false;
        }
        self.default_allow
    }

    /// Whether `scheme` is one of the schemes that a URL may have.
    pub(crate) fn allows_scheme(&self, scheme: &String) -> (r: bool)
        ensures
            r == self@.schemes.contains(scheme@),
    {
        let ghost schemes = self@.schemes;
        for i in 0..self.allowed_schemes.len()
            invariant
                schemes == self@.schemes,
                schemes.len() == self.allowed_schemes.len(),
                forall|j: int| 0 <= j < i ==> #[trigger] schemes[j] != scheme@,
        {
            if self.allowed_schemes[i] == *scheme {
                assert(schemes[i as int] == scheme@);
                return true;
            }
        }
        false
    }
}

impl Default for Acl {
    fn default() -> (r: Acl)
        ensures
            r@ == (AclView {
                ip_rules: seq![],
                host_rules: seq![],
                schemes: seq!["http"@, "https"@],
                default_allow: true,
            }),
    {
        Acl::new()
    }
}

impl Clone for Acl {
    fn clone(&self) -> (r: Acl)
        ensures
            r@ == self@,
    {
        let r = Acl {
            rules: self.rules.clone(),
            host_rules: self.host_rules.clone(),
            allowed_schemes: self.allowed_schemes.clone(),
            default_allow: self.default_allow,
        };
        assert(r@.ip_rules =~= self@.ip_rules);
        assert(r@.host_rules =~= self@.host_rules);
        assert(r@.schemes =~= self@.schemes);
        r
    }
}

} // verus!

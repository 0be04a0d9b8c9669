//! Allow and deny rules, and how the rules of one layer decide together.

use crate::addr::IpAddr;
use crate::local::{is_local_network, local};
use crate::net::IpNet;
use crate::text::{ends_with, normalized};
use std::sync::Arc;
use vstd::prelude::*;

verus! {

/// A rule of a layer that judges values of type `T`.
///
/// A rule may rest on a caller's closure, which need not answer the same way
/// twice: `may(x, hit)` says that, asked about `x`, the rule can answer `hit`.
#[verifier::ext_equal]
#[verifier::reject_recursive_types(T)]
pub struct RuleView<T> {
    pub allow: bool,
    pub may: spec_fn(T, bool) -> bool,
}

impl<T> RuleView<T> {
    /// A rule that matches exactly the values of which `holds` is true.
    pub open spec fn exactly(allow: bool, holds: spec_fn(T) -> bool) -> RuleView<T> {
        RuleView { allow, may: |x: T, hit: bool| hit == holds(x) }
    }
}

/// `hits` are answers that the rules can give about `x`, one for each rule.
pub open spec fn answers<T>(rules: Seq<RuleView<T>>, x: T, hits: Seq<bool>) -> bool {
    &&& hits.len() == rules.len()
    &&& forall|i: int| 0 <= i < rules.len() ==> (#[trigger] rules[i].may)(x, hits[i])
}

/// An allow rule (or, where `allow` is false, a deny rule) is among the rules
/// that matched.
pub open spec fn matched<T>(rules: Seq<RuleView<T>>, hits: Seq<bool>, allow: bool) -> bool {
    exists|i: int| 0 <= i < rules.len() && (#[trigger] rules[i]).allow == allow && hits[i]
}

/// What the rules of a layer decide; see
/// [`Acl::host_decision`](crate::Acl::host_decision).
#[derive(Clone, Copy, Debug, PartialEq, Eq, Structural)]
pub enum HostDecision {
    /// The host is explicitly allowed; skip IP filtering.
    Allow,
    /// The host is explicitly denied; reject without resolving DNS.
    Deny,
    /// No host rule matched; proceed to the IP layer.
    Continue,
}

/// The decision that follows from the answers of the rules: an allow rule that
/// matched wins, then a deny rule that matched.
pub open spec fn decision<T>(rules: Seq<RuleView<T>>, hits: Seq<bool>) -> HostDecision {
    if matched(rules, hits, true) {
        HostDecision::Allow
    } else if matched(rules, hits, false) {
        HostDecision::Deny
    } else {
        HostDecision::Continue
    }
}

/// The rules can decide `d` about `x`.
pub open spec fn may_decide<T>(rules: Seq<RuleView<T>>, x: T, d: HostDecision) -> bool {
    exists|hits: Seq<bool>| #[trigger] answers(rules, x, hits) && d == decision(rules, hits)
}

/// The answer of one more rule, after the answers of the first `n`.
pub(crate) proof fn lemma_one_more<T>(rules: Seq<RuleView<T>>, n: int, x: T, hits: Seq<bool>, hit: bool)
    requires
        0 <= n < rules.len(),
        answers(rules.take(n), x, hits),
        (rules[n].may)(x, hit),
    ensures
        answers(rules.take(n + 1), x, hits.push(hit)),
        forall|allow: bool| #[trigger]
            matched(rules.take(n + 1), hits.push(hit), allow) == (matched(
                rules.take(n),
                hits,
                allow,
            ) || (rules[n].allow == allow && hit)),
{
    let old_rules = rules.take(n);
    let new_rules = rules.take(n + 1);
    let new_hits = hits.push(hit);
    assert forall|i: int| 0 <= i < new_rules.len() implies (#[trigger] new_rules[i].may)(
        x,
        new_hits[i],
    ) by {
        if i < n {
            assert(new_rules[i] == old_rules[i]);
        }
    }
    assert forall|allow: bool| #[trigger]
        matched(new_rules, new_hits, allow) == (matched(old_rules, hits, allow) || (rules[n].allow
            == allow && hit)) by {
        if matched(old_rules, hits, allow) {
            let i = choose|i: int|
                0 <= i < old_rules.len() && (#[trigger] old_rules[i]).allow == allow && hits[i];
            assert(new_rules[i].allow == allow && new_hits[i]);
        }
        if rules[n].allow == allow && hit {
            assert(new_rules[n].allow == allow && new_hits[n]);
        }
        if matched(new_rules, new_hits, allow) {
            let i = choose|i: int|
                0 <= i < new_rules.len() && (#[trigger] new_rules[i]).allow == allow && new_hits[i];
            if i < n {
                assert(old_rules[i].allow == allow && hits[i]);
            }
        }
    }
}

/// A test on addresses.
pub(crate) trait IpPredicate: Send + Sync {
    /// Asked about `ip`, the test can answer `hit`.
    spec fn may(&self, ip: IpAddr, hit: bool) -> bool;

    fn test(&self, ip: IpAddr) -> (hit: bool)
        ensures
            self.may(ip, hit),
    ;
}

/// A test on normalized host names.
pub(crate) trait HostPredicate: Send + Sync {
    /// Asked about `host`, the test can answer `hit`.
    spec fn may(&self, host: Seq<char>, hit: bool) -> bool;

    fn test(&self, host: &String) -> (hit: bool)
        requires
            normalized(host@) == host@,
        ensures
            self.may(host@, hit),
    ;
}

/// The addresses of the local network.
pub(crate) struct InLocalNetwork;

impl IpPredicate for InLocalNetwork {
    open spec fn may(&self, ip: IpAddr, hit: bool) -> bool {
        hit == local(ip)
    }

    fn test(&self, ip: IpAddr) -> (hit: bool) {
        is_local_network(ip)
    }
}

/// The addresses of a network.
pub(crate) struct InNetwork {
    pub(crate) net: IpNet,
}

impl IpPredicate for InNetwork {
    open spec fn may(&self, ip: IpAddr, hit: bool) -> bool {
        hit == self.net.covers(ip)
    }

    fn test(&self, ip: IpAddr) -> (hit: bool) {
        self.net.contains(ip)
    }
}

/// The addresses that a closure accepts.
pub(crate) struct IpFn<F: Fn(IpAddr) -> bool> {
    f: F,
}

impl<F: Fn(IpAddr) -> bool> IpFn<F> {
    #[verifier::type_invariant]
    spec fn total(self) -> bool {
        forall|ip: IpAddr| #[trigger] call_requires(self.f, (ip,))
    }

    pub(crate) fn new(f: F) -> (r: Self)
        requires
            forall|ip: IpAddr| #[trigger] call_requires(f, (ip,)),
        ensures
            r.inner() == f,
    {
        IpFn { f }
    }

    pub(crate) closed spec fn inner(self) -> F {
        self.f
    }
}

impl<F: Fn(IpAddr) -> bool + Send + Sync> IpPredicate for IpFn<F> {
    open spec fn may(&self, ip: IpAddr, hit: bool) -> bool {
        call_ensures(self.inner(), (ip,), hit)
    }

    fn test(&self, ip: IpAddr) -> (hit: bool) {
        proof {
            use_type_invariant(self);
        }
        (self.f)(ip)
    }
}

/// One host name.
pub(crate) struct HostIs {
    pub(crate) name: String,
}

impl HostPredicate for HostIs {
    open spec fn may(&self, host: Seq<char>, hit: bool) -> bool {
        hit == (host == self.name@)
    }

    fn test(&self, host: &String) -> (hit: bool) {
        *host == self.name
    }
}

/// The host names with one ending.
pub(crate) struct HostEndsWith {
    pub(crate) suffix: String,
}

impl HostPredicate for HostEndsWith {
    open spec fn may(&self, host: Seq<char>, hit: bool) -> bool {
        hit == self.suffix@.is_suffix_of(host)
    }

    fn test(&self, host: &String) -> (hit: bool) {
        ends_with(host.as_str(), self.suffix.as_str())
    }
}

/// The host names that a closure accepts.
pub(crate) struct HostFn<F: Fn(&str) -> bool> {
    f: F,
}

impl<F: Fn(&str) -> bool> HostFn<F> {
    #[verifier::type_invariant]
    spec fn takes_normal_forms(self) -> bool {
        host_fn_ready(self.f)
    }

    pub(crate) fn new(f: F) -> (r: Self)
        requires
            host_fn_ready(f),
        ensures
            r.inner() == f,
    {
        HostFn { f }
    }

    pub(crate) closed spec fn inner(self) -> F {
        self.f
    }
}

/// The closure `f` can be asked about every host name in its normal form.
pub open spec fn host_fn_ready<F: Fn(&str) -> bool>(f: F) -> bool {
    forall|h: &str| normalized(h@) == h@ ==> #[trigger] call_requires(f, (h,))
}

/// The closure `f` can answer `hit` about a string that reads `host`.
pub open spec fn host_fn_may<F: Fn(&str) -> bool>(f: F, host: Seq<char>, hit: bool) -> bool {
    exists|h: &str| h@ == host && #[trigger] call_ensures(f, (h,), hit)
}

impl<F: Fn(&str) -> bool + Send + Sync> HostPredicate for HostFn<F> {
    open spec fn may(&self, host: Seq<char>, hit: bool) -> bool {
        host_fn_may(self.inner(), host, hit)
    }

    fn test(&self, host: &String) -> (hit: bool) {
        proof {
            use_type_invariant(self);
        }
        (self.f)(host.as_str())
    }
}

/// Some test on addresses.
pub(crate) struct IpTest {
    pub(crate) p: Box<dyn IpPredicate>,
}

/// Some test on normalized host names.
pub(crate) struct HostTest {
    pub(crate) p: Box<dyn HostPredicate>,
}

/// An IP rule.
pub(crate) enum Rule {
    Allow(Arc<IpTest>),
    Deny(Arc<IpTest>),
}

impl Rule {
    pub(crate) open spec fn test(self) -> IpTest {
        match self {
            Rule::Allow(t) => *t,
            Rule::Deny(t) => *t,
        }
    }

    /// What the rule does.
    pub(crate) open spec fn model(self) -> RuleView<IpAddr> {
        RuleView {
            allow: self is Allow,
            may: |ip: IpAddr, hit: bool| self.test().p.may(ip, hit),
        }
    }
}

impl Clone for Rule {
    fn clone(&self) -> (r: Self)
        ensures
            r == *self,
    {
        match self {
            Rule::Allow(p) => Rule::Allow(p.clone()),
            Rule::Deny(p) => Rule::Deny(p.clone()),
        }
    }
}

/// A host rule.
pub(crate) enum HostRule {
    Allow(Arc<HostTest>),
    Deny(Arc<HostTest>),
}

impl HostRule {
    pub(crate) open spec fn test(self) -> HostTest {
        match self {
            HostRule::Allow(t) => *t,
            HostRule::Deny(t) => *t,
        }
    }

    /// What the rule does.
    pub(crate) open spec fn model(self) -> RuleView<Seq<char>> {
        RuleView {
            allow: self is Allow,
            may: |host: Seq<char>, hit: bool| self.test().p.may(host, hit),
        }
    }
}

impl Clone for HostRule {
    fn clone(&self) -> (r: Self)
        ensures
            r == *self,
    {
        match self {
            HostRule::Allow(p) => HostRule::Allow(p.clone()),
            HostRule::Deny(p) => HostRule::Deny(p.clone()),
        }
    }
}

} // verus!

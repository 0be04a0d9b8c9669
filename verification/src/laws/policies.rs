//! What the common policies permit.

use crate::acl::AclView;
use crate::addr::IpAddr;
use crate::laws::rules::{
    all_settled, can_match, law_allow_wins, law_decisions, law_deny_without_allow, law_no_match_continues,
    law_rule_order, law_settled_rules_decide, same_rules, surely,
};
use crate::local::local;
use crate::net::IpNet;
use crate::rule::{answers, decision, may_decide, HostDecision, RuleView};
use crate::text::normalized;
use vstd::prelude::*;

verus! {

/// An address that an allow rule matches is permitted, whatever the deny rules
/// and the default say.
pub proof fn law_explicit_allow(acl: AclView, i: int, ip: IpAddr, allowed: bool)
    requires
        0 <= i < acl.ip_rules.len(),
        acl.ip_rules[i].allow,
        surely(acl.ip_rules[i], ip),
        acl.may_answer_ip(ip, allowed),
    ensures
        allowed,
{
    let d = choose|d: HostDecision| #[trigger]
        may_decide(acl.ip_rules, ip, d) && allowed == acl.ip_answer(d);
    law_allow_wins(acl.ip_rules, i, ip, d);
}

/// An address that a deny rule matches and no allow rule can match is denied,
/// whatever the default says.
pub proof fn law_explicit_deny(acl: AclView, i: int, ip: IpAddr, allowed: bool)
    requires
        0 <= i < acl.ip_rules.len(),
        !acl.ip_rules[i].allow,
        surely(acl.ip_rules[i], ip),
        !can_match(acl.ip_rules, ip, true),
        acl.may_answer_ip(ip, allowed),
    ensures
        !allowed,
{
    let d = choose|d: HostDecision| #[trigger]
        may_decide(acl.ip_rules, ip, d) && allowed == acl.ip_answer(d);
    law_deny_without_allow(acl.ip_rules, i, ip, d);
}

/// An address that no rule can match gets the default.
pub proof fn law_default(acl: AclView, ip: IpAddr, allowed: bool)
    requires
        !can_match(acl.ip_rules, ip, true),
        !can_match(acl.ip_rules, ip, false),
        acl.may_answer_ip(ip, allowed),
    ensures
        allowed == acl.default_allow,
{
    let d = choose|d: HostDecision| #[trigger]
        may_decide(acl.ip_rules, ip, d) && allowed == acl.ip_answer(d);
    law_no_match_continues(acl.ip_rules, ip, d);
}

/// With deny as the default, an address is permitted only where an allow rule
/// can match it.
pub proof fn law_allowlist(acl: AclView, ip: IpAddr)
    requires
        !acl.default_allow,
        acl.may_answer_ip(ip, true),
    ensures
        can_match(acl.ip_rules, ip, true),
{
    let d = choose|d: HostDecision| #[trigger]
        may_decide(acl.ip_rules, ip, d) && acl.ip_answer(d);
    if !can_match(acl.ip_rules, ip, true) {
        let hits = choose|hits: Seq<bool>| #[trigger]
            answers(acl.ip_rules, ip, hits) && d == decision(
                acl.ip_rules,
                hits,
            );
        let j = choose|j: int|
            0 <= j < acl.ip_rules.len() && (#[trigger] acl.ip_rules[j]).allow == true && hits[j];
        assert((acl.ip_rules[j].may)(ip, hits[j]));
    }
}

/// The order in which IP rules and host rules were added does not matter.
pub proof fn law_order_of_rules(
    a: AclView,
    b: AclView,
    ip: IpAddr,
    allowed: bool,
    host: Seq<char>,
    d: HostDecision,
)
    requires
        same_rules(a.ip_rules, b.ip_rules),
        same_rules(a.host_rules, b.host_rules),
        a.default_allow == b.default_allow,
    ensures
        a.may_answer_ip(ip, allowed) == b.may_answer_ip(ip, allowed),
        a.may_decide_host(host, d) == b.may_decide_host(host, d),
{
    if a.may_answer_ip(ip, allowed) {
        lemma_same_rules_answer(a, b, ip, allowed);
    }
    if b.may_answer_ip(ip, allowed) {
        lemma_same_rules_answer(b, a, ip, allowed);
    }
    law_rule_order(a.host_rules, b.host_rules, normalized(host), d);
}

proof fn lemma_same_rules_answer(a: AclView, b: AclView, ip: IpAddr, allowed: bool)
    requires
        same_rules(a.ip_rules, b.ip_rules),
        a.default_allow == b.default_allow,
        a.may_answer_ip(ip, allowed),
    ensures
        b.may_answer_ip(ip, allowed),
{
    let d = choose|d: HostDecision| #[trigger]
        may_decide(a.ip_rules, ip, d) && allowed == a.ip_answer(d);
    law_rule_order(a.ip_rules, b.ip_rules, ip, d);
    assert(may_decide(b.ip_rules, ip, d) && allowed == b.ip_answer(d));
}

/// Where every IP rule has one answer about an address, so has the list: an
/// address is permitted if an allow rule matches it, or if no deny rule does
/// and the default is to allow.
pub proof fn law_settled_answer(acl: AclView, ip: IpAddr, allowed: bool)
    requires
        all_settled(acl.ip_rules, ip),
    ensures
        acl.may_answer_ip(ip, allowed) <==> allowed == (can_match(acl.ip_rules, ip, true) || (
        !can_match(acl.ip_rules, ip, false) && acl.default_allow)),
{
    assert forall|d: HostDecision| #[trigger] may_decide(acl.ip_rules, ip, d) <==> d == (
    if can_match(acl.ip_rules, ip, true) {
        HostDecision::Allow
    } else if can_match(acl.ip_rules, ip, false) {
        HostDecision::Deny
    } else {
        HostDecision::Continue
    }) by {
        law_settled_rules_decide(acl.ip_rules, ip, d);
    }
    let only = if can_match(acl.ip_rules, ip, true) {
        HostDecision::Allow
    } else if can_match(acl.ip_rules, ip, false) {
        HostDecision::Deny
    } else {
        HostDecision::Continue
    };
    assert(may_decide(acl.ip_rules, ip, only));
}

/// Denying the local network denies the local addresses and permits all others.
pub proof fn law_deny_local_network(acl: AclView, ip: IpAddr, allowed: bool)
    requires
        acl.ip_rules == seq![RuleView::exactly(false, |a: IpAddr| local(a))],
        acl.default_allow,
    ensures
        acl.may_answer_ip(ip, allowed) <==> allowed == !local(ip),
{
    law_settled_answer(acl, ip, allowed);
    assert((acl.ip_rules[0].may)(ip, true) == local(ip));
}

/// Denying the local network except for one network permits that network, and
/// every address that is not local.
pub proof fn law_deny_local_network_except(acl: AclView, net: IpNet, ip: IpAddr, allowed: bool)
    requires
        acl.ip_rules == seq![
            RuleView::exactly(false, |a: IpAddr| local(a)),
            RuleView::exactly(true, |a: IpAddr| net.covers(a)),
        ],
        acl.default_allow,
    ensures
        acl.may_answer_ip(ip, allowed) <==> allowed == (net.covers(ip) || !local(ip)),
{
    law_settled_answer(acl, ip, allowed);
    assert((acl.ip_rules[0].may)(ip, true) == local(ip));
    assert((acl.ip_rules[1].may)(ip, true) == net.covers(ip));
}

/// What a list can answer about an address, in terms of the answers that its IP
/// rules can give. It can permit the address if some allow rule can match, or if
/// no rule need match and the default is to allow. It can deny the address if
/// some deny rule can match while no allow rule need match, or if no rule need
/// match and the default is to deny.
pub proof fn law_answers(acl: AclView, ip: IpAddr)
    ensures
        acl.may_answer_ip(ip, true) <==> {
            ||| {
                &&& forall|i: int|
                    0 <= i < acl.ip_rules.len() ==> ((#[trigger] acl.ip_rules[i].may)(ip, true) || (
                    acl.ip_rules[i].may)(ip, false))
                &&& exists|i: int|
                    0 <= i < acl.ip_rules.len() && (#[trigger] acl.ip_rules[i]).allow && (
                    acl.ip_rules[i].may)(ip, true)
            }
            ||| {
                &&& acl.default_allow
                &&& forall|i: int|
                    0 <= i < acl.ip_rules.len() ==> (#[trigger] acl.ip_rules[i].may)(ip, false)
            }
        },
        acl.may_answer_ip(ip, false) <==> {
            ||| {
                &&& forall|i: int|
                    0 <= i < acl.ip_rules.len() ==> ((#[trigger] acl.ip_rules[i].may)(ip, true) || (
                    acl.ip_rules[i].may)(ip, false))
                &&& forall|i: int|
                    0 <= i < acl.ip_rules.len() && (#[trigger] acl.ip_rules[i]).allow ==> (
                    acl.ip_rules[i].may)(ip, false)
                &&& exists|i: int|
                    0 <= i < acl.ip_rules.len() && !(#[trigger] acl.ip_rules[i]).allow && (
                    acl.ip_rules[i].may)(ip, true)
            }
            ||| {
                &&& !acl.default_allow
                &&& forall|i: int|
                    0 <= i < acl.ip_rules.len() ==> (#[trigger] acl.ip_rules[i].may)(ip, false)
            }
        },
{
    law_decisions(acl.ip_rules, ip);
    let open = may_decide(acl.ip_rules, ip, HostDecision::Continue);
    assert(may_decide(acl.ip_rules, ip, HostDecision::Allow) ==> acl.may_answer_ip(ip, true));
    assert(may_decide(acl.ip_rules, ip, HostDecision::Deny) ==> acl.may_answer_ip(ip, false));
    assert(open ==> acl.may_answer_ip(ip, acl.default_allow));
}

/// Adding a rule puts it after the rules that were there, and changes nothing
/// else.
pub proof fn law_added_rules(
    acl: AclView,
    ip_rule: RuleView<IpAddr>,
    host_rule: RuleView<Seq<char>>,
)
    ensures
        acl.with_ip_rule(ip_rule).ip_rules == acl.ip_rules + seq![ip_rule],
        acl.with_ip_rule(ip_rule).host_rules == acl.host_rules,
        acl.with_ip_rule(ip_rule).schemes == acl.schemes,
        acl.with_ip_rule(ip_rule).default_allow == acl.default_allow,
        acl.with_host_rule(host_rule).host_rules == acl.host_rules + seq![host_rule],
        acl.with_host_rule(host_rule).ip_rules == acl.ip_rules,
        acl.with_host_rule(host_rule).schemes == acl.schemes,
        acl.with_host_rule(host_rule).default_allow == acl.default_allow,
{
    assert(acl.with_ip_rule(ip_rule).ip_rules =~= acl.ip_rules + seq![ip_rule]);
    assert(acl.with_host_rule(host_rule).host_rules =~= acl.host_rules + seq![host_rule]);
}

} // verus!

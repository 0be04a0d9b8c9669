//! How the rules of one layer decide together.

use crate::rule::{
    answers, decision, host_fn_may, host_fn_ready, matched, may_decide, HostDecision, RuleView,
};
use crate::text::normalized;
use vstd::prelude::*;

verus! {

/// The rule matches `x` whenever it is asked.
pub open spec fn surely<T>(rule: RuleView<T>, x: T) -> bool {
    !(rule.may)(x, false)
}

/// The rule has exactly one answer about `x`.
pub open spec fn settled<T>(rule: RuleView<T>, x: T) -> bool {
    (rule.may)(x, true) != (rule.may)(x, false)
}

/// Every rule has exactly one answer about `x`.
pub open spec fn all_settled<T>(rules: Seq<RuleView<T>>, x: T) -> bool {
    forall|i: int| 0 <= i < rules.len() ==> settled(#[trigger] rules[i], x)
}

/// An allow rule (or, where `allow` is false, a deny rule) can match `x`.
pub open spec fn can_match<T>(rules: Seq<RuleView<T>>, x: T, allow: bool) -> bool {
    exists|i: int|
        0 <= i < rules.len() && (#[trigger] rules[i]).allow == allow && (rules[i].may)(x, true)
}

/// The same rules, in any order and any number.
pub open spec fn same_rules<T>(a: Seq<RuleView<T>>, b: Seq<RuleView<T>>) -> bool {
    forall|rule: RuleView<T>| a.contains(rule) == b.contains(rule)
}

/// Explicit allow wins: where an allow rule matches, the rules decide to allow,
/// whatever the other rules say and wherever in the list it stands.
pub proof fn law_allow_wins<T>(rules: Seq<RuleView<T>>, i: int, x: T, d: HostDecision)
    requires
        0 <= i < rules.len(),
        rules[i].allow,
        surely(rules[i], x),
        may_decide(rules, x, d),
    ensures
        d == HostDecision::Allow,
{
    let hits = choose|hits: Seq<bool>| #[trigger]
        answers(rules, x, hits) && d == decision(rules, hits);
    assert((rules[i].may)(x, hits[i]));
    assert(rules[i].allow == true && hits[i]);
}

/// Where a deny rule matches and no allow rule can, the rules decide to deny.
pub proof fn law_deny_without_allow<T>(rules: Seq<RuleView<T>>, i: int, x: T, d: HostDecision)
    requires
        0 <= i < rules.len(),
        !rules[i].allow,
        surely(rules[i], x),
        !can_match(rules, x, true),
        may_decide(rules, x, d),
    ensures
        d == HostDecision::Deny,
{
    let hits = choose|hits: Seq<bool>| #[trigger]
        answers(rules, x, hits) && d == decision(rules, hits);
    assert((rules[i].may)(x, hits[i]));
    assert(rules[i].allow == false && hits[i]);
    if matched(rules, hits, true) {
        let j = choose|j: int|
            0 <= j < rules.len() && (#[trigger] rules[j]).allow == true && hits[j];
        assert((rules[j].may)(x, hits[j]));
    }
}

/// Where no rule can match, the rules leave the decision open.
pub proof fn law_no_match_continues<T>(rules: Seq<RuleView<T>>, x: T, d: HostDecision)
    requires
        !can_match(rules, x, true),
        !can_match(rules, x, false),
        may_decide(rules, x, d),
    ensures
        d == HostDecision::Continue,
{
    let hits = choose|hits: Seq<bool>| #[trigger]
        answers(rules, x, hits) && d == decision(rules, hits);
    assert forall|allow: bool| !matched(rules, hits, allow) by {
        if matched(rules, hits, allow) {
            let j = choose|j: int|
                0 <= j < rules.len() && (#[trigger] rules[j]).allow == allow && hits[j];
            assert((rules[j].may)(x, hits[j]));
            assert(can_match(rules, x, allow));
        }
    }
}

/// Where every rule has one answer, the rules have one decision: allow if an
/// allow rule matches, else deny if a deny rule matches, else neither.
pub proof fn law_settled_rules_decide<T>(rules: Seq<RuleView<T>>, x: T, d: HostDecision)
    requires
        all_settled(rules, x),
    ensures
        may_decide(rules, x, d) <==> d == (if can_match(rules, x, true) {
            HostDecision::Allow
        } else if can_match(rules, x, false) {
            HostDecision::Deny
        } else {
            HostDecision::Continue
        }),
{
    let only = Seq::new(rules.len(), |i: int| (rules[i].may)(x, true));
    assert(answers(rules, x, only)) by {
        assert forall|i: int| 0 <= i < rules.len() implies (#[trigger] rules[i].may)(x, only[i]) by {
            assert(settled(rules[i], x));
        }
    }
    assert forall|hits: Seq<bool>| #[trigger] answers(rules, x, hits) implies hits == only by {
        assert forall|i: int| 0 <= i < rules.len() implies hits[i] == only[i] by {
            assert(settled(rules[i], x));
            assert((rules[i].may)(x, hits[i]));
        }
        assert(hits =~= only);
    }
    assert forall|allow: bool| matched(rules, only, allow) == can_match(rules, x, allow) by {
        if matched(rules, only, allow) {
            let j = choose|j: int|
                0 <= j < rules.len() && (#[trigger] rules[j]).allow == allow && only[j];
            assert((rules[j].may)(x, true));
        }
        if can_match(rules, x, allow) {
            let j = choose|j: int|
                0 <= j < rules.len() && (#[trigger] rules[j]).allow == allow && (rules[j].may)(
                    x,
                    true,
                );
            assert(rules[j].allow == allow && only[j]);
        }
    }
    assert(may_decide(rules, x, decision(rules, only)));
}

proof fn lemma_same_rules<T>(a: Seq<RuleView<T>>, b: Seq<RuleView<T>>, x: T, d: HostDecision)
    requires
        same_rules(a, b),
        may_decide(a, x, d),
    ensures
        may_decide(b, x, d),
{
    let hits = choose|hits: Seq<bool>| #[trigger] answers(a, x, hits) && d == decision(a, hits);
    let moved = Seq::new(
        b.len(),
        |j: int| exists|i: int| 0 <= i < a.len() && #[trigger] a[i] == b[j] && hits[i],
    );
    assert forall|j: int| 0 <= j < b.len() implies (#[trigger] b[j].may)(x, moved[j]) by {
        assert(b.contains(b[j]));
        assert(a.contains(b[j]));
        if moved[j] {
            let i = choose|i: int| 0 <= i < a.len() && #[trigger] a[i] == b[j] && hits[i];
            assert((a[i].may)(x, hits[i]));
        } else {
            let i = choose|i: int| 0 <= i < a.len() && a[i] == b[j];
            assert((a[i].may)(x, hits[i]));
        }
    }
    assert(answers(b, x, moved));
    assert forall|allow: bool| matched(a, hits, allow) == matched(b, moved, allow) by {
        if matched(a, hits, allow) {
            let i = choose|i: int|
                0 <= i < a.len() && (#[trigger] a[i]).allow == allow && hits[i];
            assert(a.contains(a[i]));
            assert(b.contains(a[i]));
            let j = choose|j: int| 0 <= j < b.len() && b[j] == a[i];
            assert(b[j].allow == allow && moved[j]);
        }
        if matched(b, moved, allow) {
            let j = choose|j: int|
                0 <= j < b.len() && (#[trigger] b[j]).allow == allow && moved[j];
            let i = choose|i: int| 0 <= i < a.len() && #[trigger] a[i] == b[j] && hits[i];
            assert(a[i].allow == allow && hits[i]);
        }
    }
}

/// The order of the rules within a layer does not matter, nor does adding a
/// rule twice: lists with the same rules can decide the same.
pub proof fn law_rule_order<T>(a: Seq<RuleView<T>>, b: Seq<RuleView<T>>, x: T, d: HostDecision)
    requires
        same_rules(a, b),
    ensures
        may_decide(a, x, d) == may_decide(b, x, d),
{
    if may_decide(a, x, d) {
        lemma_same_rules(a, b, x, d);
    }
    if may_decide(b, x, d) {
        lemma_same_rules(b, a, x, d);
    }
}

/// What rules can decide about `x`, in terms of the answers each can give:
///
/// - to allow, if some allow rule can match;
/// - to deny, if some deny rule can match while no allow rule need match;
/// - neither, if no rule need match.
///
/// Where a rule has no answer at all there is no decision.
pub proof fn law_decisions<T>(rules: Seq<RuleView<T>>, x: T)
    ensures
        may_decide(rules, x, HostDecision::Allow) <==> {
            &&& forall|i: int|
                0 <= i < rules.len() ==> ((#[trigger] rules[i].may)(x, true) || (rules[i].may)(
                    x,
                    false,
                ))
            &&& exists|i: int|
                0 <= i < rules.len() && (#[trigger] rules[i]).allow && (rules[i].may)(x, true)
        },
        may_decide(rules, x, HostDecision::Deny) <==> {
            &&& forall|i: int|
                0 <= i < rules.len() ==> ((#[trigger] rules[i].may)(x, true) || (rules[i].may)(
                    x,
                    false,
                ))
            &&& forall|i: int|
                0 <= i < rules.len() && (#[trigger] rules[i]).allow ==> (rules[i].may)(x, false)
            &&& exists|i: int|
                0 <= i < rules.len() && !(#[trigger] rules[i]).allow && (rules[i].may)(x, true)
        },
        may_decide(rules, x, HostDecision::Continue) <==> (forall|i: int|
            0 <= i < rules.len() ==> (#[trigger] rules[i].may)(x, false)),
{
    let live = forall|i: int|
        0 <= i < rules.len() ==> ((#[trigger] rules[i].may)(x, true) || (rules[i].may)(x, false));
    assert forall|hits: Seq<bool>| #[trigger] answers(rules, x, hits) implies live by {
        assert forall|i: int| 0 <= i < rules.len() implies ((#[trigger] rules[i].may)(x, true) || (
        rules[i].may)(x, false)) by {
            assert((rules[i].may)(x, hits[i]));
        }
    }
    let allow_can = exists|i: int|
        0 <= i < rules.len() && (#[trigger] rules[i]).allow && (rules[i].may)(x, true);
    let deny_can = exists|i: int|
        0 <= i < rules.len() && !(#[trigger] rules[i]).allow && (rules[i].may)(x, true);
    if may_decide(rules, x, HostDecision::Allow) {
        let hits = choose|hits: Seq<bool>| #[trigger]
            answers(rules, x, hits) && HostDecision::Allow == decision(rules, hits);
        let j = choose|j: int|
            0 <= j < rules.len() && (#[trigger] rules[j]).allow == true && hits[j];
        assert((rules[j].may)(x, hits[j]));
        assert(allow_can);
    }
    if live && allow_can {
        let hits = Seq::new(rules.len(), |i: int| (rules[i].may)(x, true));
        assert(answers(rules, x, hits));
        let j = choose|j: int|
            0 <= j < rules.len() && (#[trigger] rules[j]).allow && (rules[j].may)(x, true);
        assert(rules[j].allow == true && hits[j]);
        assert(decision(rules, hits) == HostDecision::Allow);
    }
    if may_decide(rules, x, HostDecision::Deny) {
        let hits = choose|hits: Seq<bool>| #[trigger]
            answers(rules, x, hits) && HostDecision::Deny == decision(rules, hits);
        let j = choose|j: int|
            0 <= j < rules.len() && (#[trigger] rules[j]).allow == false && hits[j];
        assert((rules[j].may)(x, hits[j]));
        assert(deny_can);
        assert forall|i: int| 0 <= i < rules.len() && (#[trigger] rules[i]).allow implies (
        rules[i].may)(x, false) by {
            assert((rules[i].may)(x, hits[i]));
            assert(!(rules[i].allow == true && hits[i]));
        }
    }
    if live && deny_can && (forall|i: int|
        0 <= i < rules.len() && (#[trigger] rules[i]).allow ==> (rules[i].may)(x, false)) {
        let hits = Seq::new(rules.len(), |i: int| !rules[i].allow && (rules[i].may)(x, true));
        assert forall|i: int| 0 <= i < rules.len() implies (#[trigger] rules[i].may)(
            x,
            hits[i],
        ) by {}
        assert(answers(rules, x, hits));
        let j = choose|j: int|
            0 <= j < rules.len() && !(#[trigger] rules[j]).allow && (rules[j].may)(x, true);
        assert(rules[j].allow == false && hits[j]);
        assert(decision(rules, hits) == HostDecision::Deny);
    }
    if may_decide(rules, x, HostDecision::Continue) {
        let hits = choose|hits: Seq<bool>| #[trigger]
            answers(rules, x, hits) && HostDecision::Continue == decision(rules, hits);
        assert forall|i: int| 0 <= i < rules.len() implies (#[trigger] rules[i].may)(x, false) by {
            assert((rules[i].may)(x, hits[i]));
            assert(!(rules[i].allow == rules[i].allow && hits[i]) || matched(
                rules,
                hits,
                rules[i].allow,
            ));
        }
    }
    if forall|i: int| 0 <= i < rules.len() ==> (#[trigger] rules[i].may)(x, false) {
        let hits = Seq::new(rules.len(), |i: int| false);
        assert(answers(rules, x, hits));
        assert(decision(rules, hits) == HostDecision::Continue);
    }
}

/// A rule made from a test allows or denies as it was told to, matches the
/// values of which the test is true, and matches no others.
pub proof fn law_exact_rule<T>(allow: bool, holds: spec_fn(T) -> bool, x: T, hit: bool)
    ensures
        RuleView::exactly(allow, holds).allow == allow,
        holds(x) ==> ((RuleView::exactly(allow, holds).may)(x, hit) <==> hit),
        !holds(x) ==> ((RuleView::exactly(allow, holds).may)(x, hit) <==> !hit),
{
}

/// A closure on host names answers about a name what it can answer about a
/// string of that text, and nothing else. To take every host name it need only
/// take the strings in normal form.
pub proof fn law_host_closures<F: Fn(&str) -> bool>(f: F, h: &str, host: Seq<char>, hit: bool)
    ensures
        call_ensures(f, (h,), hit) ==> host_fn_may(f, h@, hit),
        (forall|g: &str| g@ == host ==> !(#[trigger] call_ensures(f, (g,), hit))) ==> !host_fn_may(
            f,
            host,
            hit,
        ),
        host_fn_ready(f) <==> (forall|g: &str|
            normalized(g@) == g@ ==> #[trigger] call_requires(f, (g,))),
{
}

} // verus!

//! Host names.

use crate::acl::AclView;
use crate::addr::IpAddr;
use crate::laws::rules::{
    can_match, law_allow_wins, law_decisions, law_deny_without_allow,
};
use crate::rule::{may_decide, HostDecision, RuleView};
use crate::text::{ascii_lower, came_from, lower_char, normalized, trim_dots};
use vstd::prelude::*;

verus! {

proof fn lemma_lower_keeps_dots(c: char)
    ensures
        lower_char(c) == '.' <==> c == '.',
        lower_char(lower_char(c)) == lower_char(c),
{
}

proof fn lemma_lower_then_trim(s: Seq<char>)
    ensures
        trim_dots(ascii_lower(s)) == ascii_lower(trim_dots(s)),
    decreases s.len(),
{
    if s.len() > 0 {
        lemma_lower_keeps_dots(s.last());
        if s.last() == '.' {
            lemma_lower_then_trim(s.drop_last());
            assert(ascii_lower(s).drop_last() =~= ascii_lower(s.drop_last()));
        }
    }
}

proof fn lemma_trim_twice(s: Seq<char>)
    ensures
        trim_dots(trim_dots(s)) == trim_dots(s),
    decreases s.len(),
{
    if s.len() > 0 && s.last() == '.' {
        lemma_trim_twice(s.drop_last());
    }
}

proof fn lemma_lower_twice(s: Seq<char>)
    ensures
        ascii_lower(ascii_lower(s)) == ascii_lower(s),
{
    assert forall|i: int| 0 <= i < s.len() implies ascii_lower(ascii_lower(s))[i] == ascii_lower(
        s,
    )[i] by {
        lemma_lower_keeps_dots(s[i]);
    }
    assert(ascii_lower(ascii_lower(s)) =~= ascii_lower(s));
}

/// A normalized name is in its normal form already.
pub proof fn law_normalizing_twice(host: Seq<char>)
    ensures
        normalized(normalized(host)) == normalized(host),
{
    lemma_lower_then_trim(trim_dots(host));
    lemma_trim_twice(host);
    lemma_lower_twice(trim_dots(host));
}

/// Neither upper case nor a dot at the end makes a different name.
pub proof fn law_spelling(host: Seq<char>)
    ensures
        normalized(ascii_lower(host)) == normalized(host),
        normalized(host.push('.')) == normalized(host),
{
    lemma_lower_then_trim(host);
    lemma_lower_twice(trim_dots(host));
    assert(host.push('.').drop_last() =~= host);
}

/// A normalized name holds no upper-case letter and ends in no dot.
pub proof fn law_normal_form(host: Seq<char>)
    ensures
        forall|i: int|
            0 <= i < normalized(host).len() ==> !('A' <= #[trigger] normalized(host)[i]
                && normalized(host)[i] <= 'Z'),
        normalized(host).len() > 0 ==> normalized(host).last() != '.',
    decreases host.len(),
{
    if host.len() > 0 && host.last() == '.' {
        law_normal_form(host.drop_last());
    } else if host.len() > 0 {
        lemma_lower_keeps_dots(host.last());
    }
}

/// The host rules treat two spellings of one name alike.
pub proof fn law_spellings_decide_alike(
    acl: AclView,
    a: Seq<char>,
    b: Seq<char>,
    d: HostDecision,
)
    requires
        normalized(a) == normalized(b),
    ensures
        acl.may_decide_host(a, d) == acl.may_decide_host(b, d),
{
}

/// A suffix with a dot in front matches the strict subdomains of the domain
/// after the dot, and no other name; not the domain itself.
pub proof fn law_dotted_suffix(domain: Seq<char>, host: Seq<char>)
    requires
        domain.len() > 0,
        domain.last() != '.',
    ensures
        normalized(seq!['.'] + domain).is_suffix_of(host) <==> (exists|sub: Seq<char>|
            host == #[trigger] (sub + seq!['.'] + ascii_lower(domain))),
        !normalized(seq!['.'] + domain).is_suffix_of(normalized(domain)),
{
    let suffix = seq!['.'] + ascii_lower(domain);
    assert(trim_dots(domain) == domain);
    assert((seq!['.'] + domain).last() == domain.last());
    lemma_lower_keeps_dots('.');
    assert(ascii_lower(seq!['.'] + domain) =~= suffix);
    assert(normalized(seq!['.'] + domain) == suffix);
    if suffix.is_suffix_of(host) {
        let sub = host.take(host.len() - suffix.len());
        assert(host.subrange(host.len() - suffix.len(), host.len() as int) == suffix);
        assert(host =~= sub + suffix);
        assert(sub + suffix =~= sub + seq!['.'] + ascii_lower(domain));
    }
    if exists|sub: Seq<char>| host == #[trigger] (sub + seq!['.'] + ascii_lower(domain)) {
        let sub = choose|sub: Seq<char>|
            host == #[trigger] (sub + seq!['.'] + ascii_lower(domain));
        assert(suffix =~= host.subrange(host.len() - suffix.len(), host.len() as int));
    }
}

/// A host rule takes the text of the name it is given, be that name borrowed or
/// owned.
pub proof fn law_names_are_taken_as_given(borrowed: &str, owned: String, a: String, b: String)
    requires
        came_from(borrowed, a),
        came_from(owned, b),
    ensures
        a@ == borrowed@,
        b == owned,
{
}

/// A name that the list was told to allow is allowed in every spelling,
/// whatever the other rules say.
pub proof fn law_allowed_host(acl: AclView, name: Seq<char>, host: Seq<char>, i: int, d: HostDecision)
    requires
        0 <= i < acl.host_rules.len(),
        acl.host_rules[i] == RuleView::exactly(true, |h: Seq<char>| h == normalized(name)),
        normalized(host) == normalized(name),
        acl.may_decide_host(host, d),
    ensures
        d == HostDecision::Allow,
{
    law_allow_wins(acl.host_rules, i, normalized(host), d);
}

/// A name that the list was told to deny is denied in every spelling, unless an
/// allow rule can match it.
pub proof fn law_denied_host(acl: AclView, name: Seq<char>, host: Seq<char>, i: int, d: HostDecision)
    requires
        0 <= i < acl.host_rules.len(),
        acl.host_rules[i] == RuleView::exactly(false, |h: Seq<char>| h == normalized(name)),
        normalized(host) == normalized(name),
        !can_match(acl.host_rules, normalized(host), true),
        acl.may_decide_host(host, d),
    ensures
        d == HostDecision::Deny,
{
    law_deny_without_allow(acl.host_rules, i, normalized(host), d);
}

/// Adding a host rule leaves the IP layer as it is, and adding an IP rule
/// leaves the host layer as it is.
pub proof fn law_layers_are_separate(
    acl: AclView,
    ip_rule: RuleView<IpAddr>,
    host_rule: RuleView<Seq<char>>,
    ip: IpAddr,
    allowed: bool,
    host: Seq<char>,
    d: HostDecision,
)
    ensures
        acl.with_host_rule(host_rule).may_answer_ip(ip, allowed) == acl.may_answer_ip(ip, allowed),
        acl.with_ip_rule(ip_rule).may_decide_host(host, d) == acl.may_decide_host(host, d),
{
    let with = acl.with_host_rule(host_rule);
    if acl.may_answer_ip(ip, allowed) {
        let e = choose|e: HostDecision| #[trigger]
            may_decide(acl.ip_rules, ip, e) && allowed == acl.ip_answer(e);
        assert(may_decide(with.ip_rules, ip, e) && allowed == with.ip_answer(e));
    }
    if with.may_answer_ip(ip, allowed) {
        let e = choose|e: HostDecision| #[trigger]
            may_decide(with.ip_rules, ip, e) && allowed == with.ip_answer(e);
        assert(may_decide(acl.ip_rules, ip, e) && allowed == acl.ip_answer(e));
    }
}

/// Lowering a text keeps its length, adds 32 to the code of each letter from
/// `A` to `Z`, and keeps every other character.
pub proof fn law_lower_case(s: Seq<char>)
    ensures
        ascii_lower(s).len() == s.len(),
        forall|i: int|
            0 <= i < s.len() ==> (#[trigger] ascii_lower(s)[i]) as int == (if 65 <= s[i] as int
                <= 90 {
                s[i] as int + 32
            } else {
                s[i] as int
            }),
{
}

proof fn lemma_trimmed(s: Seq<char>)
    ensures
        trim_dots(s).len() <= s.len(),
        trim_dots(s) == s.subrange(0, trim_dots(s).len() as int),
        forall|i: int| trim_dots(s).len() <= i < s.len() ==> s[i] == '.',
        trim_dots(s).len() > 0 ==> trim_dots(s).last() != '.',
    decreases s.len(),
{
    if s.len() > 0 && s.last() == '.' {
        let t = s.drop_last();
        lemma_trimmed(t);
        let k = trim_dots(t).len() as int;
        assert(t.subrange(0, k) =~= s.subrange(0, k));
        assert forall|i: int| k <= i < s.len() implies s[i] == '.' by {
            if i < t.len() {
                assert(t[i] == '.');
            }
        }
    } else {
        assert(s.subrange(0, s.len() as int) =~= s);
    }
}

/// The normal form of a name is that name, character by character, up to the
/// dots at its end, with the letters from `A` to `Z` in lower case: nothing in
/// front and nothing within is dropped.
pub proof fn law_normal_form_is_the_name(host: Seq<char>)
    ensures
        normalized(host).len() <= host.len(),
        forall|i: int|
            0 <= i < normalized(host).len() ==> (#[trigger] normalized(host)[i]) as int == (if 65
                <= host[i] as int <= 90 {
                host[i] as int + 32
            } else {
                host[i] as int
            }),
        forall|i: int| normalized(host).len() <= i < host.len() ==> host[i] == '.',
        normalized(host).len() > 0 ==> host[normalized(host).len() - 1] != '.',
{
    lemma_trimmed(host);
}

/// Only one text is the name up to the dots at its end, in lower case.
pub proof fn law_normal_form_is_unique(host: Seq<char>, n: Seq<char>)
    requires
        n.len() <= host.len(),
        forall|i: int|
            0 <= i < n.len() ==> (#[trigger] n[i]) as int == (if 65 <= host[i] as int <= 90 {
                host[i] as int + 32
            } else {
                host[i] as int
            }),
        forall|i: int| n.len() <= i < host.len() ==> host[i] == '.',
        n.len() > 0 ==> host[n.len() - 1] != '.',
    ensures
        normalized(host) == n,
{
    law_normal_form_is_the_name(host);
    let m = normalized(host);
    if m.len() < n.len() {
        assert(host[n.len() - 1] == '.');
    }
    if n.len() < m.len() {
        assert(host[m.len() - 1] == '.');
    }
    assert forall|i: int| 0 <= i < m.len() implies m[i] == n[i] by {
        assert(m[i] as int == n[i] as int);
    }
    assert(m =~= n);
}

/// A name without upper-case letters that does not end in a dot is its own
/// normal form.
pub proof fn law_plain_names_are_kept(host: Seq<char>)
    requires
        forall|i: int| 0 <= i < host.len() ==> !(65 <= (#[trigger] host[i]) as int <= 90),
        host.len() > 0 ==> host.last() != '.',
    ensures
        normalized(host) == host,
{
    law_normal_form_is_unique(host, host);
}

/// Two names have one normal form only if, up to their dots at the end, they
/// are equally long and agree in every place but for case.
pub proof fn law_different_names_stay_different(a: Seq<char>, b: Seq<char>)
    requires
        normalized(a) == normalized(b),
    ensures
        exists|k: int|
            #![trigger a.subrange(0, k)]
            0 <= k <= a.len() && k <= b.len() && (forall|i: int| k <= i < a.len() ==> a[i] == '.')
                && (forall|i: int| k <= i < b.len() ==> b[i] == '.') && (forall|i: int|
                0 <= i < k ==> (a[i] == b[i] || (a[i] as int) - (b[i] as int) == 32 || (
                b[i] as int) - (a[i] as int) == 32)),
{
    law_normal_form_is_the_name(a);
    law_normal_form_is_the_name(b);
    let n = normalized(a);
    let k = n.len() as int;
    let witness = a.subrange(0, k);
    assert forall|i: int| 0 <= i < k implies (a[i] == b[i] || (a[i] as int) - (b[i] as int) == 32
        || (b[i] as int) - (a[i] as int) == 32) by {
        let c = n[i];
        assert(normalized(a)[i] as int == normalized(b)[i] as int);
    }
}

/// What a list can decide about a host, in terms of the answers that its host
/// rules can give about the name `n`, the host up to the dots at its end in
/// lower case.
pub proof fn law_host_decisions(acl: AclView, host: Seq<char>, n: Seq<char>)
    requires
        n.len() <= host.len(),
        forall|i: int|
            0 <= i < n.len() ==> (#[trigger] n[i]) as int == (if 65 <= host[i] as int <= 90 {
                host[i] as int + 32
            } else {
                host[i] as int
            }),
        forall|i: int| n.len() <= i < host.len() ==> host[i] == '.',
        n.len() > 0 ==> host[n.len() - 1] != '.',
    ensures
        acl.may_decide_host(host, HostDecision::Allow) <==> {
            &&& forall|i: int|
                0 <= i < acl.host_rules.len() ==> ((#[trigger] acl.host_rules[i].may)(n, true) || (
                acl.host_rules[i].may)(n, false))
            &&& exists|i: int|
                0 <= i < acl.host_rules.len() && (#[trigger] acl.host_rules[i]).allow && (
                acl.host_rules[i].may)(n, true)
        },
        acl.may_decide_host(host, HostDecision::Deny) <==> {
            &&& forall|i: int|
                0 <= i < acl.host_rules.len() ==> ((#[trigger] acl.host_rules[i].may)(n, true) || (
                acl.host_rules[i].may)(n, false))
            &&& forall|i: int|
                0 <= i < acl.host_rules.len() && (#[trigger] acl.host_rules[i]).allow ==> (
                acl.host_rules[i].may)(n, false)
            &&& exists|i: int|
                0 <= i < acl.host_rules.len() && !(#[trigger] acl.host_rules[i]).allow && (
                acl.host_rules[i].may)(n, true)
        },
        acl.may_decide_host(host, HostDecision::Continue) <==> (forall|i: int|
            0 <= i < acl.host_rules.len() ==> (#[trigger] acl.host_rules[i].may)(n, false)),
{
    law_normal_form_is_unique(host, n);
    law_decisions(acl.host_rules, n);
}

/// A list whose one host rule is for the exact host `name` decides about the
/// hosts that are `name` but for case and dots at the end, and leaves every
/// other host open.
pub proof fn law_exact_host_rule(
    acl: AclView,
    allow: bool,
    name: Seq<char>,
    host: Seq<char>,
    d: HostDecision,
)
    requires
        acl.host_rules == seq![
            RuleView::exactly(allow, |h: Seq<char>| h == normalized(name)),
        ],
    ensures
        acl.may_decide_host(host, d) <==> d == (if normalized(host) != normalized(name) {
            HostDecision::Continue
        } else if allow {
            HostDecision::Allow
        } else {
            HostDecision::Deny
        }),
{
    let n = normalized(host);
    law_normal_form_is_the_name(host);
    law_host_decisions(acl, host, n);
    let rule = acl.host_rules[0];
    assert((rule.may)(n, true) == (n == normalized(name)));
    assert((rule.may)(n, false) == (n != normalized(name)));
}

/// A list whose one host rule is for the ending `suffix` decides about the
/// hosts whose normal form ends with that of `suffix`, and leaves every other
/// host open.
pub proof fn law_suffix_rule(
    acl: AclView,
    allow: bool,
    suffix: Seq<char>,
    host: Seq<char>,
    d: HostDecision,
)
    requires
        acl.host_rules == seq![
            RuleView::exactly(allow, |h: Seq<char>| normalized(suffix).is_suffix_of(h)),
        ],
    ensures
        acl.may_decide_host(host, d) <==> d == (if !(exists|sub: Seq<char>|
            normalized(host) == #[trigger] (sub + normalized(suffix))) {
            HostDecision::Continue
        } else if allow {
            HostDecision::Allow
        } else {
            HostDecision::Deny
        }),
{
    let n = normalized(host);
    let t = normalized(suffix);
    law_normal_form_is_the_name(host);
    law_host_decisions(acl, host, n);
    let rule = acl.host_rules[0];
    assert((rule.may)(n, true) == t.is_suffix_of(n));
    assert((rule.may)(n, false) == !t.is_suffix_of(n));
    if t.is_suffix_of(n) {
        assert(n =~= n.subrange(0, n.len() - t.len()) + t);
    }
    if exists|sub: Seq<char>| n == #[trigger] (sub + t) {
        let sub = choose|sub: Seq<char>| n == #[trigger] (sub + t);
        assert(t =~= n.subrange(n.len() - t.len(), n.len() as int));
    }
}

} // verus!

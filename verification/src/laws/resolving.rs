//! Resolving host names.

use crate::acl::AclView;
use crate::addr::IpAddr;
use crate::laws::hosts::law_host_decisions;
use crate::laws::policies::law_explicit_deny;
use crate::laws::rules::{can_match, law_allow_wins, law_deny_without_allow, surely};
use crate::resolve::{
    found, resolution, select, Resolution, ResolutionView, ResolveError, ResolveErrorView,
    SocketAddr,
};
use crate::local::local;
use crate::rule::{answers, decision, HostDecision, RuleView};
use crate::text::normalized;
use vstd::prelude::*;

verus! {

/// A name that an allow rule matches is looked up and trusted: the IP rules are
/// skipped.
pub proof fn law_allowed_name_is_trusted(acl: AclView, i: int, host: Seq<char>, d: HostDecision)
    requires
        0 <= i < acl.host_rules.len(),
        acl.host_rules[i].allow,
        surely(acl.host_rules[i], normalized(host)),
        acl.may_decide_host(host, d),
    ensures
        resolution(host, d) == (ResolutionView::Lookup { trusted: true }),
{
    law_allow_wins(acl.host_rules, i, normalized(host), d);
}

/// A name that a deny rule matches, and no allow rule can match, is refused
/// without a lookup.
pub proof fn law_denied_name_is_not_looked_up(
    acl: AclView,
    i: int,
    host: Seq<char>,
    d: HostDecision,
)
    requires
        0 <= i < acl.host_rules.len(),
        !acl.host_rules[i].allow,
        surely(acl.host_rules[i], normalized(host)),
        !can_match(acl.host_rules, normalized(host), true),
        acl.may_decide_host(host, d),
    ensures
        resolution(host, d) == ResolutionView::Refused(ResolveErrorView::DeniedHost(host)),
{
    law_deny_without_allow(acl.host_rules, i, normalized(host), d);
}

/// A name is trusted only if an allow rule can match it.
pub proof fn law_only_allowed_names_are_trusted(acl: AclView, host: Seq<char>, d: HostDecision)
    requires
        acl.may_decide_host(host, d),
        resolution(host, d) == (ResolutionView::Lookup { trusted: true }),
    ensures
        can_match(acl.host_rules, normalized(host), true),
{
    let rules = acl.host_rules;
    let hits = choose|hits: Seq<bool>| #[trigger]
        answers(rules, normalized(host), hits) && d == decision(rules, hits);
    let j = choose|j: int|
        0 <= j < rules.len() && (#[trigger] rules[j]).allow == true && hits[j];
    assert((rules[j].may)(normalized(host), hits[j]));
}

proof fn lemma_selected<T>(s: Seq<T>, keep: Seq<bool>, j: int) -> (i: int)
    requires
        keep.len() >= s.len(),
        0 <= j < select(s, keep).len(),
    ensures
        0 <= i < s.len(),
        s[i] == select(s, keep)[j],
        keep[i],
    decreases s.len(),
{
    let rest = select(s.drop_last(), keep);
    if keep[s.len() - 1] && j == rest.len() {
        s.len() - 1
    } else {
        lemma_selected(s.drop_last(), keep, j)
    }
}

proof fn lemma_kept<T>(s: Seq<T>, keep: Seq<bool>, i: int)
    requires
        keep.len() >= s.len(),
        0 <= i < s.len(),
        keep[i],
    ensures
        select(s, keep).contains(s[i]),
    decreases s.len(),
{
    let rest = select(s.drop_last(), keep);
    if i == s.len() - 1 {
        assert(select(s, keep)[rest.len() as int] == s[i]);
    } else {
        lemma_kept(s.drop_last(), keep, i);
        let j = choose|j: int| 0 <= j < rest.len() && rest[j] == s[i];
        assert(select(s, keep)[j] == s[i]);
    }
}

/// An untrusted name is given at least one address, and each is one that it
/// resolves to and that the IP rules allow.
pub proof fn law_used_addresses_are_allowed(
    acl: AclView,
    host: Seq<char>,
    addrs: Seq<SocketAddr>,
    used: Seq<SocketAddr>,
)
    requires
        acl.may_filter(host, addrs, Ok(used)),
    ensures
        used.len() > 0,
        forall|j: int|
            0 <= j < used.len() ==> addrs.contains(#[trigger] used[j]) && acl.may_answer_ip(
                used[j].ip,
                true,
            ),
{
    let keep = choose|keep: Seq<bool>| #[trigger]
        acl.may_answer_all(addrs, keep) && select(addrs, keep).len() != 0 && used == select(
            addrs,
            keep,
        );
    assert forall|j: int| 0 <= j < used.len() implies addrs.contains(#[trigger] used[j])
        && acl.may_answer_ip(used[j].ip, true) by {
        let i = lemma_selected(addrs, keep, j);
        assert(acl.may_answer_ip(addrs[i].ip, keep[i]));
    }
}

/// With the local network denied, an untrusted name is given no local address,
/// unless an allow rule can match that address.
pub proof fn law_local_addresses_are_not_used(
    acl: AclView,
    i: int,
    host: Seq<char>,
    addrs: Seq<SocketAddr>,
    used: Seq<SocketAddr>,
    j: int,
)
    requires
        0 <= i < acl.ip_rules.len(),
        acl.ip_rules[i] == RuleView::exactly(false, |a: IpAddr| local(a)),
        acl.may_filter(host, addrs, Ok(used)),
        0 <= j < used.len(),
        !can_match(acl.ip_rules, used[j].ip, true),
    ensures
        !local(used[j].ip),
{
    law_used_addresses_are_allowed(acl, host, addrs, used);
    if local(used[j].ip) {
        law_explicit_deny(acl, i, used[j].ip, true);
    }
}

/// No address that the IP rules are sure to allow is lost.
pub proof fn law_allowed_addresses_are_used(
    acl: AclView,
    host: Seq<char>,
    addrs: Seq<SocketAddr>,
    i: int,
    r: Result<Seq<SocketAddr>, ResolveErrorView>,
)
    requires
        0 <= i < addrs.len(),
        !acl.may_answer_ip(addrs[i].ip, false),
        acl.may_filter(host, addrs, r),
    ensures
        r matches Ok(used) && used.contains(addrs[i]),
{
    let keep = choose|keep: Seq<bool>| #[trigger]
        acl.may_answer_all(addrs, keep) && r == (if select(addrs, keep).len() == 0 {
            Err(ResolveErrorView::AllDenied(host))
        } else {
            Ok(select(addrs, keep))
        });
    assert(acl.may_answer_ip(addrs[i].ip, keep[i]));
    lemma_kept(addrs, keep, i);
}

/// If the IP rules are sure to deny every address that an untrusted name
/// resolves to, resolving it fails.
pub proof fn law_all_denied_fails(
    acl: AclView,
    host: Seq<char>,
    addrs: Seq<SocketAddr>,
    r: Result<Seq<SocketAddr>, ResolveErrorView>,
)
    requires
        forall|i: int| 0 <= i < addrs.len() ==> !acl.may_answer_ip(#[trigger] addrs[i].ip, true),
        acl.may_filter(host, addrs, r),
    ensures
        r == Err::<Seq<SocketAddr>, _>(ResolveErrorView::AllDenied(host)),
{
    let keep = choose|keep: Seq<bool>| #[trigger]
        acl.may_answer_all(addrs, keep) && r == (if select(addrs, keep).len() == 0 {
            Err(ResolveErrorView::AllDenied(host))
        } else {
            Ok(select(addrs, keep))
        });
    if select(addrs, keep).len() != 0 {
        let i = lemma_selected(addrs, keep, 0);
        assert(acl.may_answer_ip(addrs[i].ip, keep[i]));
    }
}

proof fn lemma_select_is_filter<T>(s: Seq<T>, keep: Seq<bool>, p: spec_fn(T) -> bool)
    requires
        keep.len() >= s.len(),
        forall|i: int| 0 <= i < s.len() ==> keep[i] == p(#[trigger] s[i]),
    ensures
        select(s, keep) == s.filter(p),
    decreases s.len(),
{
    reveal(Seq::filter);
    if s.len() > 0 {
        let rest = s.drop_last();
        assert forall|i: int| 0 <= i < rest.len() implies keep[i] == p(#[trigger] rest[i]) by {
            assert(rest[i] == s[i]);
        }
        lemma_select_is_filter(rest, keep, p);
        assert(keep[s.len() - 1] == p(s[s.len() - 1]));
    }
}

/// Where the IP rules have one answer about each address, an untrusted name is
/// given exactly the allowed addresses, in the order in which they were found.
pub proof fn law_settled_filter(
    acl: AclView,
    host: Seq<char>,
    addrs: Seq<SocketAddr>,
    r: Result<Seq<SocketAddr>, ResolveErrorView>,
)
    requires
        forall|i: int|
            0 <= i < addrs.len() ==> acl.may_answer_ip(#[trigger] addrs[i].ip, true)
                != acl.may_answer_ip(addrs[i].ip, false),
    ensures
        acl.may_filter(host, addrs, r) <==> r == ({
            let used = addrs.filter(|sa: SocketAddr| acl.may_answer_ip(sa.ip, true));
            if used.len() == 0 {
                Err(ResolveErrorView::AllDenied(host))
            } else {
                Ok(used)
            }
        }),
{
    let p = |sa: SocketAddr| acl.may_answer_ip(sa.ip, true);
    let only = Seq::new(addrs.len(), |i: int| p(addrs[i]));
    assert(acl.may_answer_all(addrs, only)) by {
        assert forall|i: int| 0 <= i < addrs.len() implies acl.may_answer_ip(
            #[trigger] addrs[i].ip,
            only[i],
        ) by {}
    }
    lemma_select_is_filter(addrs, only, p);
    assert forall|keep: Seq<bool>| #[trigger] acl.may_answer_all(addrs, keep) implies keep
        == only by {
        assert forall|i: int| 0 <= i < addrs.len() implies keep[i] == only[i] by {
            assert(acl.may_answer_ip(addrs[i].ip, keep[i]));
        }
        assert(keep =~= only);
    }
}

/// Every error ends by naming the list as its cause.
pub proof fn law_resolve_error_text(e: ResolveErrorView)
    ensures
        "denied by ACL"@.is_suffix_of(e.text()),
{
    reveal_strlit(" is denied by ACL");
    reveal_strlit(" were denied by ACL");
    reveal_strlit("denied by ACL");
    let t = e.text();
    let end = "denied by ACL"@;
    assert(end =~= t.subrange(t.len() - end.len(), t.len() as int));
}

/// A name that the host rules deny is refused under the name as it was given,
/// one that they allow is looked up and trusted, and one that they leave open is
/// looked up and not trusted.
pub proof fn law_resolutions(host: Seq<char>)
    ensures
        resolution(host, HostDecision::Deny) matches ResolutionView::Refused(
            ResolveErrorView::DeniedHost(h),
        ) && h == host,
        resolution(host, HostDecision::Allow) matches ResolutionView::Lookup { trusted } && trusted,
        resolution(host, HostDecision::Continue) matches ResolutionView::Lookup { trusted }
            && !trusted,
{
}

/// A name that no host rule can match is looked up, and not trusted.
pub proof fn law_unmatched_name_is_looked_up(
    acl: AclView,
    host: Seq<char>,
    n: Seq<char>,
    d: HostDecision,
)
    requires
        n.len() <= host.len(),
        forall|i: int|
            0 <= i < n.len() ==> (#[trigger] n[i]) as int == (if 65 <= host[i] as int <= 90 {
                host[i] as int + 32
            } else {
                host[i] as int
            }),
        forall|i: int| n.len() <= i < host.len() ==> host[i] == '.',
        n.len() > 0 ==> host[n.len() - 1] != '.',
        forall|i: int|
            0 <= i < acl.host_rules.len() ==> !((#[trigger] acl.host_rules[i].may)(n, true)),
        acl.may_decide_host(host, d),
    ensures
        resolution(host, d) matches ResolutionView::Lookup { trusted } && !trusted,
{
    law_host_decisions(acl, host, n);
}

/// A name is refused only if a deny rule can match it and no allow rule need,
/// and trusted only if an allow rule can match it.
pub proof fn law_why_a_name_is_refused_or_trusted(
    acl: AclView,
    host: Seq<char>,
    n: Seq<char>,
    d: HostDecision,
)
    requires
        n.len() <= host.len(),
        forall|i: int|
            0 <= i < n.len() ==> (#[trigger] n[i]) as int == (if 65 <= host[i] as int <= 90 {
                host[i] as int + 32
            } else {
                host[i] as int
            }),
        forall|i: int| n.len() <= i < host.len() ==> host[i] == '.',
        n.len() > 0 ==> host[n.len() - 1] != '.',
        acl.may_decide_host(host, d),
    ensures
        resolution(host, d) is Refused <==> d == HostDecision::Deny,
        resolution(host, d) is Refused ==> (exists|i: int|
            0 <= i < acl.host_rules.len() && !(#[trigger] acl.host_rules[i]).allow && (
            acl.host_rules[i].may)(n, true)) && (forall|i: int|
            0 <= i < acl.host_rules.len() && (#[trigger] acl.host_rules[i]).allow ==> (
            acl.host_rules[i].may)(n, false)),
        (resolution(host, d) matches ResolutionView::Lookup { trusted } && trusted) ==> (exists|
            i: int,
        |
            0 <= i < acl.host_rules.len() && (#[trigger] acl.host_rules[i]).allow && (
            acl.host_rules[i].may)(n, true)),
{
    law_host_decisions(acl, host, n);
}

/// A selection is made of the elements that are kept, each once and in their
/// order: `places` are where they stand, ever further on, and every place that
/// is kept is among them.
pub proof fn law_selection<T>(s: Seq<T>, keep: Seq<bool>) -> (places: Seq<int>)
    requires
        keep.len() >= s.len(),
    ensures
        places.len() == select(s, keep).len(),
        forall|j: int|
            0 <= j < places.len() ==> 0 <= #[trigger] places[j] < s.len() && keep[places[j]]
                && select(s, keep)[j] == s[places[j]],
        forall|j: int, k: int| 0 <= j < k < places.len() ==> places[j] < places[k],
        forall|i: int| 0 <= i < s.len() && #[trigger] keep[i] ==> places.contains(i),
    decreases s.len(),
{
    if s.len() == 0 {
        seq![]
    } else {
        let rest = s.drop_last();
        let last = s.len() - 1;
        let before = law_selection(rest, keep);
        assert forall|j: int| 0 <= j < before.len() implies 0 <= #[trigger] before[j] < last
            && keep[before[j]] && select(rest, keep)[j] == s[before[j]] by {
            assert(rest[before[j]] == s[before[j]]);
        }
        if keep[last] {
            let places = before.push(last);
            assert(places[before.len() as int] == last);
            assert forall|i: int| 0 <= i < s.len() && #[trigger] keep[i] implies places.contains(
                i,
            ) by {
                if i < last {
                    let j = choose|j: int| 0 <= j < before.len() && before[j] == i;
                    assert(places[j] == i);
                }
            }
            places
        } else {
            before
        }
    }
}

/// Whatever a list lets through of the addresses that an untrusted name resolves
/// to comes from an answer of its IP layer about each of them: those that it
/// permits, or, if it permits none, an error that names the host.
pub proof fn law_filtering(
    acl: AclView,
    host: Seq<char>,
    addrs: Seq<SocketAddr>,
    r: Result<Seq<SocketAddr>, ResolveErrorView>,
) -> (keep: Seq<bool>)
    requires
        acl.may_filter(host, addrs, r),
    ensures
        keep.len() == addrs.len(),
        forall|i: int| 0 <= i < addrs.len() ==> acl.may_answer_ip((#[trigger] addrs[i]).ip, keep[i]),
        r is Ok <==> (exists|i: int| 0 <= i < keep.len() && #[trigger] keep[i]),
        r matches Ok(used) ==> used == select(addrs, keep),
        r matches Err(e) ==> e == ResolveErrorView::AllDenied(host),
{
    let keep = choose|keep: Seq<bool>| #[trigger]
        acl.may_answer_all(addrs, keep) && r == (if select(addrs, keep).len() == 0 {
            Err(ResolveErrorView::AllDenied(host))
        } else {
            Ok(select(addrs, keep))
        });
    assert forall|i: int| 0 <= i < addrs.len() implies acl.may_answer_ip(
        (#[trigger] addrs[i]).ip,
        keep[i],
    ) by {
        assert(acl.may_answer_ip(addrs[i].ip, keep[i]));
    }
    if r is Ok {
        let i = lemma_selected(addrs, keep, 0);
        assert(keep[i]);
    }
    if exists|i: int| 0 <= i < keep.len() && #[trigger] keep[i] {
        let i = choose|i: int| 0 <= i < keep.len() && #[trigger] keep[i];
        lemma_kept(addrs, keep, i);
    }
    keep
}

/// Whatever the IP layer of a list can answer about each of the addresses that
/// an untrusted name resolves to, the list can let through those it permits,
/// and, if it permits none, can fail with an error that names the host.
pub proof fn law_filtering_follows_the_answers(
    acl: AclView,
    host: Seq<char>,
    addrs: Seq<SocketAddr>,
    keep: Seq<bool>,
)
    requires
        keep.len() == addrs.len(),
        forall|i: int| 0 <= i < addrs.len() ==> acl.may_answer_ip((#[trigger] addrs[i]).ip, keep[i]),
    ensures
        (exists|i: int| 0 <= i < keep.len() && #[trigger] keep[i]) ==> acl.may_filter(
            host,
            addrs,
            Ok(select(addrs, keep)),
        ),
        (forall|i: int| 0 <= i < keep.len() ==> !(#[trigger] keep[i])) ==> acl.may_filter(
            host,
            addrs,
            Err(ResolveErrorView::AllDenied(host)),
        ),
{
    assert(acl.may_answer_all(addrs, keep));
    if exists|i: int| 0 <= i < keep.len() && #[trigger] keep[i] {
        let i = choose|i: int| 0 <= i < keep.len() && #[trigger] keep[i];
        lemma_kept(addrs, keep, i);
    } else if select(addrs, keep).len() != 0 {
        let i = lemma_selected(addrs, keep, 0);
        assert(keep[i]);
    }
}

/// What the two steps of resolving return is read as it was returned.
pub proof fn law_resolve_results(
    r: Result<Vec<SocketAddr>, ResolveError>,
    text: String,
    e: ResolveError,
    trusted: bool,
)
    ensures
        r matches Ok(v) ==> found(r) == Ok::<Seq<SocketAddr>, ResolveErrorView>(v@),
        r matches Err(x) ==> found(r) == Err::<Seq<SocketAddr>, ResolveErrorView>(x@),
        ResolveError::DeniedHost(text)@ == ResolveErrorView::DeniedHost(text@),
        ResolveError::AllDenied(text)@ == ResolveErrorView::AllDenied(text@),
        Resolution::Refused(e)@ == ResolutionView::Refused(e@),
        (Resolution::Lookup { trusted })@ == (ResolutionView::Lookup { trusted }),
{
}

/// The words of an error: the host, in full, between fixed words.
pub proof fn law_resolve_error_words(h: Seq<char>)
    ensures
        ResolveErrorView::DeniedHost(h).text() ==
            seq!['h', 'o', 's', 't', ' ']
            + h
            + seq![' ', 'i', 's', ' ', 'd', 'e', 'n', 'i', 'e', 'd', ' ', 'b', 'y', ' ', 'A',
                'C', 'L'],
        ResolveErrorView::AllDenied(h).text() ==
            seq!['a', 'l', 'l', ' ', 'r', 'e', 's', 'o', 'l', 'v', 'e', 'd', ' ', 'a', 'd', 'd',
                'r', 'e', 's', 's', 'e', 's', ' ', 'f', 'o', 'r', ' ']
            + h
            + seq![' ', 'w', 'e', 'r', 'e', ' ', 'd', 'e', 'n', 'i', 'e', 'd', ' ', 'b', 'y',
                ' ', 'A', 'C', 'L'],
{
    reveal_strlit("host ");
    reveal_strlit(" is denied by ACL");
    reveal_strlit("all resolved addresses for ");
    reveal_strlit(" were denied by ACL");
    assert("host "@ =~= seq!['h', 'o', 's', 't', ' ']);
    assert(" is denied by ACL"@ =~=
        seq![' ', 'i', 's', ' ', 'd', 'e', 'n', 'i', 'e', 'd', ' ', 'b', 'y', ' ', 'A', 'C',
            'L']);
    assert("all resolved addresses for "@ =~=
        seq!['a', 'l', 'l', ' ', 'r', 'e', 's', 'o', 'l', 'v', 'e', 'd', ' ', 'a', 'd', 'd',
            'r', 'e', 's', 's', 'e', 's', ' ', 'f', 'o', 'r', ' ']);
    assert(" were denied by ACL"@ =~=
        seq![' ', 'w', 'e', 'r', 'e', ' ', 'd', 'e', 'n', 'i', 'e', 'd', ' ', 'b', 'y', ' ',
            'A', 'C', 'L']);
}

} // verus!

//! Judging a host name while it is being resolved.
//!
//! Resolving takes two steps, with the DNS lookup between them.
//! [`Acl::start_resolve`] says whether the name may be looked up at all;
//! [`Acl::finish_resolve`] says which of the addresses found may be used.

use crate::acl::{Acl, AclView};
use crate::addr::IpAddr;
use crate::rule::HostDecision;
use vstd::prelude::*;

verus! {

/// An address to connect to. `flowinfo` and `scope_id` are those of an IPv6
/// address, and 0 for IPv4.
#[derive(Clone, Copy, Debug, PartialEq, Eq, Structural, Hash)]
pub struct SocketAddr {
    pub ip: IpAddr,
    pub port: u16,
    pub flowinfo: u32,
    pub scope_id: u32,
}

/// Why a host name was not resolved.
#[derive(Debug, PartialEq, Eq)]
pub enum ResolveError {
    /// The host rules deny the name.
    DeniedHost(String),
    /// The IP rules deny every address that the name resolves to.
    AllDenied(String),
}

/// What a [`ResolveError`] says.
pub enum ResolveErrorView {
    DeniedHost(Seq<char>),
    AllDenied(Seq<char>),
}

impl View for ResolveError {
    type V = ResolveErrorView;

    open spec fn view(&self) -> ResolveErrorView {
        match self {
            ResolveError::DeniedHost(h) => ResolveErrorView::DeniedHost(h@),
            ResolveError::AllDenied(h) => ResolveErrorView::AllDenied(h@),
        }
    }
}

impl ResolveErrorView {
    /// The error in words.
    pub open spec fn text(self) -> Seq<char> {
        match self {
            ResolveErrorView::DeniedHost(h) => "host "@ + h + " is denied by ACL"@,
            ResolveErrorView::AllDenied(h) => "all resolved addresses for "@ + h
                + " were denied by ACL"@,
        }
    }
}

impl ResolveError {
    /// The error in words.
    pub fn message(&self) -> (r: String)
        ensures
            r@ == self@.text(),
    {
        match self {
            ResolveError::DeniedHost(h) => String::from("host ").concat(h.as_str()).concat(
                " is denied by ACL",
            ),
            ResolveError::AllDenied(h) => String::from("all resolved addresses for ").concat(
                h.as_str(),
            ).concat(" were denied by ACL"),
        }
    }
}

/// How to go on with a host name.
#[derive(Debug, PartialEq, Eq)]
pub enum Resolution {
    /// Do not look the name up.
    Refused(ResolveError),
    /// Look the name up. If `trusted`, use every address found, else those that
    /// the IP rules allow.
    Lookup { trusted: bool },
}

/// What a [`Resolution`] says.
pub enum ResolutionView {
    Refused(ResolveErrorView),
    Lookup { trusted: bool },
}

impl View for Resolution {
    type V = ResolutionView;

    open spec fn view(&self) -> ResolutionView {
        match self {
            Resolution::Refused(e) => ResolutionView::Refused(e@),
            Resolution::Lookup { trusted } => ResolutionView::Lookup { trusted: *trusted },
        }
    }
}

/// How to go on with `host`, given what the host rules decide about it.
pub open spec fn resolution(host: Seq<char>, d: HostDecision) -> ResolutionView {
    match d {
        HostDecision::Deny => ResolutionView::Refused(ResolveErrorView::DeniedHost(host)),
        HostDecision::Allow => ResolutionView::Lookup { trusted: true },
        HostDecision::Continue => ResolutionView::Lookup { trusted: false },
    }
}

/// The elements of `s` whose place in `keep` holds true, in their order.
pub open spec fn select<T>(s: Seq<T>, keep: Seq<bool>) -> Seq<T>
    decreases s.len(),
{
    if s.len() == 0 {
        seq![]
    } else if keep[s.len() - 1] {
        select(s.drop_last(), keep).push(s.last())
    } else {
        select(s.drop_last(), keep)
    }
}

/// The outcome of the second step, with its parts as what they say.
pub open spec fn found(r: Result<Vec<SocketAddr>, ResolveError>) -> Result<
    Seq<SocketAddr>,
    ResolveErrorView,
> {
    match r {
        Ok(addrs) => Ok(addrs@),
        Err(e) => Err(e@),
    }
}

impl AclView {
    /// Asked about each of `addrs` in turn, the IP layer can answer `keep`.
    pub open spec fn may_answer_all(self, addrs: Seq<SocketAddr>, keep: Seq<bool>) -> bool {
        &&& keep.len() == addrs.len()
        &&& forall|i: int|
            0 <= i < addrs.len() ==> self.may_answer_ip(#[trigger] addrs[i].ip, keep[i])
    }

    /// Of the addresses that an untrusted `host` resolves to, the list can let
    /// through `r`.
    pub open spec fn may_filter(
        self,
        host: Seq<char>,
        addrs: Seq<SocketAddr>,
        r: Result<Seq<SocketAddr>, ResolveErrorView>,
    ) -> bool {
        exists|keep: Seq<bool>| #[trigger]
            self.may_answer_all(addrs, keep) && r == (if select(addrs, keep).len() == 0 {
                Err(ResolveErrorView::AllDenied(host))
            } else {
                Ok(select(addrs, keep))
            })
    }
}

impl Acl {
    /// Whether to look `host` up. A name that the host rules deny is refused
    /// without a lookup, and one that they allow is trusted.
    pub fn start_resolve(&self, host: &str) -> (r: Resolution)
        ensures
            exists|d: HostDecision| #[trigger]
                self@.may_decide_host(host@, d) && r@ == resolution(host@, d),
    {
        match self.host_decision(host) {
            HostDecision::Deny => Resolution::Refused(ResolveError::DeniedHost(host.to_owned())),
            HostDecision::Allow => Resolution::Lookup { trusted: true },
            HostDecision::Continue => Resolution::Lookup { trusted: false },
        }
    }

    /// Which of the addresses `resolved`, found for `host`, may be used: all of
    /// them if the name is trusted, else those that the IP rules allow, in the
    /// order in which they were found. If the IP rules allow none, this is an
    /// error.
    pub fn finish_resolve(&self, host: &str, trusted: bool, resolved: Vec<SocketAddr>) -> (r: Result<
        Vec<SocketAddr>,
        ResolveError,
    >)
        ensures
            trusted ==> found(r) == Ok::<_, ResolveErrorView>(resolved@),
            !trusted ==> self@.may_filter(host@, resolved@, found(r)),
    {
        if trusted {
            return Ok(resolved);
        }
        let mut allowed: Vec<SocketAddr> = Vec::new();
        let ghost mut keep: Seq<bool> = seq![];
        for i in 0..resolved.len()
            invariant
                self@.may_answer_all(resolved@.take(i as int), keep),
                allowed@ == select(resolved@.take(i as int), keep),
        {
            let sa: SocketAddr = resolved[i];
            let ok: bool = self.is_allowed_ip(sa.ip);
            if ok {
                allowed.push(sa);
            }
            proof {
                let before = resolved@.take(i as int);
                let after = resolved@.take(i + 1);
                assert(after.drop_last() =~= before);
                lemma_select_prefix(before, keep, keep.push(ok));
                keep = keep.push(ok);
                assert(forall|j: int| 0 <= j < i ==> after[j] == before[j]);
            }
        }
        assert(resolved@.take(resolved.len() as int) =~= resolved@);
        if allowed.len() == 0 {
            Err(ResolveError::AllDenied(host.to_owned()))
        } else {
            Ok(allowed)
        }
    }
}

/// A selection looks at no more places than there are elements.
proof fn lemma_select_prefix<T>(s: Seq<T>, a: Seq<bool>, b: Seq<bool>)
    requires
        s.len() <= a.len(),
        s.len() <= b.len(),
        forall|i: int| 0 <= i < s.len() ==> a[i] == b[i],
    ensures
        select(s, a) == select(s, b),
    decreases s.len(),
{
    if s.len() > 0 {
        lemma_select_prefix(s.drop_last(), a, b);
    }
}

} // verus!

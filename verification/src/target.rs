//! Judging URLs.

use crate::acl::{Acl, AclView};
use crate::addr::{IpAddr, Ipv4Addr, Ipv6Addr};
use crate::error::{AclError, AclErrorView};
use crate::rule::HostDecision;
use crate::text::{ascii_lower, normalize_host, normalized};
use vstd::prelude::*;

verus! {

/// The host of a URL.
#[derive(Debug, PartialEq, Eq)]
pub enum Host {
    Domain(String),
    Ipv4(Ipv4Addr),
    Ipv6(Ipv6Addr),
}

/// What a [`Host`] names.
pub enum HostView {
    Domain(Seq<char>),
    Ip(IpAddr),
}

impl View for Host {
    type V = HostView;

    open spec fn view(&self) -> HostView {
        match self {
            Host::Domain(name) => HostView::Domain(name@),
            Host::Ipv4(a) => HostView::Ip(IpAddr::V4(*a)),
            Host::Ipv6(a) => HostView::Ip(IpAddr::V6(*a)),
        }
    }
}

/// `url::Url`, a parsed URL.
#[verifier::external_type_specification]
#[verifier::external_body]
pub struct ExUrl(url::Url);

/// What `url::Url::scheme` returns.
pub uninterp spec fn url_scheme(url: url::Url) -> Seq<char>;

/// What `url::Url::host` returns.
pub uninterp spec fn url_host(url: url::Url) -> Option<HostView>;

/// `url::Url::scheme`: the scheme of the URL, which is in lower case. Which text
/// has which scheme is that crate's matter and not stated.
pub assume_specification[ url::Url::scheme ](url: &url::Url) -> (r: &str)
    ensures
        r@ == url_scheme(*url),
        ascii_lower(r@) == r@,
;

/// `url::Url::host`: the host of the URL, if it has one, as the domain name or
/// the address that it is. Which URLs have a host, and how its text is read, is
/// that crate's matter and not stated.
#[verifier::external_body]
fn host_of(url: &url::Url) -> (r: Option<Host>)
    ensures
        opt_host(r) == url_host(*url),
{
    match url.host() {
        None => None,
        Some(url::Host::Domain(name)) => Some(Host::Domain(name.to_owned())),
        Some(url::Host::Ipv4(a)) => Some(Host::Ipv4(Ipv4Addr { bits: a.into() })),
        Some(url::Host::Ipv6(a)) => Some(Host::Ipv6(Ipv6Addr { bits: a.into() })),
    }
}

/// A host that may be missing, as what it names.
pub open spec fn opt_host(host: Option<Host>) -> Option<HostView> {
    match host {
        Some(h) => Some(h@),
        None => None,
    }
}

/// The outcome of a validation, with the error as what it says.
pub open spec fn outcome(r: Result<(), AclError>) -> Result<(), AclErrorView> {
    match r {
        Ok(()) => Ok(()),
        Err(e) => Err(e@),
    }
}

/// What follows for a URL from the decision about its domain name.
pub open spec fn domain_outcome(name: Seq<char>, d: HostDecision) -> Result<(), AclErrorView> {
    match d {
        HostDecision::Deny => Err(AclErrorView::DeniedHost(normalized(name))),
        HostDecision::Allow | HostDecision::Continue => Ok(()),
    }
}

/// What follows for a URL from the answer about its address.
pub open spec fn ip_outcome(ip: IpAddr, allowed: bool) -> Result<(), AclErrorView> {
    if allowed {
        Ok(())
    } else {
        Err(AclErrorView::DeniedIp(ip))
    }
}

impl AclView {
    /// Validating a URL with this scheme and host can come out as `r`.
    pub open spec fn may_validate(
        self,
        scheme: Seq<char>,
        host: Option<HostView>,
        r: Result<(), AclErrorView>,
    ) -> bool {
        if !self.schemes.contains(scheme) {
            r == Err::<(), AclErrorView>(AclErrorView::DeniedScheme(scheme))
        } else {
            match host {
                None => r == Ok::<(), AclErrorView>(()),
                Some(HostView::Domain(name)) => exists|d: HostDecision| #[trigger]
                    self.may_decide_host(name, d) && r == domain_outcome(name, d),
                Some(HostView::Ip(ip)) => exists|allowed: bool| #[trigger]
                    self.may_answer_ip(ip, allowed) && r == ip_outcome(ip, allowed),
            }
        }
    }
}

impl Acl {
    /// Reject `url` if its scheme or its host violates the list.
    ///
    /// 1. The scheme has to be one that is accepted (`http` and `https`, unless
    ///    [`Acl::restrict_schemes`] was called). This comes first, so that URLs
    ///    without a host are rejected here and do not slip through.
    /// 2. A domain name is put to the host rules.
    /// 3. An address is put to the IP rules.
    ///
    /// A domain name that no host rule matches passes: the addresses it
    /// resolves to are judged when they are known. Call this on a URL before
    /// requesting it, so that addresses, which are never resolved, are judged
    /// too.
    pub fn validate_url(&self, url: &url::Url) -> (r: Result<(), AclError>)
        ensures
            self@.may_validate(url_scheme(*url), url_host(*url), outcome(r)),
            ascii_lower(url_scheme(*url)) == url_scheme(*url),
    {
        self.validate_target(url.scheme(), host_of(url))
    }

    /// Reject a URL with this scheme and host as [`Acl::validate_url`] does.
    pub fn validate_target(&self, scheme: &str, host: Option<Host>) -> (r: Result<(), AclError>)
        ensures
            self@.may_validate(scheme@, opt_host(host), outcome(r)),
    {
        let scheme: String = scheme.to_owned();
        if !self.allows_scheme(&scheme) {
            return Err(AclError::DeniedScheme(scheme));
        }
        match host {
            None => Ok(()),
            Some(Host::Domain(name)) => match self.host_decision(name.as_str()) {
                HostDecision::Allow | HostDecision::Continue => Ok(()),
                HostDecision::Deny => Err(AclError::DeniedHost(normalize_host(name.as_str()))),
            },
            Some(Host::Ipv4(v4)) => self.validate_ip(IpAddr::V4(v4)),
            Some(Host::Ipv6(v6)) => self.validate_ip(IpAddr::V6(v6)),
        }
    }

    fn validate_ip(&self, ip: IpAddr) -> (r: Result<(), AclError>)
        ensures
            exists|allowed: bool| #[trigger]
                self@.may_answer_ip(ip, allowed) && outcome(r) == ip_outcome(ip, allowed),
    {
        if self.is_allowed_ip(ip) {
            Ok(())
        } else {
            Err(AclError::DeniedIp(ip))
        }
    }
}

} // verus!

//! Why a URL was denied.

use crate::addr::IpAddr;
use crate::display::ip_text;
use vstd::prelude::*;

verus! {

/// Why [`Acl::validate_url`](crate::Acl::validate_url) denied a URL.
#[derive(Debug, PartialEq, Eq)]
pub enum AclError {
    /// The scheme is not one that a URL may have; see
    /// [`Acl::restrict_schemes`](crate::Acl::restrict_schemes). This covers
    /// URLs without a host, such as `file:///etc/passwd`.
    DeniedScheme(String),
    /// The host is an IP address that was denied.
    DeniedIp(IpAddr),
    /// The host is a domain name that was denied.
    DeniedHost(String),
}

/// What an [`AclError`] says.
pub enum AclErrorView {
    DeniedScheme(Seq<char>),
    DeniedIp(IpAddr),
    DeniedHost(Seq<char>),
}

impl View for AclError {
    type V = AclErrorView;

    open spec fn view(&self) -> AclErrorView {
        match self {
            AclError::DeniedScheme(s) => AclErrorView::DeniedScheme(s@),
            AclError::DeniedIp(ip) => AclErrorView::DeniedIp(*ip),
            AclError::DeniedHost(h) => AclErrorView::DeniedHost(h@),
        }
    }
}

impl Clone for AclError {
    fn clone(&self) -> (r: AclError)
        ensures
            r == *self,
    {
        match self {
            AclError::DeniedScheme(s) => AclError::DeniedScheme(s.clone()),
            AclError::DeniedIp(ip) => AclError::DeniedIp(*ip),
            AclError::DeniedHost(h) => AclError::DeniedHost(h.clone()),
        }
    }
}

impl AclErrorView {
    /// The error in words.
    pub open spec fn text(self) -> Seq<char> {
        match self {
            AclErrorView::DeniedScheme(s) => "scheme "@ + s + " is denied by ACL"@,
            AclErrorView::DeniedIp(ip) => "address "@ + ip_text(ip) + " is denied by ACL"@,
            AclErrorView::DeniedHost(h) => "host "@ + h + " is denied by ACL"@,
        }
    }
}

impl AclError {
    /// The error in words.
    pub fn message(&self) -> (r: String)
        ensures
            r@ == self@.text(),
    {
        match self {
            AclError::DeniedScheme(s) => String::from("scheme ").concat(s.as_str()).concat(
                " is denied by ACL",
            ),
            AclError::DeniedIp(ip) => String::from("address ").concat(ip.text().as_str()).concat(
                " is denied by ACL",
            ),
            AclError::DeniedHost(h) => String::from("host ").concat(h.as_str()).concat(
                " is denied by ACL",
            ),
        }
    }
}

} // verus!

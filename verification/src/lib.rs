//! Access control for outgoing HTTP requests.
//!
//! An [`Acl`] decides which hosts, addresses and URL schemes a client may
//! reach, and so keeps a server from being talked into requesting its own
//! internal network. Host names are judged before they are resolved, the
//! addresses they resolve to are judged afterwards, and a URL is judged before
//! it is requested. In every layer an explicit allow rule wins over a deny
//! rule.
//!
//! ```ignore
//! let acl = Acl::new()
//!     .deny_local_network()
//!     .allow_cidr(IpNet::new(address, 32).unwrap());
//! ```

pub mod acl;
pub mod addr;
pub mod display;
pub mod error;
pub mod laws;
pub mod local;
pub mod net;
pub mod resolve;
pub mod rule;
pub mod target;
pub mod text;

pub use acl::Acl;
pub use addr::{IpAddr, Ipv4Addr, Ipv6Addr};
pub use error::AclError;
pub use local::is_local_network;
pub use net::IpNet;
pub use resolve::{Resolution, ResolveError, SocketAddr};
pub use rule::HostDecision;
pub use target::Host;
pub use text::normalize_host;
